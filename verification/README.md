# cardinal_search

The verified core of a desktop file-name search engine, written in Verus.

`src/` is the library, proved by Verus. Every function in it has a contract,
except the three clock readings in `clock`, whose value only the clock
decides (their mapping of a reading to a number, `timestamp_of` and
`count_of`, is stated exactly):

- `query_segmentation`, `segment`, `path_match`: path queries split into
  segments, segment matchers (plain, or wildcard regexes), and the matching
  of a node's path against them.
- `name_match`: matching a node's name against a search expression.
- `cache_line`, `name_pool`, `search_laws`: a pool of names packed into
  zero-separated lines, with substring, prefix, suffix and exact search, and
  the laws that searches find every stored name and report only matching
  ones.
- `highlight`: the words a query highlights, lower-cased, deduplicated and
  sorted.
- `prefetch_walk`, `search_iterator`: the depth-first walk of a background
  search (with the law that it follows the preorder of the tree) and the
  batches it hands out.
- `slab_tree`: node paths in a slab-backed directory tree.
- `event_flag`, `fsevent`, `fs_event`: file-system event flags and what they
  ask to rescan.
- `type_and_size`, `nodes`, `commands`, `harmony`, `disk_entry`, `clock`,
  `search_activity`, `window_controls`, `icons`: node metadata encodings,
  front-end payloads, lifecycle states and small decisions of the app.

`tests/` exercises the library on concrete values. `app/` holds what Verus
does not see: process-wide counters and clocks, reading file metadata,
channel loops around the library's state machines, and the serde forms of
the payloads.
