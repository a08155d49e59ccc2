use vstd::prelude::*;
use crate::nodes::{SlabIndex, SlabNodeMetadata};
use crate::segment::SearchOptions;
use crate::icons::icon_of_path_ns;
use crate::text::append_text;
use base64::Engine;

verus! {

/// Search options as the front end sends them.
#[derive(Debug, Clone, Copy)]
pub struct SearchOptionsPayload {
    pub case_insensitive: bool,
}

impl Default for SearchOptionsPayload {
    fn default() -> (r: Self)
        ensures
            r.case_insensitive == false,
    {
        SearchOptionsPayload { case_insensitive: false }
    }
}

impl From<SearchOptionsPayload> for SearchOptions {
    fn from(payload: SearchOptionsPayload) -> (r: SearchOptions) {
        SearchOptions { case_insensitive: payload.case_insensitive }
    }
}

impl vstd::std_specs::convert::FromSpecImpl<SearchOptionsPayload> for SearchOptions {
    open spec fn obeys_from_spec() -> bool {
        true
    }

    open spec fn from_spec(v: SearchOptionsPayload) -> SearchOptions {
        SearchOptions { case_insensitive: v.case_insensitive }
    }
}

/// What the front end shows of a node.
pub struct NodeInfo {
    pub path: String,
    pub metadata: Option<NodeInfoMetadata>,
    pub icon: Option<String>,
}

/// The answer to a search: the matching nodes and the words to highlight.
pub struct SearchResponse {
    pub results: Vec<SlabIndex>,
    pub highlights: Vec<String>,
}

impl Default for SearchResponse {
    fn default() -> (r: Self)
        ensures
            r.results@.len() == 0,
            r.highlights@.len() == 0,
    {
        SearchResponse { results: Vec::new(), highlights: Vec::new() }
    }
}

/// Node metadata as plain numbers: kind code, size, and times in seconds
/// (0 when unknown).
#[derive(Debug, Clone, Copy, PartialEq, Eq, Structural)]
pub struct NodeInfoMetadata {
    pub file_type: u8,
    pub size: i64,
    pub ctime: u32,
    pub mtime: u32,
}

pub open spec fn or_zero(t: Option<u32>) -> u32 {
    match t {
        Some(v) => v,
        None => 0,
    }
}

impl NodeInfoMetadata {
    pub fn from_metadata(metadata: SlabNodeMetadata) -> (r: Self)
        ensures
            r.file_type == metadata.file_type.spec_code(),
            r.size == metadata.size,
            r.ctime == or_zero(metadata.ctime),
            r.mtime == or_zero(metadata.mtime),
    {
        NodeInfoMetadata {
            file_type: metadata.file_type().code(),
            size: metadata.size(),
            ctime: match metadata.ctime() {
                Some(v) => v,
                None => 0,
            },
            mtime: match metadata.mtime() {
                Some(v) => v,
                None => 0,
            },
        }
    }
}

/// The character of a 6-bit value in the standard base64 alphabet.
pub open spec fn base64_char(v: u8) -> char {
    if v < 26 {
        (65 + v) as char
    } else if v < 52 {
        (97 + v - 26) as char
    } else if v < 62 {
        (48 + v - 52) as char
    } else if v == 62 {
        '+'
    } else {
        '/'
    }
}

/// Standard base64 (RFC 4648 alphabet, `=` padding): each group of three
/// bytes becomes four characters; a last group of one or two bytes is
/// padded to four.
pub open spec fn base64_standard(data: Seq<u8>) -> Seq<char>
    decreases data.len(),
{
    if data.len() == 0 {
        Seq::empty()
    } else if data.len() == 1 {
        let a = data[0];
        seq![base64_char(a >> 2), base64_char((a & 3) << 4), '=', '=']
    } else if data.len() == 2 {
        let a = data[0];
        let b = data[1];
        seq![base64_char(a >> 2), base64_char(((a & 3) << 4) | (b >> 4)), base64_char((b & 15) << 2), '=']
    } else {
        let a = data[0];
        let b = data[1];
        let c = data[2];
        seq![
            base64_char(a >> 2),
            base64_char(((a & 3) << 4) | (b >> 4)),
            base64_char(((b & 15) << 2) | (c >> 6)),
            base64_char(c & 63),
        ] + base64_standard(data.subrange(3, data.len() as int))
    }
}

/// `base64::engine::general_purpose::STANDARD.encode`: the standard,
/// padded base64 text of the bytes. It panics when the length of the text
/// would not fit in `usize`, which `requires` leaves out.
#[verifier::external_body]
fn base64_encode(data: &[u8]) -> (r: String)
    requires
        data@.len() / 3 * 4 + 4 <= usize::MAX,
    ensures
        r@ == base64_standard(data@),
{
    base64::engine::general_purpose::STANDARD.encode(data)
}

/// The prefix of an inline PNG icon.
pub open spec fn png_data_prefix() -> Seq<char> {
    seq!['d', 'a', 't', 'a', ':', 'i', 'm', 'a', 'g', 'e', '/', 'p', 'n', 'g', ';', 'b', 'a', 's', 'e', '6', '4', ',']
}

/// A PNG icon as a data URL.
pub fn icon_data_url(data: &Vec<u8>) -> (r: String)
    requires
        data@.len() / 3 * 4 + 4 <= usize::MAX,
    ensures
        r@ == png_data_prefix() + base64_standard(data@),
{
    let mut url = String::new();
    let prefix = "data:image/png;base64,";
    proof {
        reveal_strlit("data:image/png;base64,");
    }
    append_text(&mut url, prefix);
    let encoded = base64_encode(data.as_slice());
    append_text(&mut url, encoded.as_str());
    proof {
        assert(prefix@ =~= png_data_prefix());
    }
    url
}

/// What the front end is shown of a node found at `path`: its path, its
/// metadata as plain numbers, and, when icons are asked for and the
/// platform has one, its icon as a data URL.
pub fn node_info(path: String, metadata: Option<SlabNodeMetadata>, include_icons: bool) -> (r: NodeInfo)
    ensures
        r.path == path,
        r.metadata == spec_info_metadata(metadata),
        r.icon is None,
{
    let icon = if include_icons {
        match icon_of_path_ns(path.as_str()) {
            Some(data) => Some(icon_data_url(&data)),
            None => None,
        }
    } else {
        None
    };
    let metadata = match metadata {
        Some(m) => Some(NodeInfoMetadata::from_metadata(m)),
        None => None,
    };
    NodeInfo { path, metadata, icon }
}

/// The metadata shown for a node, as plain numbers.
pub open spec fn spec_info_metadata(metadata: Option<SlabNodeMetadata>) -> Option<NodeInfoMetadata> {
    match metadata {
        Some(m) => Some(NodeInfoMetadata {
            file_type: m.file_type.spec_code(),
            size: m.size,
            ctime: or_zero(m.ctime),
            mtime: or_zero(m.mtime),
        }),
        None => None,
    }
}

/// What the front end is shown of each of the nodes found (their paths and
/// metadata, in order); icons are included unless `include_icons` says no.
pub fn nodes_info(nodes: Vec<(String, Option<SlabNodeMetadata>)>, include_icons: Option<bool>) -> (r: Vec<NodeInfo>)
    ensures
        r@.len() == nodes@.len(),
        forall|i: int| 0 <= i < r@.len() ==> {
            &&& (#[trigger] r@[i]).path == nodes@[i].0
            &&& r@[i].metadata == spec_info_metadata(nodes@[i].1)
            &&& r@[i].icon is None
        },
{
    let include_icons = match include_icons {
        Some(b) => b,
        None => true,
    };
    let n = nodes.len();
    let ghost all = nodes@;
    let mut nodes = nodes;
    let mut out: Vec<NodeInfo> = Vec::new();
    let mut i: usize = 0;
    while i < n
        invariant
            n == all.len(),
            i <= n,
            nodes@.len() == n,
            forall|j: int| i <= j < n ==> #[trigger] nodes@[j] == all[j],
            out@.len() == i,
            forall|j: int| 0 <= j < i ==> {
                &&& (#[trigger] out@[j]).path == all[j].0
                &&& out@[j].metadata == spec_info_metadata(all[j].1)
                &&& out@[j].icon is None
            },
        decreases n - i,
    {
        let mut entry: (String, Option<SlabNodeMetadata>) = (String::new(), None);
        std::mem::swap(&mut entry, &mut nodes[i]);
        let (path, metadata) = entry;
        out.push(node_info(path, metadata, include_icons));
        i = i + 1;
    }
    out
}

/// The answer to a search: the nodes found, none where the search was
/// cancelled, with the words to highlight.
pub fn search_response(nodes: Option<Vec<SlabIndex>>, highlights: Vec<String>) -> (r: SearchResponse)
    ensures
        r.results@ == (match nodes {
            Some(v) => v@,
            None => Seq::empty(),
        }),
        r.highlights == highlights,
{
    let results = match nodes {
        Some(list) => list,
        None => Vec::new(),
    };
    SearchResponse { results, highlights }
}

} // verus!
