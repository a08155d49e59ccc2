//! Verified core of a file-name search engine: path-query segmentation,
//! segment and name matchers, a string pool with its searches, highlight
//! words, the background search walk, file event classification and the
//! compact node metadata encoding.

pub mod type_and_size;
pub mod query_segmentation;
pub mod text;
pub mod segment;
pub mod path_match;
pub mod cache_line;
pub mod name_pool;
pub mod search_laws;
pub mod highlight;
pub mod event_flag;
pub mod fsevent;
pub mod nodes;
pub mod commands;
pub mod harmony;
pub mod search_iterator;
pub mod clock;
pub mod search_activity;
pub mod icons;
pub mod window_controls;
pub mod disk_entry;
pub mod slab_tree;
pub mod fs_event;
pub mod prefetch_walk;
pub mod name_match;
pub mod matching_laws;
