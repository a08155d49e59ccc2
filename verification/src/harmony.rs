use vstd::prelude::*;
use crate::nodes::SlabNodeMetadata;
use crate::commands::{or_zero, icon_data_url, png_data_prefix, base64_standard};
use crate::nodes::SlabIndex;
use crate::text::append_text;

verus! {

/// What the HarmonyOS front end shows of a node.
pub struct NodeInfo {
    pub path: String,
    pub metadata: Option<NodeInfoMetadata>,
    pub icon: Option<String>,
}

/// Node metadata as plain numbers; size -1 when the node has none.
#[derive(Debug, Clone, Copy, PartialEq, Eq, Structural)]
pub struct NodeInfoMetadata {
    pub file_type: u8,
    pub size: i64,
    pub ctime: u32,
    pub mtime: u32,
}

impl NodeInfoMetadata {
    /// The plain numbers of a node's metadata; a node without metadata shows
    /// kind 0, size -1 and zero times.
    pub open spec fn spec_from_metadata(metadata: Option<SlabNodeMetadata>) -> NodeInfoMetadata {
        match metadata {
            Some(m) => NodeInfoMetadata {
                file_type: m.file_type.spec_code(),
                size: m.size,
                ctime: or_zero(m.ctime),
                mtime: or_zero(m.mtime),
            },
            None => NodeInfoMetadata { file_type: 0u8, size: -1i64, ctime: 0u32, mtime: 0u32 },
        }
    }

    pub fn from_metadata(metadata: &Option<SlabNodeMetadata>) -> (r: Self)
        ensures
            r == Self::spec_from_metadata(*metadata),
    {
        match metadata {
            Some(m) => NodeInfoMetadata {
                file_type: m.file_type().code(),
                size: m.size(),
                ctime: match m.ctime() {
                    Some(v) => v,
                    None => 0,
                },
                mtime: match m.mtime() {
                    Some(v) => v,
                    None => 0,
                },
            },
            None => NodeInfoMetadata { file_type: 0, size: -1, ctime: 0, mtime: 0 },
        }
    }
}

/// The kind of a node, as the front end numbers it.
#[derive(Debug, Clone, Copy, PartialEq, Eq, Structural)]
pub enum NodeFileType {
    File,
    Dir,
    Symlink,
    Unknown,
}

/// The state of the back end.
#[derive(Debug, Clone, Copy, PartialEq, Eq, Structural)]
pub enum LifecycleState {
    Uninitialized,
    Initializing,
    Indexing,
    Ready,
    Updating,
    Error,
}

impl LifecycleState {
    pub open spec fn spec_as_u8(self) -> u8 {
        match self {
            LifecycleState::Uninitialized => 0,
            LifecycleState::Initializing => 1,
            LifecycleState::Indexing => 2,
            LifecycleState::Ready => 3,
            LifecycleState::Updating => 4,
            LifecycleState::Error => 5,
        }
    }

    /// The state's number.
    pub fn as_u8(self) -> (r: u8)
        ensures
            r == self.spec_as_u8(),
    {
        match self {
            LifecycleState::Uninitialized => 0,
            LifecycleState::Initializing => 1,
            LifecycleState::Indexing => 2,
            LifecycleState::Ready => 3,
            LifecycleState::Updating => 4,
            LifecycleState::Error => 5,
        }
    }

    pub open spec fn spec_from_u8(value: u8) -> LifecycleState {
        match value {
            0 => LifecycleState::Uninitialized,
            1 => LifecycleState::Initializing,
            2 => LifecycleState::Indexing,
            3 => LifecycleState::Ready,
            4 => LifecycleState::Updating,
            5 => LifecycleState::Error,
            _ => LifecycleState::Uninitialized,
        }
    }

    /// The state with the given number; an unknown number reads as
    /// `Uninitialized`.
    pub fn from_u8(value: u8) -> (r: LifecycleState)
        ensures
            r == Self::spec_from_u8(value),
    {
        match value {
            0 => LifecycleState::Uninitialized,
            1 => LifecycleState::Initializing,
            2 => LifecycleState::Indexing,
            3 => LifecycleState::Ready,
            4 => LifecycleState::Updating,
            5 => LifecycleState::Error,
            _ => LifecycleState::Uninitialized,
        }
    }

    pub open spec fn spec_to_str(self) -> Seq<char> {
        match self {
            LifecycleState::Uninitialized => "UNINITIALIZED"@,
            LifecycleState::Initializing => "INITIALIZING"@,
            LifecycleState::Indexing => "INDEXING"@,
            LifecycleState::Ready => "READY"@,
            LifecycleState::Updating => "UPDATING"@,
            LifecycleState::Error => "ERROR"@,
        }
    }

    /// The state's name in capitals.
    pub fn to_str(self) -> (r: &'static str)
        ensures
            r@ == self.spec_to_str(),
    {
        match self {
            LifecycleState::Uninitialized => "UNINITIALIZED",
            LifecycleState::Initializing => "INITIALIZING",
            LifecycleState::Indexing => "INDEXING",
            LifecycleState::Ready => "READY",
            LifecycleState::Updating => "UPDATING",
            LifecycleState::Error => "ERROR",
        }
    }
}

/// A state survives the trip through its number.
pub proof fn lemma_lifecycle_roundtrip(s: LifecycleState)
    ensures
        LifecycleState::spec_from_u8(s.spec_as_u8()) == s,
{
}

/// A known number survives the trip through its state.
pub proof fn lemma_lifecycle_code_roundtrip(v: u8)
    requires
        v < 6,
    ensures
        LifecycleState::spec_from_u8(v).spec_as_u8() == v,
{
}

/// The prefix of the refusal given while the back end is not ready.
pub open spec fn not_ready_prefix() -> Seq<char> {
    seq!['B', 'a', 'c', 'k', 'e', 'n', 'd', ' ', 'n', 'o', 't', ' ', 'r', 'e', 'a', 'd', 'y', '.', ' ', 'C', 'u', 'r', 'r', 'e', 'n', 't', ' ', 's', 't', 'a', 't', 'e', ':', ' ']
}

/// Requests are served only once the back end is ready; otherwise they are
/// refused with a message that names the current state.
pub fn ensure_ready(state: LifecycleState) -> (r: Result<(), String>)
    ensures
        r is Ok <==> state == LifecycleState::Ready,
        r matches Err(msg) ==> msg@ == not_ready_prefix() + state.spec_to_str(),
{
    if state == LifecycleState::Ready {
        return Ok(());
    }
    let mut msg = String::new();
    let prefix = "Backend not ready. Current state: ";
    proof {
        reveal_strlit("Backend not ready. Current state: ");
        assert(prefix@ =~= not_ready_prefix());
    }
    append_text(&mut msg, prefix);
    append_text(&mut msg, state.to_str());
    Err(msg)
}

/// The indices of a search's results as the front end takes them: each
/// truncated to 32 bits; none where the search was cancelled.
pub fn result_indices(nodes: Option<Vec<SlabIndex>>) -> (r: Vec<u32>)
    ensures
        r@.len() == (match nodes {
            Some(v) => v@.len(),
            None => 0,
        }),
        nodes matches Some(v) ==> forall|i: int| 0 <= i < r@.len() ==> #[trigger] r@[i] == v@[i].0 as u32,
{
    let list = match nodes {
        Some(v) => v,
        None => Vec::new(),
    };
    let mut out: Vec<u32> = Vec::new();
    let mut i: usize = 0;
    while i < list.len()
        invariant
            i <= list@.len(),
            out@.len() == i,
            forall|j: int| 0 <= j < i ==> #[trigger] out@[j] == list@[j].0 as u32,
        decreases list@.len() - i,
    {
        out.push(list[i].get() as u32);
        i = i + 1;
    }
    out
}

/// What the front end is shown of a node: its path, its metadata (sizes of
/// -1 where none is known) and, where an icon was found, the icon as a data
/// URL.
pub fn node_info(path: String, metadata: &Option<SlabNodeMetadata>, icon: Option<Vec<u8>>) -> (r: NodeInfo)
    requires
        icon matches Some(d) ==> d@.len() / 3 * 4 + 4 <= usize::MAX,
    ensures
        r.path == path,
        r.metadata matches Some(m) && m == NodeInfoMetadata::spec_from_metadata(*metadata),
        icon is None ==> r.icon is None,
        icon matches Some(d) ==> (r.icon matches Some(u) && u@ == png_data_prefix() + base64_standard(d@)),
{
    let icon = match icon {
        Some(data) => Some(icon_data_url(&data)),
        None => None,
    };
    NodeInfo { path, icon, metadata: Some(NodeInfoMetadata::from_metadata(metadata)) }
}

} // verus!
