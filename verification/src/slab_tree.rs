use vstd::prelude::*;
use slab::Slab;
use crate::text::{append_text, push_char};
use crate::highlight::strings_view;

verus! {

broadcast use vstd::string::group_string_axioms;

/// A directory-tree node stored in a slab: its parent's key (none for the
/// root), its children's keys and its own name.
pub struct SlabNode {
    pub parent: Option<usize>,
    pub children: Vec<usize>,
    pub name: String,
}

/// `slab::Slab`, opaque; what a slab of nodes holds is named by
/// `slab_entries`.
#[verifier::external_type_specification]
#[verifier::external_body]
#[verifier::reject_recursive_types(T)]
pub struct ExSlab<T>(slab::Slab<T>);

/// What a slab of nodes holds: for each occupied key, that node's parent
/// key and name.
pub uninterp spec fn slab_entries(slab: Slab<SlabNode>) -> Map<usize, (Option<usize>, Seq<char>)>;

/// `Slab::get`: the node stored under `key` if that slot is occupied,
/// handed out as its parent key and a copy of its name; `None` for a
/// vacant or out-of-range key.
#[verifier::external_body]
fn slab_entry(slab: &Slab<SlabNode>, key: usize) -> (r: Option<(Option<usize>, String)>)
    ensures
        r is Some <==> slab_entries(*slab).contains_key(key),
        r matches Some(e) ==> slab_entries(*slab)[key] == (e.0, e.1@),
{
    match slab.get(key) {
        Some(node) => Some((node.parent, node.name.clone())),
        None => None,
    }
}

/// `Slab::len`: the number of values stored, one per occupied key.
#[verifier::external_body]
fn slab_len(slab: &Slab<SlabNode>) -> (r: usize)
    ensures
        r == slab_entries(*slab).dom().len(),
{
    slab.len()
}

/// The names met walking up from `p` towards the root, the root's own name
/// left out, nearest first; `None` where the walk meets a vacant key or
/// would take more than `fuel` steps.
pub open spec fn upward_names(nodes: Map<usize, (Option<usize>, Seq<char>)>, p: usize, fuel: nat) -> Option<Seq<Seq<char>>>
    decreases fuel,
{
    if !nodes.contains_key(p) {
        None
    } else {
        match nodes[p].0 {
            None => Some(Seq::empty()),
            Some(q) => if fuel == 0 {
                None
            } else {
                match upward_names(nodes, q, (fuel - 1) as nat) {
                    Some(rest) => Some(seq![nodes[p].1] + rest),
                    None => None,
                }
            },
        }
    }
}

/// Each segment preceded by a slash, in order.
pub open spec fn slash_joined(segs: Seq<Seq<char>>) -> Seq<char>
    decreases segs.len(),
{
    if segs.len() == 0 {
        Seq::empty()
    } else {
        slash_joined(segs.drop_last()) + seq!['/'] + segs.last()
    }
}

/// The path of a node named `name` whose ancestors below the root carry
/// the names `ups`, nearest first.
pub open spec fn spec_node_path(name: Seq<char>, ups: Seq<Seq<char>>) -> Seq<char> {
    slash_joined((seq![name] + ups).reverse())
}

/// The walk up from `p` ends at the root.
pub open spec fn reaches_root(nodes: Map<usize, (Option<usize>, Seq<char>)>, p: usize) -> bool {
    exists|f: nat| #[trigger] upward_names(nodes, p, f) is Some
}

/// A walk that ends within some fuel gives the same names with any fuel
/// that also suffices.
pub proof fn lemma_upward_names_agree(nodes: Map<usize, (Option<usize>, Seq<char>)>, p: usize, f1: nat, f2: nat)
    requires
        upward_names(nodes, p, f1) is Some,
        upward_names(nodes, p, f2) is Some,
    ensures
        upward_names(nodes, p, f1) == upward_names(nodes, p, f2),
    decreases f1,
{
    if nodes.contains_key(p) {
        if let Some(q) = nodes[p].0 {
            lemma_upward_names_agree(nodes, q, (f1 - 1) as nat, (f2 - 1) as nat);
        }
    }
}

/// A node's path is its parent's path followed by a slash and its name,
/// wherever the parent is not the root.
pub proof fn law_child_path_extends_parent(name: Seq<char>, parent_name: Seq<char>, ups: Seq<Seq<char>>)
    ensures
        spec_node_path(name, seq![parent_name] + ups)
            == spec_node_path(parent_name, ups) + seq!['/'] + name,
{
    let child = (seq![name] + (seq![parent_name] + ups)).reverse();
    let parent = (seq![parent_name] + ups).reverse();
    assert(child.drop_last() =~= parent);
    assert(child.last() == name);
}

impl SlabNode {
    /// The path of this node in the slab: a slash before each name, from
    /// the topmost ancestor below the root down to this node.
    pub fn path(&self, slab: &Slab<SlabNode>) -> (r: String)
        requires
            self.parent matches Some(p) ==> reaches_root(slab_entries(*slab), p),
        ensures
            self.parent is None ==> r@ == spec_node_path(self.name@, Seq::empty()),
            self.parent matches Some(p) ==> forall|f: nat|
                #[trigger] upward_names(slab_entries(*slab), p, f) matches Some(ups)
                    ==> r@ == spec_node_path(self.name@, ups),
    {
        let ghost nodes = slab_entries(*slab);
        let mut segments: Vec<String> = Vec::new();
        segments.push(self.name.clone());
        let ghost mut walked: Seq<Seq<char>> = Seq::empty();
        if let Some(first) = self.parent {
            let ghost f0: nat = choose|f: nat| #[trigger] upward_names(nodes, first, f) is Some;
            let ghost mut fuel: nat = f0;
            let mut parent = first;
            loop
                invariant
                    nodes == slab_entries(*slab),
                    upward_names(nodes, parent, fuel) is Some,
                    upward_names(nodes, first, f0) == Some(walked + upward_names(nodes, parent, fuel).unwrap()),
                    strings_view(segments@) == seq![self.name@] + walked,
                ensures
                    nodes == slab_entries(*slab),
                    upward_names(nodes, first, f0) == Some(walked),
                    strings_view(segments@) == seq![self.name@] + walked,
                decreases fuel,
            {
                let entry = slab_entry(slab, parent);
                match entry {
                    Some((Some(next), name)) => {
                        proof {
                            let rest = upward_names(nodes, next, (fuel - 1) as nat).unwrap();
                            assert(upward_names(nodes, parent, fuel).unwrap() == seq![name@] + rest);
                            assert(walked + (seq![name@] + rest) =~= walked.push(name@) + rest);
                            walked = walked.push(name@);
                            fuel = (fuel - 1) as nat;
                        }
                        let ghost before = segments@;
                        let ghost name_view = name@;
                        segments.push(name);
                        proof {
                            assert(segments@ == before.push(name));
                            assert(strings_view(segments@) =~= strings_view(before).push(name_view));
                            assert(strings_view(segments@) =~= seq![self.name@] + walked);
                        }
                        parent = next;
                    },
                    _ => {
                        proof {
                            assert(upward_names(nodes, parent, fuel).unwrap() =~= Seq::<Seq<char>>::empty());
                            assert(walked + Seq::<Seq<char>>::empty() =~= walked);
                        }
                        break;
                    },
                }
            }
            proof {
                assert forall|f: nat| #[trigger] upward_names(nodes, first, f) is Some implies upward_names(nodes, first, f) == Some(walked) by {
                    lemma_upward_names_agree(nodes, first, f, f0);
                }
            }
        }
        proof {
            assert(strings_view(segments@) =~= seq![self.name@] + walked);
        }
        let ghost segs = strings_view(segments@);
        let ghost rev = segs.reverse();
        let mut result = String::new();
        let mut k = segments.len();
        assert(rev.take(0) =~= Seq::<Seq<char>>::empty());
        while k > 0
            invariant
                k <= segments@.len(),
                segs == strings_view(segments@),
                rev == segs.reverse(),
                result@ == slash_joined(rev.take(segs.len() - k)),
            decreases k,
        {
            k = k - 1;
            push_char(&mut result, '/');
            append_text(&mut result, segments[k].as_str());
            proof {
                let j = segs.len() - k - 1;
                assert(rev[j] == segs[k as int]);
                assert(rev.take(j + 1).drop_last() =~= rev.take(j));
                assert(rev.take(j + 1).last() == rev[j]);
            }
        }
        proof {
            assert(rev.take(segs.len() as int) =~= rev);
        }
        result
    }

    /// Whether the walk up from `p` ends at the root within `limit` steps.
    fn reaches_root_within(slab: &Slab<SlabNode>, p: usize, limit: usize) -> (r: bool)
        ensures
            r == upward_names(slab_entries(*slab), p, limit as nat) is Some,
    {
        let ghost nodes = slab_entries(*slab);
        let mut current = p;
        let mut steps = limit;
        loop
            invariant
                nodes == slab_entries(*slab),
                steps <= limit,
                upward_names(nodes, p, limit as nat) is Some == upward_names(nodes, current, steps as nat) is Some,
            decreases steps,
        {
            match slab_entry(slab, current) {
                None => {
                    return false;
                },
                Some((None, _)) => {
                    return true;
                },
                Some((Some(next), _)) => {
                    if steps == 0 {
                        return false;
                    }
                    steps = steps - 1;
                    current = next;
                },
            }
        }
    }

    /// The path of this node, or `None` where the walk up from its parent
    /// meets a vacant key or does not reach the root within as many steps
    /// as the slab holds nodes.
    pub fn checked_path(&self, slab: &Slab<SlabNode>) -> (r: Option<String>)
        ensures
            r is Some <==> (self.parent matches Some(p) ==> upward_names(slab_entries(*slab), p, slab_entries(*slab).dom().len()) is Some),
            r matches Some(s) ==> (self.parent is None ==> s@ == spec_node_path(self.name@, Seq::empty())),
            r matches Some(s) ==> (self.parent matches Some(p) ==> forall|f: nat|
                #[trigger] upward_names(slab_entries(*slab), p, f) matches Some(ups)
                    ==> s@ == spec_node_path(self.name@, ups)),
    {
        if let Some(p) = self.parent {
            let limit = slab_len(slab);
            if !Self::reaches_root_within(slab, p, limit) {
                return None;
            }
            proof {
                assert(upward_names(slab_entries(*slab), p, limit as nat) is Some);
            }
        }
        Some(self.path(slab))
    }
}

/// A node's name with its creation and modification times in seconds since
/// the Unix epoch, where known.
pub struct SlabNodeData {
    pub name: String,
    pub ctime: Option<u64>,
    pub mtime: Option<u64>,
}

impl SlabNodeData {
    /// The data of a node named `name`; `times` holds its creation and
    /// modification times where its metadata could be read.
    pub fn new(name: String, times: Option<(Option<u64>, Option<u64>)>) -> (r: Self)
        ensures
            r.name == name,
            r.ctime == (match times { Some(t) => t.0, None => None }),
            r.mtime == (match times { Some(t) => t.1, None => None }),
    {
        let (ctime, mtime) = match times {
            Some(t) => t,
            None => (None, None),
        };
        SlabNodeData { name, ctime, mtime }
    }
}

} // verus!
