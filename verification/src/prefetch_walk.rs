use vstd::prelude::*;
use crate::nodes::SlabIndex;
use crate::search_iterator::PrefetchMessage;
use crate::highlight::strings_view;
use crate::name_match::{NameExpr, match_node_with_path, spec_match_basic};
use crate::path_match::{spec_match_path, matchers_view, matchers_wf};
use crate::segment::{SegmentMatcher, SegmentMatcherSpec};

verus! {

broadcast use vstd::string::group_string_axioms;

/// A node waiting to be visited, with the names of the nodes above it.
pub struct PendingNode {
    pub index: SlabIndex,
    pub path: Vec<String>,
}

/// The view of a pending node: its index and its path.
pub open spec fn pending_view(p: PendingNode) -> (usize, Seq<Seq<char>>) {
    (p.index.0, strings_view(p.path@))
}

pub open spec fn stack_view(s: Seq<PendingNode>) -> Seq<(usize, Seq<Seq<char>>)> {
    Seq::new(s.len(), |i: int| pending_view(s[i]))
}

/// The children pushed for a visited node: last child first, so that the
/// first child is visited next; each gets the parent's path and name.
pub open spec fn children_entries(children: Seq<SlabIndex>, child_path: Seq<Seq<char>>) -> Seq<(usize, Seq<Seq<char>>)> {
    Seq::new(children.len(), |i: int| (children[children.len() - 1 - i].0, child_path))
}

/// The depth-first walk of a background search: the nodes still to visit,
/// the matches not yet sent, and the counts so far.
pub struct PrefetchWalk {
    pub stack: Vec<PendingNode>,
    pub batch: Vec<SlabIndex>,
    pub current_pos: usize,
    pub matched_count: usize,
    pub root: SlabIndex,
    pub batch_size: usize,
    pub total_nodes: usize,
    /// How many matches have been handed out so far.
    pub sent: Ghost<nat>,
}

/// What the walk asks after a visit: a full batch to send, and whether the
/// walk has seen every node.
pub struct VisitOutcome {
    pub send: Option<Vec<SlabIndex>>,
    pub finished: bool,
}

/// What visiting a node does to a walk: it counts the node and keeps it
/// when it matched, unless it is the root; it queues the node's children,
/// first child on top, each with the node's path and name; it hands out
/// the kept matches once they fill a batch (nothing lost or repeated); and
/// it says whether every node has been seen.
pub open spec fn visit_effect(
    old: PrefetchWalk,
    new: PrefetchWalk,
    r: VisitOutcome,
    index: SlabIndex,
    path: Seq<Seq<char>>,
    name: Seq<char>,
    children: Seq<SlabIndex>,
    matched: bool,
) -> bool {
    let is_root = index == old.root;
    let kept = if !is_root && matched { old.batch@.push(index) } else { old.batch@ };
    let child_path = path.push(name);
    let sent_now = match r.send {
        Some(v) => v@,
        None => Seq::empty(),
    };
    &&& old.counts_agree() ==> new.counts_agree()
    &&& sent_now + new.batch@ == kept
    &&& new.sent@ == old.sent@ + sent_now.len()
    &&& new.current_pos == if is_root { old.current_pos } else { (old.current_pos + 1) as usize }
    &&& new.matched_count == if !is_root && matched { (old.matched_count + 1) as usize } else { old.matched_count }
    &&& new.stack_seq() == old.stack_seq() + children_entries(children, child_path)
    &&& (kept.len() >= old.batch_size ==> (r.send matches Some(v) && v@ == kept) && new.batch@.len() == 0)
    &&& (kept.len() < old.batch_size ==> r.send is None && new.batch@ == kept)
    &&& r.finished == (new.current_pos + 1 >= new.total_nodes && new.stack@.len() == 0)
    &&& new.root == old.root
    &&& new.batch_size == old.batch_size
    &&& new.total_nodes == old.total_nodes
}

/// Whether a node matches the query, as the walk asks it.
pub open spec fn spec_node_matches(
    expr: NameExpr,
    name: Seq<char>,
    path: Seq<Seq<char>>,
    path_matchers: Option<Seq<SegmentMatcherSpec>>,
    case_insensitive: bool,
) -> bool {
    match path_matchers {
        Some(ms) => spec_match_path(ms, path.push(name)),
        None => spec_match_basic(expr, name, case_insensitive),
    }
}

pub open spec fn matchers_opt_view(m: Option<&[SegmentMatcher]>) -> Option<Seq<SegmentMatcherSpec>> {
    match m {
        Some(ms) => Some(matchers_view(ms@)),
        None => None,
    }
}

impl PrefetchWalk {
    pub open spec fn stack_seq(&self) -> Seq<(usize, Seq<Seq<char>>)> {
        stack_view(self.stack@)
    }

    /// Every match counted has either been handed out or is still held.
    pub open spec fn counts_agree(&self) -> bool {
        self.matched_count == self.sent@ + self.batch@.len()
    }

    /// A walk that starts at `root` with an empty path.
    pub fn new(root: SlabIndex, batch_size: usize, total_nodes: usize) -> (r: Self)
        ensures
            r.stack_seq() == seq![(root.0, Seq::<Seq<char>>::empty())],
            r.batch@.len() == 0,
            r.current_pos == 0,
            r.matched_count == 0,
            r.root == root,
            r.batch_size == batch_size,
            r.total_nodes == total_nodes,
            r.sent@ == 0,
            r.counts_agree(),
    {
        let mut stack: Vec<PendingNode> = Vec::new();
        let path: Vec<String> = Vec::new();
        assert(strings_view(path@) =~= Seq::<Seq<char>>::empty());
        stack.push(PendingNode { index: root, path });
        let r = PrefetchWalk {
            stack,
            batch: Vec::new(),
            current_pos: 0,
            matched_count: 0,
            root,
            batch_size,
            total_nodes,
            sent: Ghost(0),
        };
        assert(r.stack_seq() =~= seq![(root.0, Seq::<Seq<char>>::empty())]);
        r
    }

    /// The next node to visit, taken from the top of the stack; `None` once
    /// the walk is over.
    pub fn next_node(&mut self) -> (r: Option<PendingNode>)
        ensures
            old(self).stack@.len() == 0 ==> r is None && final(self).stack_seq() == old(self).stack_seq(),
            old(self).stack@.len() > 0 ==> (r matches Some(p) && pending_view(p) == old(self).stack_seq().last()
                && final(self).stack_seq() == old(self).stack_seq().drop_last()),
            final(self).batch == old(self).batch,
            final(self).current_pos == old(self).current_pos,
            final(self).matched_count == old(self).matched_count,
            final(self).root == old(self).root,
            final(self).batch_size == old(self).batch_size,
            final(self).total_nodes == old(self).total_nodes,
            final(self).sent == old(self).sent,
    {
        let ghost before = self.stack@;
        let r = self.stack.pop();
        proof {
            if before.len() > 0 {
                assert(self.stack@ =~= before.drop_last());
                assert(stack_view(self.stack@) =~= stack_view(before).drop_last());
            }
        }
        r
    }

    /// Records the visit of a node found in the cache: counts and, where
    /// `matched`, keeps it, unless it is the root; queues its children with
    /// its name added to the path; hands out the kept matches once they fill
    /// a batch; and says whether every node has been seen.
    pub fn visit(&mut self, index: SlabIndex, path: &Vec<String>, name: &str, children: &Vec<SlabIndex>, matched: bool) -> (r: VisitOutcome)
        requires
            old(self).current_pos < usize::MAX,
            old(self).matched_count < usize::MAX,
            old(self).total_nodes >= 1,
        ensures
            visit_effect(*old(self), *final(self), r, index, strings_view(path@), name@, children@, matched),
    {
        let ghost is_root = index == old(self).root;
        let ghost kept = if !is_root && matched { old(self).batch@.push(index) } else { old(self).batch@ };
        if index.0 != self.root.0 {
            if matched {
                self.batch.push(index);
                self.matched_count = self.matched_count + 1;
            }
            self.current_pos = self.current_pos + 1;
        }
        proof {
            assert(index == old(self).root <==> index.0 == old(self).root.0);
        }
        let ghost start = self.stack_seq();
        let mut child_path: Vec<String> = path.clone();
        proof {
            assert(child_path@ == path@);
        }
        child_path.push(name.to_owned());
        let ghost cp = strings_view(child_path@);
        proof {
            assert(cp =~= strings_view(path@).push(name@));
        }
        proof {
            assert(self.batch@ == kept);
        }
        let ghost c0 = self.current_pos;
        let ghost m0 = self.matched_count;
        let mut k = children.len();
        while k > 0
            invariant
                k <= children@.len(),
                cp == strings_view(child_path@),
                self.stack_seq() == start + children_entries(children@, cp).take(children@.len() - k),
                self.batch@ == kept,
                self.current_pos == c0,
                self.matched_count == m0,
                self.root == old(self).root,
                self.batch_size == old(self).batch_size,
                self.total_nodes == old(self).total_nodes,
                self.sent == old(self).sent,
                old(self).total_nodes >= 1,
            decreases k,
        {
            k = k - 1;
            let ghost before = self.stack@;
            let path_copy = child_path.clone();
            proof {
                assert forall|i: int| 0 <= i < path_copy@.len() implies path_copy@[i] == child_path@[i] by {
                    assert(cloned::<String>(child_path[i], path_copy[i]));
                }
                assert(path_copy@ =~= child_path@);
            }
            self.stack.push(PendingNode { index: children[k], path: path_copy });
            proof {
                let j = children@.len() - k - 1;
                let ce = children_entries(children@, cp);
                assert(stack_view(self.stack@) =~= stack_view(before).push(ce[j]));
                assert(ce.take(j + 1) =~= ce.take(j).push(ce[j]));
            }
        }
        proof {
            assert(children_entries(children@, cp).take(children@.len() as int) =~= children_entries(children@, cp));
        }
        let send = if self.batch.len() >= self.batch_size {
            let mut full: Vec<SlabIndex> = Vec::new();
            std::mem::swap(&mut full, &mut self.batch);
            self.sent = Ghost(self.sent@ + full@.len());
            assert(full@ + self.batch@ =~= kept);
            Some(full)
        } else {
            assert(Seq::<SlabIndex>::empty() + self.batch@ =~= kept);
            None
        };
        let finished = self.current_pos >= self.total_nodes - 1 && self.stack.len() == 0;
        VisitOutcome { send, finished }
    }

    /// The visit of a node taken from the stack, given what the cache holds
    /// for it (its name and children): a node no longer there is skipped,
    /// changing nothing; otherwise it is visited, matching the query unless
    /// it is the root.
    pub fn visit_found(
        &mut self,
        pending: &PendingNode,
        found: Option<(String, Vec<SlabIndex>)>,
        expr: &NameExpr,
        path_matchers: Option<&[SegmentMatcher]>,
        case_insensitive: bool,
    ) -> (r: Option<VisitOutcome>)
        requires
            path_matchers matches Some(m) ==> matchers_wf(m@),
            old(self).current_pos < usize::MAX,
            old(self).matched_count < usize::MAX,
            old(self).total_nodes >= 1,
        ensures
            found is None ==> r is None && final(self).stack == old(self).stack && final(self).batch == old(self).batch
                && final(self).current_pos == old(self).current_pos && final(self).matched_count == old(self).matched_count
                && final(self).sent == old(self).sent && final(self).root == old(self).root
                && final(self).batch_size == old(self).batch_size && final(self).total_nodes == old(self).total_nodes,
            found matches Some(f) ==> (r matches Some(o) && visit_effect(
                *old(self),
                *final(self),
                o,
                pending.index,
                strings_view(pending.path@),
                f.0@,
                f.1@,
                pending.index != old(self).root && spec_node_matches(
                    *expr,
                    f.0@,
                    strings_view(pending.path@),
                    matchers_opt_view(path_matchers),
                    case_insensitive,
                ),
            )),
    {
        match found {
            None => None,
            Some((name, children)) => {
                let is_root = pending.index.0 == self.root.0;
                proof {
                    assert(is_root <==> pending.index == old(self).root);
                }
                let matched = if is_root {
                    false
                } else {
                    match_node_with_path(expr, name.as_str(), pending.path.as_slice(), path_matchers, case_insensitive)
                };
                Some(self.visit(pending.index, &pending.path, name.as_str(), &children, matched))
            },
        }
    }

    /// Takes out the matches not yet sent.
    pub fn take_batch(&mut self) -> (r: Vec<SlabIndex>)
        ensures
            r == old(self).batch,
            final(self).batch@.len() == 0,
            final(self).stack == old(self).stack,
            final(self).current_pos == old(self).current_pos,
            final(self).matched_count == old(self).matched_count,
            final(self).root == old(self).root,
            final(self).batch_size == old(self).batch_size,
            final(self).total_nodes == old(self).total_nodes,
            final(self).sent@ == old(self).sent@ + r@.len(),
            old(self).counts_agree() ==> final(self).counts_agree(),
    {
        let mut rest: Vec<SlabIndex> = Vec::new();
        std::mem::swap(&mut rest, &mut self.batch);
        self.sent = Ghost(self.sent@ + rest@.len());
        rest
    }

    /// The messages that end the walk: `Cancelled` alone when the search was
    /// called off (matches still held are not sent); otherwise the matches
    /// still held, if any, as a last batch, then `Done`.
    pub fn finish(&mut self, cancelled: bool) -> (r: Vec<PrefetchMessage>)
        ensures
            cancelled ==> r@.len() == 1 && r@[0] is Cancelled && final(self).batch == old(self).batch
                && final(self).sent == old(self).sent,
            !cancelled && old(self).batch@.len() > 0 ==> r@.len() == 2
                && (r@[0] matches PrefetchMessage::Batch(v) && v@ == old(self).batch@) && r@[1] is Done,
            !cancelled && old(self).batch@.len() == 0 ==> r@.len() == 1 && r@[0] is Done,
            !cancelled ==> final(self).batch@.len() == 0 && final(self).sent@ == old(self).sent@ + old(self).batch@.len(),
            old(self).counts_agree() ==> final(self).counts_agree(),
            final(self).stack == old(self).stack,
            final(self).current_pos == old(self).current_pos,
            final(self).matched_count == old(self).matched_count,
            final(self).root == old(self).root,
            final(self).batch_size == old(self).batch_size,
            final(self).total_nodes == old(self).total_nodes,
    {
        let mut out: Vec<PrefetchMessage> = Vec::new();
        if cancelled {
            out.push(PrefetchMessage::Cancelled);
            return out;
        }
        let rest = self.take_batch();
        if rest.len() > 0 {
            out.push(PrefetchMessage::Batch(rest));
        }
        out.push(PrefetchMessage::Done);
        out
    }
}

/// The indices on a stack, the one visited next first.
pub open spec fn walk_order(stack: Seq<(usize, Seq<Seq<char>>)>) -> Seq<usize> {
    Seq::new(stack.len(), |i: int| stack[stack.len() - 1 - i].0)
}

/// The indices of some children, in order.
pub open spec fn child_indices(children: Seq<SlabIndex>) -> Seq<usize> {
    Seq::new(children.len(), |i: int| children[i].0)
}

/// The depth-first preorder of the trees under `nodes`, in order, where
/// `tree` gives the children of each node the cache holds (a node it does
/// not hold is left out with everything under it); `None` when `fuel`
/// levels do not suffice.
pub open spec fn preorder(tree: Map<usize, Seq<usize>>, nodes: Seq<usize>, fuel: nat) -> Option<Seq<usize>>
    decreases fuel, nodes.len(),
{
    if nodes.len() == 0 {
        Some(Seq::empty())
    } else if fuel == 0 {
        None
    } else {
        let h = nodes[0];
        let first = if tree.contains_key(h) {
            match preorder(tree, tree[h], (fuel - 1) as nat) {
                Some(x) => Some(seq![h] + x),
                None => None,
            }
        } else {
            Some(Seq::<usize>::empty())
        };
        match first {
            Some(x) => match preorder(tree, nodes.drop_first(), fuel) {
                Some(y) => Some(x + y),
                None => None,
            },
            None => None,
        }
    }
}

proof fn lemma_preorder_more_fuel(tree: Map<usize, Seq<usize>>, nodes: Seq<usize>, f: nat, g: nat)
    requires
        preorder(tree, nodes, f) is Some,
        f <= g,
    ensures
        preorder(tree, nodes, g) == preorder(tree, nodes, f),
    decreases f, nodes.len(),
{
    if nodes.len() > 0 {
        let h = nodes[0];
        if tree.contains_key(h) {
            lemma_preorder_more_fuel(tree, tree[h], (f - 1) as nat, (g - 1) as nat);
        }
        lemma_preorder_more_fuel(tree, nodes.drop_first(), f, g);
    }
}

proof fn lemma_preorder_concat(tree: Map<usize, Seq<usize>>, a: Seq<usize>, b: Seq<usize>, f: nat)
    requires
        preorder(tree, a, f) is Some,
        preorder(tree, b, f) is Some,
    ensures
        preorder(tree, a + b, f) == Some(preorder(tree, a, f).unwrap() + preorder(tree, b, f).unwrap()),
    decreases a.len(),
{
    if a.len() == 0 {
        assert(a + b =~= b);
        assert(Seq::<usize>::empty() + preorder(tree, b, f).unwrap() =~= preorder(tree, b, f).unwrap());
    } else {
        assert((a + b).drop_first() =~= a.drop_first() + b);
        assert((a + b)[0] == a[0]);
        lemma_preorder_concat(tree, a.drop_first(), b, f);
        let h = a[0];
        let first = if tree.contains_key(h) {
            seq![h] + preorder(tree, tree[h], (f - 1) as nat).unwrap()
        } else {
            Seq::<usize>::empty()
        };
        let ra = preorder(tree, a.drop_first(), f).unwrap();
        let rb = preorder(tree, b, f).unwrap();
        assert(first + (ra + rb) =~= (first + ra) + rb);
    }
}

proof fn lemma_walk_order_steps(before: Seq<(usize, Seq<Seq<char>>)>, children: Seq<SlabIndex>, cp: Seq<Seq<char>>)
    requires
        before.len() > 0,
    ensures
        walk_order(before) == seq![before.last().0] + walk_order(before.drop_last()),
        walk_order(before.drop_last() + children_entries(children, cp)) == child_indices(children) + walk_order(before.drop_last()),
{
    assert(walk_order(before) =~= seq![before.last().0] + walk_order(before.drop_last()));
    let s = before.drop_last();
    assert(walk_order(s + children_entries(children, cp)) =~= child_indices(children) + walk_order(s));
}

/// The walk goes in depth-first preorder: whatever the cache holds, if the
/// nodes still to come, from the stack, are `order` in preorder, then
/// taking the top node and visiting it (a held node queues its children)
/// visits the first of `order` and leaves exactly the rest of it to come;
/// a node the cache no longer holds is skipped with nothing under it.
pub proof fn law_walk_follows_preorder(
    tree: Map<usize, Seq<usize>>,
    before: Seq<(usize, Seq<Seq<char>>)>,
    children: Seq<SlabIndex>,
    cp: Seq<Seq<char>>,
    fuel: nat,
    order: Seq<usize>,
)
    requires
        before.len() > 0,
        preorder(tree, walk_order(before), fuel) == Some(order),
        tree.contains_key(before.last().0) ==> child_indices(children) == tree[before.last().0],
    ensures
        tree.contains_key(before.last().0) ==> order.len() > 0 && order[0] == before.last().0
            && preorder(tree, walk_order(before.drop_last() + children_entries(children, cp)), fuel)
                == Some(order.drop_first()),
        !tree.contains_key(before.last().0) ==> preorder(tree, walk_order(before.drop_last()), fuel) == Some(order),
{
    lemma_walk_order_steps(before, children, cp);
    let h = before.last().0;
    let w = walk_order(before);
    let rest = walk_order(before.drop_last());
    assert(w[0] == h);
    assert(w.drop_first() =~= rest);
    if tree.contains_key(h) {
        let x = preorder(tree, tree[h], (fuel - 1) as nat).unwrap();
        let y = preorder(tree, rest, fuel).unwrap();
        assert(order == seq![h] + x + y);
        lemma_preorder_more_fuel(tree, tree[h], (fuel - 1) as nat, fuel);
        lemma_preorder_concat(tree, tree[h], rest, fuel);
        assert(order.drop_first() =~= x + y);
    } else {
        let y = preorder(tree, rest, fuel).unwrap();
        assert(order == Seq::<usize>::empty() + y);
        assert(Seq::<usize>::empty() + y =~= y);
    }
}

} // verus!
