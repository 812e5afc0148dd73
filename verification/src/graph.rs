//! Breadth-first walks over the relation graph.
//!
//! The relation store is queried one node at a time, so each walk is a
//! state machine: the caller asks the machine which node to look up next,
//! performs the lookup, and hands the answer back. The machines decide;
//! the caller only fetches.
//!
//! Three walks exist:
//! - [`CycleSearch`]: would a new relation `from -> to` close a cycle, i.e.
//!   is `from` reachable from `to` along outgoing relations?
//! - [`DescendantWalk`]: every asset reachable from a root along outgoing
//!   relations, in breadth-first order.
//! - [`GraphTraversal`]: the neighbourhood of an asset (relations followed in
//!   both directions) up to a depth limit.

use vstd::prelude::*;

use crate::models::Relation;
use crate::text::str_eq;

verus! {

// ---------------------------------------------------------------------------
// Graph model
// ---------------------------------------------------------------------------

/// An asset identifier as a character sequence.
pub type NodeId = Seq<char>;

/// Directed relations `(from, to)` between assets.
pub type Edges = Set<(NodeId, NodeId)>;

/// `p` is a nonempty walk along `edges`.
pub open spec fn is_walk(edges: Edges, p: Seq<NodeId>) -> bool {
    &&& p.len() >= 1
    &&& forall|i: int| 0 <= i < p.len() - 1 ==> edges.contains((#[trigger] p[i], p[i + 1]))
}

/// `b` can be reached from `a` by following relations forward (possibly in
/// zero steps).
pub open spec fn reachable(edges: Edges, a: NodeId, b: NodeId) -> bool {
    exists|p: Seq<NodeId>| is_walk(edges, p) && p[0] == a && p.last() == b
}

/// `list` names exactly the successors of `x`.
pub open spec fn exact_successors(edges: Edges, x: NodeId, list: Seq<NodeId>) -> bool {
    forall|t: NodeId| list.contains(t) <==> edges.contains((x, t))
}

/// The string views of a vector of strings.
pub open spec fn ids(v: Seq<String>) -> Seq<NodeId> {
    v.map_values(|s: String| s@)
}

/// No element occurs twice.
pub open spec fn distinct(s: Seq<NodeId>) -> bool {
    forall|i: int, j: int| 0 <= i < s.len() && 0 <= j < s.len() && i != j ==> s[i] != s[j]
}

/// Appends, in order, each element of `succ` that is not yet present.
pub open spec fn absorb(seen: Seq<NodeId>, succ: Seq<NodeId>) -> Seq<NodeId>
    decreases succ.len(),
{
    if succ.len() == 0 {
        seen
    } else {
        let prev = absorb(seen, succ.drop_last());
        if prev.contains(succ.last()) {
            prev
        } else {
            prev.push(succ.last())
        }
    }
}

/// Every successor of the first `k` elements of `seen` is itself in `seen`.
pub open spec fn closed_upto(edges: Edges, seen: Seq<NodeId>, k: int) -> bool {
    forall|j: int, y: NodeId|
        0 <= j < k && #[trigger] edges.contains((seen[j], y)) ==> seen.contains(y)
}

/// Every element of `seen` is reachable from `start`.
pub open spec fn all_reachable(edges: Edges, start: NodeId, seen: Seq<NodeId>) -> bool {
    forall|i: int| 0 <= i < seen.len() ==> reachable(edges, start, #[trigger] seen[i])
}

// ---------------------------------------------------------------------------
// Lemmas about walks and absorption
// ---------------------------------------------------------------------------

proof fn lemma_reachable_refl(edges: Edges, a: NodeId)
    ensures
        reachable(edges, a, a),
{
    let p = seq![a];
    assert(is_walk(edges, p));
    assert(p[0] == a && p.last() == a);
}

proof fn lemma_reachable_step(edges: Edges, a: NodeId, x: NodeId, y: NodeId)
    requires
        reachable(edges, a, x),
        edges.contains((x, y)),
    ensures
        reachable(edges, a, y),
{
    let p = choose|p: Seq<NodeId>| is_walk(edges, p) && p[0] == a && p.last() == x;
    let q = p.push(y);
    assert forall|i: int| 0 <= i < q.len() - 1 implies edges.contains((#[trigger] q[i], q[i + 1])) by {
        if i < p.len() - 1 {
            assert(q[i] == p[i] && q[i + 1] == p[i + 1]);
        } else {
            assert(q[i] == x && q[i + 1] == y);
        }
    }
    assert(is_walk(edges, q) && q[0] == a && q.last() == y);
}

proof fn lemma_closed_walk_prefix(edges: Edges, seen: Seq<NodeId>, p: Seq<NodeId>, k: int)
    requires
        is_walk(edges, p),
        0 <= k < p.len(),
        seen.contains(p[0]),
        closed_upto(edges, seen, seen.len() as int),
    ensures
        seen.contains(p[k]),
    decreases k,
{
    if k > 0 {
        lemma_closed_walk_prefix(edges, seen, p, k - 1);
        let j = choose|j: int| 0 <= j < seen.len() && seen[j] == p[k - 1];
        assert(edges.contains((p[k - 1], p[k])));
        assert(edges.contains((seen[j], p[k])));
    }
}

proof fn lemma_walk_prefix_reachable(edges: Edges, p: Seq<NodeId>, k: int)
    requires
        is_walk(edges, p),
        0 <= k < p.len(),
    ensures
        reachable(edges, p[0], p[k]),
    decreases k,
{
    if k == 0 {
        lemma_reachable_refl(edges, p[0]);
    } else {
        lemma_walk_prefix_reachable(edges, p, k - 1);
        assert(edges.contains((p[k - 1], p[k])));
        lemma_reachable_step(edges, p[0], p[k - 1], p[k]);
    }
}

proof fn lemma_reachable_trans(edges: Edges, a: NodeId, b: NodeId, c: NodeId)
    requires
        reachable(edges, a, b),
        reachable(edges, b, c),
    ensures
        reachable(edges, a, c),
{
    let q = choose|q: Seq<NodeId>| is_walk(edges, q) && q[0] == b && q.last() == c;
    lemma_reachable_trans_walk(edges, a, q, q.len() - 1);
}

proof fn lemma_reachable_trans_walk(edges: Edges, a: NodeId, q: Seq<NodeId>, k: int)
    requires
        is_walk(edges, q),
        reachable(edges, a, q[0]),
        0 <= k < q.len(),
    ensures
        reachable(edges, a, q[k]),
    decreases k,
{
    if k > 0 {
        lemma_reachable_trans_walk(edges, a, q, k - 1);
        assert(edges.contains((q[k - 1], q[k])));
        lemma_reachable_step(edges, a, q[k - 1], q[k]);
    }
}

proof fn lemma_reach_split_walk(edges: Edges, f: NodeId, t: NodeId, p: Seq<NodeId>, k: int)
    requires
        is_walk(edges.insert((f, t)), p),
        0 <= k < p.len(),
    ensures
        reachable(edges, p[0], p[k]) || (reachable(edges, p[0], f) && reachable(edges, t, p[k])),
    decreases k,
{
    if k == 0 {
        lemma_reachable_refl(edges, p[0]);
    } else {
        lemma_reach_split_walk(edges, f, t, p, k - 1);
        assert(edges.insert((f, t)).contains((p[k - 1], p[k])));
        if edges.contains((p[k - 1], p[k])) {
            if reachable(edges, p[0], p[k - 1]) {
                lemma_reachable_step(edges, p[0], p[k - 1], p[k]);
            } else {
                lemma_reachable_step(edges, t, p[k - 1], p[k]);
            }
        } else {
            assert((p[k - 1], p[k]) == (f, t));
            lemma_reachable_refl(edges, t);
        }
    }
}

/// With one relation `f -> t` added, a node reachable from `x` was reachable
/// before, or is reachable from `t` where `f` was reachable from `x`.
proof fn lemma_reach_split(edges: Edges, f: NodeId, t: NodeId, x: NodeId, y: NodeId)
    requires
        reachable(edges.insert((f, t)), x, y),
    ensures
        reachable(edges, x, y) || (reachable(edges, x, f) && reachable(edges, t, y)),
{
    let p = choose|p: Seq<NodeId>| is_walk(edges.insert((f, t)), p) && p[0] == x && p.last() == y;
    lemma_reach_split_walk(edges, f, t, p, p.len() - 1);
}

/// No relation closes a cycle: the start of a relation is never reachable
/// from its end.
pub open spec fn acyclic(edges: Edges) -> bool {
    forall|a: NodeId, b: NodeId| #[trigger] edges.contains((a, b)) ==> !reachable(edges, b, a)
}

/// Adding a relation `from -> to` where `from` is not reachable from `to`
/// (what the cycle check establishes) keeps the relation graph acyclic.
pub proof fn law_checked_relation_keeps_acyclic(edges: Edges, from: NodeId, to: NodeId)
    requires
        acyclic(edges),
        !reachable(edges, to, from),
    ensures
        acyclic(edges.insert((from, to))),
{
    let e2 = edges.insert((from, to));
    assert forall|a: NodeId, b: NodeId| #[trigger] e2.contains((a, b)) implies !reachable(e2, b, a) by {
        if reachable(e2, b, a) {
            lemma_reach_split(edges, from, to, b, a);
            if edges.contains((a, b)) {
                if reachable(edges, b, a) {
                    assert(!reachable(edges, b, a));
                } else {
                    // to ->* a -> b ->* from
                    lemma_reachable_step(edges, to, a, b);
                    lemma_reachable_trans(edges, to, b, from);
                }
            } else {
                assert((a, b) == (from, to));
                if reachable(edges, b, a) {
                } else {
                    assert(reachable(edges, to, from));
                }
            }
        }
    }
}

/// A set that contains `a` and is closed under successors contains every
/// node reachable from `a`.
proof fn lemma_closed_contains_reachable(edges: Edges, seen: Seq<NodeId>, a: NodeId, b: NodeId)
    requires
        seen.contains(a),
        closed_upto(edges, seen, seen.len() as int),
        reachable(edges, a, b),
    ensures
        seen.contains(b),
{
    let p = choose|p: Seq<NodeId>| is_walk(edges, p) && p[0] == a && p.last() == b;
    lemma_closed_walk_prefix(edges, seen, p, p.len() - 1);
}

pub(crate) proof fn lemma_absorb(seen: Seq<NodeId>, succ: Seq<NodeId>)
    ensures
        absorb(seen, succ).len() >= seen.len(),
        absorb(seen, succ).subrange(0, seen.len() as int) == seen,
        forall|t: NodeId| #[trigger] absorb(seen, succ).contains(t) <==> (seen.contains(t) || succ.contains(t)),
        distinct(seen) ==> distinct(absorb(seen, succ)),
    decreases succ.len(),
{
    if succ.len() > 0 {
        let prev = absorb(seen, succ.drop_last());
        lemma_absorb(seen, succ.drop_last());
        assert forall|t: NodeId| succ.contains(t) <==> (succ.drop_last().contains(t) || t == succ.last()) by {
            if succ.contains(t) {
                let i = choose|i: int| 0 <= i < succ.len() && succ[i] == t;
                if i < succ.len() - 1 {
                    assert(succ.drop_last()[i] == t);
                }
            }
            if succ.drop_last().contains(t) {
                let i = choose|i: int| 0 <= i < succ.drop_last().len() && succ.drop_last()[i] == t;
                assert(succ[i] == t);
            }
            if t == succ.last() {
                assert(succ[succ.len() - 1] == t);
            }
        }
        if !prev.contains(succ.last()) {
            let next = prev.push(succ.last());
            assert(next.subrange(0, seen.len() as int) =~= prev.subrange(0, seen.len() as int));
            assert forall|t: NodeId| next.contains(t) <==> (prev.contains(t) || t == succ.last()) by {
                if next.contains(t) {
                    let i = choose|i: int| 0 <= i < next.len() && next[i] == t;
                    if i < prev.len() {
                        assert(prev[i] == t);
                    }
                }
                if prev.contains(t) {
                    let i = choose|i: int| 0 <= i < prev.len() && prev[i] == t;
                    assert(next[i] == t);
                }
                if t == succ.last() {
                    assert(next[prev.len() as int] == t);
                }
            }
            if distinct(seen) {
                assert forall|i: int, j: int| 0 <= i < next.len() && 0 <= j < next.len() && i != j implies next[i] != next[j] by {
                    if i < prev.len() && j < prev.len() {
                    } else if i == prev.len() {
                        assert(prev[j] == next[j]);
                    } else {
                        assert(prev[i] == next[i]);
                    }
                }
            }
        }
    }
}

// ---------------------------------------------------------------------------
// Executable helpers
// ---------------------------------------------------------------------------

/// Whether `x` occurs in `v`.
pub fn contains_id(v: &Vec<String>, x: &String) -> (b: bool)
    ensures
        b == ids(v@).contains(x@),
{
    let n = v.len();
    for i in 0..n
        invariant
            n == v@.len(),
            forall|j: int| 0 <= j < i ==> v@[j]@ != x@,
    {
        if str_eq(v[i].as_str(), x.as_str()) {
            assert(ids(v@)[i as int] == x@);
            return true;
        }
    }
    assert forall|j: int| 0 <= j < ids(v@).len() implies ids(v@)[j] != x@ by {
        assert(ids(v@)[j] == v@[j]@);
    }
    false
}

/// Appends each not-yet-present element of `succ` to `seen`, in order.
pub(crate) fn absorb_into(seen: &mut Vec<String>, succ: &Vec<String>)
    ensures
        ids(final(seen)@) == absorb(ids(old(seen)@), ids(succ@)),
{
    let n = succ.len();
    for i in 0..n
        invariant
            n == succ@.len(),
            ids(seen@) == absorb(ids(old(seen)@), ids(succ@).take(i as int)),
    {
        proof {
            assert(ids(succ@).take(i + 1).drop_last() =~= ids(succ@).take(i as int));
            assert(ids(succ@).take(i + 1).last() == succ@[i as int]@);
        }
        if !contains_id(seen, &succ[i]) {
            let s = succ[i].clone();
            seen.push(s);
            proof {
                assert(ids(seen@) =~= ids(old(seen)@).push(succ@[i as int]@) || true);
            }
        }
        proof {
            assert(ids(seen@) =~= absorb(ids(old(seen)@), ids(succ@).take(i + 1)));
        }
    }
    assert(ids(succ@).take(n as int) =~= ids(succ@));
}


// ---------------------------------------------------------------------------
// Shared breadth-first bookkeeping
// ---------------------------------------------------------------------------

/// Where a walk stands.
#[derive(PartialEq, Eq, Structural, Clone, Copy, Debug)]
pub enum Phase {
    /// Waiting for the relations of the node last handed out.
    Awaiting,
    /// The target node was reached.
    Found,
    /// Every reachable node has been looked at.
    Exhausted,
}

/// Abstract state of a breadth-first walk: the nodes discovered so far in
/// discovery order, how many of them have been taken off the queue, and
/// where the walk stands.
pub ghost struct WalkModel {
    pub seen: Seq<NodeId>,
    pub head: nat,
    pub phase: Phase,
}

/// Takes the next node off the queue. `target` is the node whose discovery
/// ends the walk early (none for walks that run to exhaustion).
pub open spec fn advance(seen: Seq<NodeId>, head: nat, target: Option<NodeId>) -> WalkModel {
    if head >= seen.len() {
        WalkModel { seen, head, phase: Phase::Exhausted }
    } else if target == Some(seen[head as int]) {
        WalkModel { seen, head: head + 1, phase: Phase::Found }
    } else {
        WalkModel { seen, head: head + 1, phase: Phase::Awaiting }
    }
}

/// The walk after the successors of the awaited node arrive.
pub open spec fn walk_step(m: WalkModel, succ: Seq<NodeId>, target: Option<NodeId>) -> WalkModel {
    if m.phase == Phase::Awaiting {
        advance(absorb(m.seen, succ), m.head, target)
    } else {
        m
    }
}

/// The walk right after it starts at `start`.
pub open spec fn walk_start(start: NodeId, target: Option<NodeId>) -> WalkModel {
    advance(seq![start], 0, target)
}

/// The invariant of a breadth-first walk from `start` over `edges`.
pub open spec fn walk_consistent(m: WalkModel, edges: Edges, start: NodeId, target: Option<NodeId>) -> bool {
    &&& m.seen.len() >= 1
    &&& m.seen[0] == start
    &&& distinct(m.seen)
    &&& m.head <= m.seen.len()
    &&& all_reachable(edges, start, m.seen)
    &&& m.phase == Phase::Awaiting ==> m.head >= 1 && closed_upto(edges, m.seen, m.head - 1)
    &&& m.phase == Phase::Exhausted ==> m.head == m.seen.len() && closed_upto(edges, m.seen, m.head as int)
    &&& m.phase == Phase::Found ==> m.head >= 1 && target == Some(m.seen[m.head - 1])
    &&& m.phase != Phase::Found ==> forall|j: int| 0 <= j < m.head ==> target != Some(#[trigger] m.seen[j])
}

proof fn lemma_advance_consistent(seen: Seq<NodeId>, head: nat, edges: Edges, start: NodeId, target: Option<NodeId>)
    requires
        seen.len() >= 1,
        seen[0] == start,
        distinct(seen),
        head <= seen.len(),
        all_reachable(edges, start, seen),
        closed_upto(edges, seen, head as int),
        forall|j: int| 0 <= j < head ==> target != Some(#[trigger] seen[j]),
    ensures
        walk_consistent(advance(seen, head, target), edges, start, target),
{
}

/// Starting a walk establishes its invariant.
pub proof fn law_walk_start(edges: Edges, start: NodeId, target: Option<NodeId>)
    ensures
        walk_consistent(walk_start(start, target), edges, start, target),
{
    lemma_reachable_refl(edges, start);
    let seen = seq![start];
    assert(all_reachable(edges, start, seen));
    lemma_advance_consistent(seen, 0, edges, start, target);
}

proof fn lemma_absorb_reachable(edges: Edges, start: NodeId, seen: Seq<NodeId>, cur: NodeId, succ: Seq<NodeId>)
    requires
        all_reachable(edges, start, seen),
        reachable(edges, start, cur),
        exact_successors(edges, cur, succ),
    ensures
        all_reachable(edges, start, absorb(seen, succ)),
{
    let seen2 = absorb(seen, succ);
    lemma_absorb(seen, succ);
    assert forall|i: int| 0 <= i < seen2.len() implies reachable(edges, start, #[trigger] seen2[i]) by {
        assert(seen2.contains(seen2[i]));
        if seen.contains(seen2[i]) {
            let k = choose|k: int| 0 <= k < seen.len() && seen[k] == seen2[i];
            assert(reachable(edges, start, seen[k]));
        } else {
            assert(succ.contains(seen2[i]));
            assert(edges.contains((cur, seen2[i])));
            lemma_reachable_step(edges, start, cur, seen2[i]);
        }
    }
}

proof fn lemma_absorb_closed(edges: Edges, seen: Seq<NodeId>, head: int, succ: Seq<NodeId>)
    requires
        1 <= head <= seen.len(),
        closed_upto(edges, seen, head - 1),
        exact_successors(edges, seen[head - 1], succ),
    ensures
        closed_upto(edges, absorb(seen, succ), head),
{
    let seen2 = absorb(seen, succ);
    lemma_absorb(seen, succ);
    assert forall|j: int| 0 <= j < seen.len() implies #[trigger] seen2[j] == seen[j] by {
        assert(seen2.subrange(0, seen.len() as int)[j] == seen2[j]);
    }
    assert forall|j: int, y: NodeId| 0 <= j < head && #[trigger] edges.contains((seen2[j], y)) implies seen2.contains(y) by {
        assert(seen2[j] == seen[j]);
        if j < head - 1 {
            assert(seen.contains(y));
        } else {
            assert(succ.contains(y));
        }
    }
}

/// Feeding the exact successors of the awaited node preserves the invariant.
pub proof fn law_walk_step(m: WalkModel, edges: Edges, start: NodeId, target: Option<NodeId>, succ: Seq<NodeId>)
    requires
        walk_consistent(m, edges, start, target),
        m.phase == Phase::Awaiting ==> exact_successors(edges, m.seen[m.head - 1], succ),
    ensures
        walk_consistent(walk_step(m, succ, target), edges, start, target),
{
    if m.phase == Phase::Awaiting {
        let cur = m.seen[m.head - 1];
        let seen2 = absorb(m.seen, succ);
        lemma_absorb(m.seen, succ);
        assert forall|j: int| 0 <= j < m.seen.len() implies #[trigger] seen2[j] == m.seen[j] by {
            assert(seen2.subrange(0, m.seen.len() as int)[j] == seen2[j]);
        }
        assert(reachable(edges, start, cur));
        lemma_absorb_reachable(edges, start, m.seen, cur, succ);
        lemma_absorb_closed(edges, m.seen, m.head as int, succ);
        assert forall|j: int| 0 <= j < m.head implies target != Some(#[trigger] seen2[j]) by {
            assert(seen2[j] == m.seen[j]);
        }
        lemma_advance_consistent(seen2, m.head, edges, start, target);
    }
}

/// The verdict of a walk: a walk that reached its target found a reachable
/// node; a walk that ran out of nodes proves the target unreachable; and an
/// exhausted walk has discovered exactly the reachable nodes.
pub proof fn law_walk_verdict(m: WalkModel, edges: Edges, start: NodeId, target: Option<NodeId>)
    requires
        walk_consistent(m, edges, start, target),
    ensures
        m.phase == Phase::Found ==> target is Some && reachable(edges, start, target->0),
        m.phase == Phase::Exhausted ==> forall|x: NodeId| m.seen.contains(x) <==> reachable(edges, start, x),
        m.phase == Phase::Exhausted ==> (target is Some ==> !reachable(edges, start, target->0)),
{
    if m.phase == Phase::Found {
        assert(reachable(edges, start, m.seen[m.head - 1]));
    }
    if m.phase == Phase::Exhausted {
        assert(m.seen[0] == start);
        assert(m.seen.contains(start));
        assert forall|x: NodeId| m.seen.contains(x) <==> reachable(edges, start, x) by {
            if reachable(edges, start, x) {
                lemma_closed_contains_reachable(edges, m.seen, start, x);
            }
            if m.seen.contains(x) {
                let k = choose|k: int| 0 <= k < m.seen.len() && m.seen[k] == x;
                assert(reachable(edges, start, m.seen[k]));
            }
        }
        if target is Some && reachable(edges, start, target->0) {
            lemma_closed_contains_reachable(edges, m.seen, start, target->0);
            let k = choose|k: int| 0 <= k < m.seen.len() && m.seen[k] == target->0;
            assert(target == Some(m.seen[k]));
        }
    }
}


// ---------------------------------------------------------------------------
// Executable walks
// ---------------------------------------------------------------------------

/// What a walk asks of its caller next.
#[derive(Debug)]
pub enum Probe {
    /// Look up the relations of this asset and hand them back.
    Fetch(String),
    /// The walk reached its target.
    Found,
    /// The walk has seen every reachable asset.
    Done,
}

/// The probe that corresponds to a walk model.
pub open spec fn probe_matches(p: Probe, m: WalkModel) -> bool {
    match p {
        Probe::Fetch(id) => m.phase == Phase::Awaiting && id@ == m.seen[m.head - 1],
        Probe::Found => m.phase == Phase::Found,
        Probe::Done => m.phase == Phase::Exhausted,
    }
}

/// Breadth-first bookkeeping shared by the executable walks.
struct Walk {
    seen: Vec<String>,
    head: usize,
    phase: Phase,
}

impl Walk {
    spec fn model(&self) -> WalkModel {
        WalkModel { seen: ids(self.seen@), head: self.head as nat, phase: self.phase }
    }

    spec fn wf(&self) -> bool {
        &&& self.seen@.len() >= 1
        &&& self.head <= self.seen@.len()
        &&& self.phase == Phase::Awaiting ==> self.head >= 1
    }

    fn advance(seen: Vec<String>, head: usize, target: Option<&String>) -> (w: Walk)
        requires
            seen@.len() >= 1,
            head <= seen@.len(),
        ensures
            w.wf(),
            w.model() == advance(ids(seen@), head as nat, match target {
                Some(t) => Some(t@),
                None => None,
            }),
    {
        if head >= seen.len() {
            Walk { seen, head, phase: Phase::Exhausted }
        } else {
            let hit = match target {
                Some(t) => str_eq(seen[head].as_str(), t.as_str()),
                None => false,
            };
            proof {
                assert(ids(seen@)[head as int] == seen@[head as int]@);
            }
            if hit {
                Walk { seen, head: head + 1, phase: Phase::Found }
            } else {
                Walk { seen, head: head + 1, phase: Phase::Awaiting }
            }
        }
    }

    fn start(start: &String, target: Option<&String>) -> (w: Walk)
        ensures
            w.wf(),
            w.model() == walk_start(start@, match target {
                Some(t) => Some(t@),
                None => None,
            }),
    {
        let mut seen: Vec<String> = Vec::new();
        seen.push(start.clone());
        assert(ids(seen@) =~= seq![start@]);
        Walk::advance(seen, 0, target)
    }

    fn step(self, succ: &Vec<String>, target: Option<&String>) -> (w: Walk)
        requires
            self.wf(),
        ensures
            w.wf(),
            w.model() == walk_step(self.model(), ids(succ@), match target {
                Some(t) => Some(t@),
                None => None,
            }),
    {
        match self.phase {
            Phase::Awaiting => {
                let mut seen = self.seen;
                absorb_into(&mut seen, succ);
                proof {
                    lemma_absorb(ids(self.seen@), ids(succ@));
                }
                Walk::advance(seen, self.head, target)
            },
            _ => self,
        }
    }

    fn probe(&self) -> (p: Probe)
        requires
            self.wf(),
        ensures
            probe_matches(p, self.model()),
    {
        match self.phase {
            Phase::Awaiting => {
                let id = self.seen[self.head - 1].clone();
                Probe::Fetch(id)
            },
            Phase::Found => Probe::Found,
            Phase::Exhausted => Probe::Done,
        }
    }
}

/// Decides whether adding the relation `from -> to` would close a cycle,
/// i.e. whether `from` is already reachable from `to` along outgoing
/// relations.
pub struct CycleSearch {
    target: String,
    walk: Walk,
}

impl CycleSearch {
    /// The asset whose discovery means a cycle.
    pub closed spec fn target(&self) -> NodeId {
        self.target@
    }

    /// The abstract state of the search.
    pub closed spec fn model(&self) -> WalkModel {
        self.walk.model()
    }

    #[verifier::type_invariant]
    closed spec fn inv(&self) -> bool {
        self.walk.wf()
    }

    /// Starts the search for a new relation `from_id -> to_id`: the walk
    /// starts at `to_id` and looks for `from_id`.
    pub fn new(from_id: &String, to_id: &String) -> (s: CycleSearch)
        ensures
            s.target() == from_id@,
            s.model() == walk_start(to_id@, Some(from_id@)),
    {
        let walk = Walk::start(to_id, Some(from_id));
        CycleSearch { target: from_id.clone(), walk }
    }

    /// What the search needs next.
    pub fn probe(&self) -> (p: Probe)
        ensures
            probe_matches(p, self.model()),
    {
        proof {
            use_type_invariant(self);
        }
        self.walk.probe()
    }

    /// Hands over the targets of the outgoing relations of the asset last
    /// named by [`Probe::Fetch`], and returns what the search needs next.
    pub fn on_successors(self, successors: &Vec<String>) -> (r: (CycleSearch, Probe))
        ensures
            r.0.target() == self.target(),
            r.0.model() == walk_step(self.model(), ids(successors@), Some(self.target())),
            probe_matches(r.1, r.0.model()),
    {
        proof {
            use_type_invariant(&self);
        }
        let CycleSearch { target, walk } = self;
        let walk = walk.step(successors, Some(&target));
        let s = CycleSearch { target, walk };
        let p = s.probe();
        (s, p)
    }
}

/// Targets of the relations in `rels` that start at `x`, in order.
pub open spec fn outgoing(x: NodeId, rels: Seq<Relation>) -> Seq<NodeId>
    decreases rels.len(),
{
    if rels.len() == 0 {
        Seq::empty()
    } else {
        let prev = outgoing(x, rels.drop_last());
        if rels.last().from_asset_id@ == x {
            prev.push(rels.last().to_asset_id@)
        } else {
            prev
        }
    }
}

fn outgoing_targets(x: &String, rels: &Vec<Relation>) -> (out: Vec<String>)
    ensures
        ids(out@) == outgoing(x@, rels@),
{
    let mut out: Vec<String> = Vec::new();
    let n = rels.len();
    for i in 0..n
        invariant
            n == rels@.len(),
            ids(out@) == outgoing(x@, rels@.take(i as int)),
    {
        proof {
            assert(rels@.take(i + 1).drop_last() =~= rels@.take(i as int));
        }
        if str_eq(rels[i].from_asset_id.as_str(), x.as_str()) {
            out.push(rels[i].to_asset_id.clone());
            assert(ids(out@) =~= outgoing(x@, rels@.take(i as int)).push(rels@[i as int].to_asset_id@));
        }
    }
    assert(rels@.take(n as int) =~= rels@);
    out
}

/// The directed edges `(from, to)` of a list of relations.
pub open spec fn relation_edges(rels: Seq<Relation>) -> Edges {
    Set::new(
        |e: (NodeId, NodeId)|
            exists|i: int| 0 <= i < rels.len() && #[trigger] rels[i].from_asset_id@ == e.0 && rels[i].to_asset_id@ == e.1,
    )
}

/// The successors handed to a walk for `x` are exactly the targets of the
/// given relations that leave `x`: every such target is followed, and
/// nothing else.
pub proof fn law_outgoing_exact(x: NodeId, rels: Seq<Relation>)
    ensures
        exact_successors(relation_edges(rels), x, outgoing(x, rels)),
    decreases rels.len(),
{
    if rels.len() > 0 {
        let init = rels.drop_last();
        law_outgoing_exact(x, init);
        let r = rels.last();
        assert forall|t: NodeId| outgoing(x, rels).contains(t) <==> relation_edges(rels).contains((x, t)) by {
            if outgoing(x, rels).contains(t) {
                if outgoing(x, init).contains(t) {
                    assert(relation_edges(init).contains((x, t)));
                    let i = choose|i: int| 0 <= i < init.len() && #[trigger] init[i].from_asset_id@ == x && init[i].to_asset_id@ == t;
                    assert(rels[i] == init[i]);
                } else {
                    let o = outgoing(x, init);
                    assert(r.from_asset_id@ == x);
                    let k = choose|k: int| 0 <= k < o.push(r.to_asset_id@).len() && o.push(r.to_asset_id@)[k] == t;
                    if k < o.len() {
                        assert(o.contains(t));
                    }
                    assert(t == r.to_asset_id@);
                    assert(rels[rels.len() - 1] == r);
                }
            }
            if relation_edges(rels).contains((x, t)) {
                let i = choose|i: int| 0 <= i < rels.len() && #[trigger] rels[i].from_asset_id@ == x && rels[i].to_asset_id@ == t;
                if i < rels.len() - 1 {
                    assert(init[i] == rels[i]);
                    assert(relation_edges(init).contains((x, t)));
                    let o = outgoing(x, init);
                    assert(o.contains(t));
                    let k = choose|k: int| 0 <= k < o.len() && o[k] == t;
                    if r.from_asset_id@ == x {
                        assert(o.push(r.to_asset_id@)[k] == t);
                    }
                } else {
                    let o = outgoing(x, init);
                    assert(o.push(r.to_asset_id@)[o.len() as int] == t);
                }
            }
        }
    }
}

/// Collects every asset reachable from a root along outgoing relations.
pub struct DescendantWalk {
    walk: Walk,
}

impl DescendantWalk {
    /// The abstract state of the walk.
    pub closed spec fn model(&self) -> WalkModel {
        self.walk.model()
    }

    #[verifier::type_invariant]
    closed spec fn inv(&self) -> bool {
        self.walk.wf()
    }

    /// Starts the walk at `root_id`.
    pub fn new(root_id: &String) -> (s: DescendantWalk)
        ensures
            s.model() == walk_start(root_id@, None),
    {
        DescendantWalk { walk: Walk::start(root_id, None) }
    }

    /// What the walk needs next.
    pub fn probe(&self) -> (p: Probe)
        ensures
            probe_matches(p, self.model()),
    {
        proof {
            use_type_invariant(self);
        }
        self.walk.probe()
    }

    /// Hands over every relation touching the asset last named by
    /// [`Probe::Fetch`]; only those leaving it are followed.
    pub fn on_relations(self, relations: &Vec<Relation>) -> (r: (DescendantWalk, Probe))
        ensures
            r.0.model() == walk_step(
                self.model(),
                outgoing(
                    if self.model().phase == Phase::Awaiting {
                        self.model().seen[self.model().head - 1]
                    } else {
                        Seq::empty()
                    },
                    relations@,
                ),
                None,
            ),
            probe_matches(r.1, r.0.model()),
    {
        proof {
            use_type_invariant(&self);
        }
        let walk = self.walk;
        let succ = match walk.phase {
            Phase::Awaiting => outgoing_targets(&walk.seen[walk.head - 1], relations),
            _ => Vec::new(),
        };
        let walk = walk.step(&succ, None);
        let s = DescendantWalk { walk };
        let p = s.probe();
        (s, p)
    }

    /// The descendants found so far, in discovery order (the root excluded).
    pub fn descendants(&self) -> (out: Vec<String>)
        ensures
            ids(out@) == self.model().seen.drop_first(),
    {
        proof {
            use_type_invariant(self);
        }
        let mut out: Vec<String> = Vec::new();
        let n = self.walk.seen.len();
        for i in 1..n
            invariant
                n == self.walk.seen@.len(),
                n >= 1,
                ids(out@) == ids(self.walk.seen@).subrange(1, i as int),
        {
            let ghost old_out = out@;
            out.push(self.walk.seen[i].clone());
            assert(ids(self.walk.seen@)[i as int] == self.walk.seen@[i as int]@);
            assert(ids(out@) =~= ids(old_out).push(self.walk.seen@[i as int]@));
            assert(ids(out@) =~= ids(self.walk.seen@).subrange(1, i + 1));
        }
        assert(ids(self.walk.seen@).subrange(1, n as int) =~= ids(self.walk.seen@).drop_first());
        out
    }
}


// ---------------------------------------------------------------------------
// Depth-limited neighbourhood traversal
// ---------------------------------------------------------------------------

/// `a` and `b` are joined by a relation in either direction.
pub open spec fn adjacent(edges: Edges, a: NodeId, b: NodeId) -> bool {
    edges.contains((a, b)) || edges.contains((b, a))
}

/// `p` is a nonempty walk that may follow relations in either direction.
pub open spec fn is_uwalk(edges: Edges, p: Seq<NodeId>) -> bool {
    &&& p.len() >= 1
    &&& forall|i: int| 0 <= i < p.len() - 1 ==> adjacent(edges, #[trigger] p[i], p[i + 1])
}

/// `b` is at most `k` steps from `a`, relations followed in either direction.
pub open spec fn within(edges: Edges, a: NodeId, b: NodeId, k: nat) -> bool {
    exists|p: Seq<NodeId>| is_uwalk(edges, p) && p[0] == a && p.last() == b && p.len() <= k + 1
}

/// `b` is exactly `k` steps from `a` along some walk.
pub open spec fn walk_of_length(edges: Edges, a: NodeId, b: NodeId, k: nat) -> bool {
    exists|p: Seq<NodeId>| is_uwalk(edges, p) && p[0] == a && p.last() == b && p.len() == k + 1
}

/// `list` names exactly the assets joined to `x` by a relation.
pub open spec fn exact_neighbors(edges: Edges, x: NodeId, list: Seq<NodeId>) -> bool {
    forall|t: NodeId| list.contains(t) <==> adjacent(edges, x, t)
}

/// The other end of relation `r` as seen from `x`.
pub open spec fn other_end(x: NodeId, r: Relation) -> NodeId {
    if r.from_asset_id@ == x {
        r.to_asset_id@
    } else {
        r.from_asset_id@
    }
}

/// The other ends of `rels` as seen from `x`, in order.
pub open spec fn neighbors(x: NodeId, rels: Seq<Relation>) -> Seq<NodeId> {
    rels.map_values(|r: Relation| other_end(x, r))
}

/// When every given relation touches `x`, the neighbours handed to the
/// traversal for `x` are exactly the assets joined to `x` by one of them,
/// in either direction: a relation `x -> t` gives `t`, a relation `t -> x`
/// gives `t`, and nothing else is given.
pub proof fn law_neighbors_exact(x: NodeId, rels: Seq<Relation>)
    requires
        forall|i: int| 0 <= i < rels.len() ==> #[trigger] rels[i].from_asset_id@ == x || rels[i].to_asset_id@ == x,
    ensures
        exact_neighbors(relation_edges(rels), x, neighbors(x, rels)),
{
    let e = relation_edges(rels);
    let nb = neighbors(x, rels);
    assert forall|t: NodeId| nb.contains(t) <==> adjacent(e, x, t) by {
        if nb.contains(t) {
            let i = choose|i: int| 0 <= i < nb.len() && nb[i] == t;
            assert(nb[i] == other_end(x, rels[i]));
            assert(rels[i].from_asset_id@ == x || rels[i].to_asset_id@ == x);
            if rels[i].from_asset_id@ == x {
                assert(e.contains((x, t)));
            } else {
                assert(e.contains((t, x)));
            }
        }
        if adjacent(e, x, t) {
            if e.contains((x, t)) {
                let i = choose|i: int| 0 <= i < rels.len() && #[trigger] rels[i].from_asset_id@ == x && rels[i].to_asset_id@ == t;
                assert(nb[i] == t);
            } else {
                let i = choose|i: int| 0 <= i < rels.len() && #[trigger] rels[i].from_asset_id@ == t && rels[i].to_asset_id@ == x;
                assert(nb[i] == t);
            }
        }
    }
}

/// Abstract state of a depth-limited traversal: the assets discovered, in
/// order, with the depth at which each was discovered; how many have been
/// taken off the queue; and whether the relations of the last one taken
/// are awaited.
pub ghost struct TraversalModel {
    pub seen: Seq<NodeId>,
    pub depths: Seq<nat>,
    pub head: nat,
    pub awaiting: bool,
}

/// The traversal right after it starts at `start`: the start is the first
/// asset looked up, at depth 0.
pub open spec fn traversal_start(start: NodeId) -> TraversalModel {
    TraversalModel { seen: seq![start], depths: seq![0nat], head: 1, awaiting: true }
}

/// The traversal after the relations of the awaited asset arrive: when that
/// asset is shallower than `max_depth`, its unseen neighbours are queued one
/// level deeper; then the next queued asset is taken.
pub open spec fn traversal_step(m: TraversalModel, nbrs: Seq<NodeId>, max_depth: nat) -> TraversalModel {
    if !m.awaiting {
        m
    } else {
        let d = m.depths[m.head - 1];
        let seen2 = if d < max_depth { absorb(m.seen, nbrs) } else { m.seen };
        let depths2 = m.depths + Seq::new((seen2.len() - m.seen.len()) as nat, |i: int| d + 1);
        if m.head >= seen2.len() {
            TraversalModel { seen: seen2, depths: depths2, head: m.head, awaiting: false }
        } else {
            TraversalModel { seen: seen2, depths: depths2, head: m.head + 1, awaiting: true }
        }
    }
}

/// Index of the asset being processed (or next to be processed).
pub open spec fn traversal_cursor(m: TraversalModel) -> int {
    if m.awaiting {
        m.head - 1
    } else {
        m.head as int
    }
}

/// The invariant of a traversal from `start` over `edges`.
pub open spec fn traversal_consistent(m: TraversalModel, edges: Edges, start: NodeId, max_depth: nat) -> bool {
    let q = traversal_cursor(m);
    &&& m.seen.len() >= 1
    &&& m.seen[0] == start
    &&& m.depths.len() == m.seen.len()
    &&& m.depths[0] == 0
    &&& distinct(m.seen)
    &&& 1 <= m.head <= m.seen.len()
    &&& !m.awaiting ==> m.head == m.seen.len()
    &&& forall|i: int| 0 <= i < m.seen.len() ==> #[trigger] m.depths[i] <= max_depth
    &&& forall|i: int, j: int| 0 <= i <= j < m.seen.len() ==> m.depths[i] <= m.depths[j]
    &&& q < m.seen.len() ==> forall|i: int| 0 <= i < m.seen.len() ==> #[trigger] m.depths[i] <= m.depths[q] + 1
    &&& forall|i: int| 0 <= i < m.seen.len() ==> walk_of_length(edges, start, #[trigger] m.seen[i], m.depths[i])
    &&& forall|j: int, y: NodeId|
        0 <= j < q && m.depths[j] < max_depth && #[trigger] adjacent(edges, m.seen[j], y) ==>
            exists|b: int| 0 <= b < m.seen.len() && m.seen[b] == y && m.depths[b] <= m.depths[j] + 1
}

proof fn lemma_uwalk_refl(edges: Edges, a: NodeId)
    ensures
        walk_of_length(edges, a, a, 0),
{
    let p = seq![a];
    assert(is_uwalk(edges, p));
    assert(p[0] == a && p.last() == a && p.len() == 1);
}

proof fn lemma_uwalk_step(edges: Edges, a: NodeId, x: NodeId, y: NodeId, k: nat)
    requires
        walk_of_length(edges, a, x, k),
        adjacent(edges, x, y),
    ensures
        walk_of_length(edges, a, y, k + 1),
{
    let p = choose|p: Seq<NodeId>| is_uwalk(edges, p) && p[0] == a && p.last() == x && p.len() == k + 1;
    let q = p.push(y);
    assert forall|i: int| 0 <= i < q.len() - 1 implies adjacent(edges, #[trigger] q[i], q[i + 1]) by {
        if i < p.len() - 1 {
            assert(q[i] == p[i] && q[i + 1] == p[i + 1]);
        } else {
            assert(q[i] == x && q[i + 1] == y);
        }
    }
    assert(is_uwalk(edges, q) && q[0] == a && q.last() == y && q.len() == k + 2);
}

/// Starting a traversal establishes its invariant.
pub proof fn law_traversal_start(edges: Edges, start: NodeId, max_depth: nat)
    ensures
        traversal_consistent(traversal_start(start), edges, start, max_depth),
{
    let m = traversal_start(start);
    lemma_uwalk_refl(edges, start);
    assert(m.seen[0] == start);
    assert forall|i: int| 0 <= i < m.seen.len() implies walk_of_length(edges, start, #[trigger] m.seen[i], m.depths[i]) by {
        assert(i == 0);
    }
}

/// Feeding the exact neighbours of the awaited asset preserves the invariant.
#[verifier::rlimit(60)]
#[verifier::spinoff_prover]
pub proof fn law_traversal_step(m: TraversalModel, edges: Edges, start: NodeId, max_depth: nat, nbrs: Seq<NodeId>)
    requires
        traversal_consistent(m, edges, start, max_depth),
        m.awaiting ==> exact_neighbors(edges, m.seen[m.head - 1], nbrs),
    ensures
        traversal_consistent(traversal_step(m, nbrs, max_depth), edges, start, max_depth),
{
    if m.awaiting {
        let c = m.head - 1;
        let cur = m.seen[c];
        let d = m.depths[c];
        let seen2 = if d < max_depth { absorb(m.seen, nbrs) } else { m.seen };
        let added = (seen2.len() - m.seen.len()) as nat;
        let depths2 = m.depths + Seq::new(added, |i: int| d + 1);
        let m2 = traversal_step(m, nbrs, max_depth);
        lemma_absorb(m.seen, nbrs);
        assert(seen2.len() >= m.seen.len());
        assert(m2.seen == seen2 && m2.depths == depths2);
        assert forall|j: int| 0 <= j < m.seen.len() implies #[trigger] seen2[j] == m.seen[j] by {
            if d < max_depth {
                assert(seen2.subrange(0, m.seen.len() as int)[j] == seen2[j]);
            }
        }
        assert forall|j: int| 0 <= j < m.seen.len() implies #[trigger] depths2[j] == m.depths[j] by {}
        assert forall|j: int| m.seen.len() <= j < seen2.len() implies #[trigger] depths2[j] == d + 1 by {}
        // new elements are neighbours of the current asset
        assert forall|j: int| m.seen.len() <= j < seen2.len() implies adjacent(edges, cur, #[trigger] seen2[j]) by {
            assert(seen2.contains(seen2[j]));
            if m.seen.contains(seen2[j]) {
                let k = choose|k: int| 0 <= k < m.seen.len() && m.seen[k] == seen2[j];
                assert(seen2[k] == m.seen[k]);
                assert(false);
            }
            assert(nbrs.contains(seen2[j]));
        }
        // depth bounds
        assert forall|i: int| 0 <= i < seen2.len() implies #[trigger] depths2[i] <= max_depth by {
            if i < m.seen.len() {
                assert(m.depths[i] <= max_depth);
            }
        }
        // monotone depths
        let last = m.seen.len() - 1;
        assert(m.depths[last] <= d + 1);
        assert forall|i: int, j: int| 0 <= i <= j < seen2.len() implies depths2[i] <= depths2[j] by {
            if j < m.seen.len() {
                assert(m.depths[i] <= m.depths[j]);
            } else if i < m.seen.len() {
                assert(m.depths[i] <= m.depths[last]);
            }
        }
        // walks
        assert forall|i: int| 0 <= i < seen2.len() implies walk_of_length(edges, start, #[trigger] seen2[i], depths2[i]) by {
            if i < m.seen.len() {
                assert(walk_of_length(edges, start, m.seen[i], m.depths[i]));
            } else {
                assert(walk_of_length(edges, start, m.seen[c], m.depths[c]));
                lemma_uwalk_step(edges, start, cur, seen2[i], d);
            }
        }
        // closure now holds up to and including the current asset
        assert forall|j: int, y: NodeId|
            0 <= j < m.head && depths2[j] < max_depth && #[trigger] adjacent(edges, seen2[j], y) implies
                exists|b: int| 0 <= b < seen2.len() && seen2[b] == y && depths2[b] <= depths2[j] + 1 by {
            assert(seen2[j] == m.seen[j]);
            if j < c {
                let b = choose|b: int| 0 <= b < m.seen.len() && m.seen[b] == y && m.depths[b] <= m.depths[j] + 1;
                assert(seen2[b] == y && depths2[b] <= depths2[j] + 1);
            } else {
                assert(j == c);
                assert(nbrs.contains(y));
                assert(seen2.contains(y));
                let b = choose|b: int| 0 <= b < seen2.len() && seen2[b] == y;
                if b < m.seen.len() {
                    assert(m.depths[b] <= m.depths[c] + 1);
                }
                assert(depths2[b] <= depths2[j] + 1);
            }
        }
        // distinct
        if d >= max_depth {
            assert(seen2 == m.seen);
        }
        // gap for the next cursor
        if m.head < seen2.len() {
            assert forall|i: int| 0 <= i < seen2.len() implies #[trigger] depths2[i] <= depths2[m.head as int] + 1 by {
                assert(depths2[c] <= depths2[m.head as int]);
                if i < m.seen.len() {
                    assert(m.depths[i] <= m.depths[c] + 1);
                }
            }
        }
    }
}

proof fn lemma_traversal_reaches(m: TraversalModel, edges: Edges, start: NodeId, max_depth: nat, p: Seq<NodeId>, k: int)
    requires
        traversal_consistent(m, edges, start, max_depth),
        !m.awaiting,
        is_uwalk(edges, p),
        p[0] == start,
        p.len() <= max_depth + 1,
        0 <= k < p.len(),
    ensures
        exists|b: int| 0 <= b < m.seen.len() && m.seen[b] == p[k] && m.depths[b] <= k,
    decreases k,
{
    if k == 0 {
        assert(m.seen[0] == p[0] && m.depths[0] <= 0);
    } else {
        lemma_traversal_reaches(m, edges, start, max_depth, p, k - 1);
        let a = choose|b: int| 0 <= b < m.seen.len() && m.seen[b] == p[k - 1] && m.depths[b] <= k - 1;
        assert(adjacent(edges, p[k - 1], p[k]));
        assert(m.depths[a] < max_depth);
        assert(adjacent(edges, m.seen[a], p[k]));
        let b = choose|b: int| 0 <= b < m.seen.len() && m.seen[b] == p[k] && m.depths[b] <= m.depths[a] + 1;
        assert(m.depths[b] <= k);
    }
}

/// A finished traversal has discovered exactly the assets within
/// `max_depth` steps of the start, each at its shortest distance.
pub proof fn law_traversal_complete(m: TraversalModel, edges: Edges, start: NodeId, max_depth: nat)
    requires
        traversal_consistent(m, edges, start, max_depth),
        !m.awaiting,
    ensures
        forall|x: NodeId| m.seen.contains(x) <==> within(edges, start, x, max_depth),
        forall|i: int, k: nat| 0 <= i < m.seen.len() && #[trigger] within(edges, start, m.seen[i], k) ==> m.depths[i] <= k,
        forall|i: int| 0 <= i < m.seen.len() ==> walk_of_length(edges, start, #[trigger] m.seen[i], m.depths[i]),
{
    assert forall|x: NodeId| m.seen.contains(x) <==> within(edges, start, x, max_depth) by {
        if m.seen.contains(x) {
            let i = choose|i: int| 0 <= i < m.seen.len() && m.seen[i] == x;
            assert(walk_of_length(edges, start, m.seen[i], m.depths[i]));
            let p = choose|p: Seq<NodeId>| is_uwalk(edges, p) && p[0] == start && p.last() == m.seen[i] && p.len() == m.depths[i] + 1;
            assert(m.depths[i] <= max_depth);
        }
        if within(edges, start, x, max_depth) {
            let p = choose|p: Seq<NodeId>| is_uwalk(edges, p) && p[0] == start && p.last() == x && p.len() <= max_depth + 1;
            lemma_traversal_reaches(m, edges, start, max_depth, p, p.len() - 1);
            let b = choose|b: int| 0 <= b < m.seen.len() && m.seen[b] == p[p.len() - 1] && m.depths[b] <= p.len() - 1;
            assert(m.seen[b] == x);
        }
    }
    assert forall|i: int, k: nat| 0 <= i < m.seen.len() && #[trigger] within(edges, start, m.seen[i], k) implies m.depths[i] <= k by {
        let p = choose|p: Seq<NodeId>| is_uwalk(edges, p) && p[0] == start && p.last() == m.seen[i] && p.len() <= k + 1;
        if p.len() <= max_depth + 1 {
            lemma_traversal_reaches(m, edges, start, max_depth, p, p.len() - 1);
            let b = choose|b: int| 0 <= b < m.seen.len() && m.seen[b] == p[p.len() - 1] && m.depths[b] <= p.len() - 1;
            assert(b == i);
        } else {
            assert(m.depths[i] <= max_depth);
        }
    }
}


/// A node of a traversal result: an asset, the depth at which it was
/// reached, and the relations touching it.
#[derive(Debug)]
pub struct GraphNode {
    pub asset_id: String,
    pub depth: u32,
    pub relations: Vec<Relation>,
}

/// The identifier and depth of each result node.
pub open spec fn node_keys(nodes: Seq<GraphNode>) -> Seq<(NodeId, nat)> {
    nodes.map_values(|n: GraphNode| (n.asset_id@, n.depth as nat))
}

/// What a traversal asks of its caller next.
#[derive(Debug)]
pub enum TraversalProbe {
    /// Look up every relation touching this asset and hand them back.
    Fetch(String),
    /// The traversal is complete.
    Done,
}

/// Walks the relation graph outward from an asset, following relations in
/// both directions, up to a maximum depth. Assets are reported with the
/// relations touching them; an asset without relations is reported only
/// when it is the start.
pub struct GraphTraversal {
    start: String,
    max_depth: u32,
    seen: Vec<String>,
    depths: Vec<u32>,
    head: usize,
    awaiting: bool,
    results: Vec<GraphNode>,
    result_index: Ghost<Seq<int>>,
}

impl GraphTraversal {
    /// The abstract state of the traversal.
    pub closed spec fn model(&self) -> TraversalModel {
        TraversalModel {
            seen: ids(self.seen@),
            depths: self.depths@.map_values(|d: u32| d as nat),
            head: self.head as nat,
            awaiting: self.awaiting,
        }
    }

    /// The start asset.
    pub closed spec fn start_id(&self) -> NodeId {
        self.start@
    }

    /// The depth limit.
    pub closed spec fn limit(&self) -> nat {
        self.max_depth as nat
    }

    /// Identifier and depth of each node reported so far.
    pub closed spec fn result_keys(&self) -> Seq<(NodeId, nat)> {
        node_keys(self.results@)
    }

    #[verifier::type_invariant]
    closed spec fn inv(&self) -> bool {
        &&& self.seen@.len() >= 1
        &&& self.seen@[0]@ == self.start@
        &&& self.depths@.len() == self.seen@.len()
        &&& self.depths@[0] == 0
        &&& distinct(ids(self.seen@))
        &&& 1 <= self.head <= self.seen@.len()
        &&& forall|i: int| 0 <= i < self.depths@.len() ==> #[trigger] self.depths@[i] <= self.max_depth
        &&& self.result_index@.len() == self.results@.len()
        &&& forall|i: int, j: int|
            0 <= i < j < self.result_index@.len() ==> self.result_index@[i] < self.result_index@[j]
        &&& forall|i: int| 0 <= i < self.result_index@.len() ==> {
            let k = #[trigger] self.result_index@[i];
            &&& 0 <= k < self.head
            &&& (!self.awaiting || k < self.head - 1)
            &&& self.results@[i].asset_id@ == self.seen@[k]@
            &&& self.results@[i].depth == self.depths@[k]
        }
        &&& self.result_index@.len() > 0 ==> self.result_index@[0] == 0
        &&& (self.head > 1 || !self.awaiting) ==> self.result_index@.len() > 0
    }

    /// Starts a traversal at `start_id`, following relations at most
    /// `max_depth` steps away.
    pub fn new(start_id: &String, max_depth: u32) -> (t: GraphTraversal)
        ensures
            t.model() == traversal_start(start_id@),
            t.start_id() == start_id@,
            t.limit() == max_depth,
            t.result_keys() == Seq::<(NodeId, nat)>::empty(),
    {
        let mut seen: Vec<String> = Vec::new();
        seen.push(start_id.clone());
        let mut depths: Vec<u32> = Vec::new();
        depths.push(0);
        let t = GraphTraversal {
            start: start_id.clone(),
            max_depth,
            seen,
            depths,
            head: 1,
            awaiting: true,
            results: Vec::new(),
            result_index: Ghost(Seq::empty()),
        };
        assert(t.model().seen =~= seq![start_id@]);
        assert(t.model().depths =~= seq![0nat]);
        assert(t.result_keys() =~= Seq::<(NodeId, nat)>::empty());
        t
    }

    /// What the traversal needs next.
    pub fn probe(&self) -> (p: TraversalProbe)
        ensures
            match p {
                TraversalProbe::Fetch(id) => self.model().awaiting && id@ == self.model().seen[self.model().head - 1],
                TraversalProbe::Done => !self.model().awaiting,
            },
    {
        proof {
            use_type_invariant(self);
        }
        if self.awaiting {
            TraversalProbe::Fetch(self.seen[self.head - 1].clone())
        } else {
            TraversalProbe::Done
        }
    }

    /// Hands over every relation touching the asset last named by
    /// [`TraversalProbe::Fetch`]. The asset is reported (with these
    /// relations) when it has any or when it is the start; its neighbours
    /// are queued when it lies shallower than the depth limit.
    #[verifier::rlimit(40)]
    pub fn on_relations(self, relations: Vec<Relation>) -> (r: (GraphTraversal, TraversalProbe))
        ensures
            r.0.start_id() == self.start_id(),
            r.0.limit() == self.limit(),
            r.0.model() == traversal_step(
                self.model(),
                neighbors(if self.model().awaiting { self.model().seen[self.model().head - 1] } else { Seq::empty() }, relations@),
                self.limit(),
            ),
            r.0.result_keys() == if self.model().awaiting && (relations@.len() > 0
                || self.model().seen[self.model().head - 1] == self.start_id()) {
                self.result_keys().push((self.model().seen[self.model().head - 1], self.model().depths[self.model().head - 1]))
            } else {
                self.result_keys()
            },
            match r.1 {
                TraversalProbe::Fetch(id) => r.0.model().awaiting && id@ == r.0.model().seen[r.0.model().head - 1],
                TraversalProbe::Done => !r.0.model().awaiting,
            },
    {
        proof {
            use_type_invariant(&self);
        }
        if !self.awaiting {
            return (self, TraversalProbe::Done);
        }
        let GraphTraversal { start, max_depth, seen, depths, head, awaiting, results, result_index } = self;
        let mut seen = seen;
        let mut depths = depths;
        let mut results = results;
        let c = head - 1;
        let cur = seen[c].clone();
        let d = depths[c];
        let mut nbrs: Vec<String> = Vec::new();
        let n = relations.len();
        for i in 0..n
            invariant
                n == relations@.len(),
                ids(nbrs@) == neighbors(cur@, relations@.take(i as int)),
        {
            let ghost before = nbrs@;
            if str_eq(relations[i].from_asset_id.as_str(), cur.as_str()) {
                nbrs.push(relations[i].to_asset_id.clone());
            } else {
                nbrs.push(relations[i].from_asset_id.clone());
            }
            assert(ids(nbrs@) =~= ids(before).push(other_end(cur@, relations@[i as int])));
            assert(neighbors(cur@, relations@.take(i + 1)) =~= neighbors(cur@, relations@.take(i as int)).push(
                other_end(cur@, relations@[i as int]),
            ));
        }
        assert(relations@.take(n as int) =~= relations@);
        let report = relations.len() > 0 || str_eq(cur.as_str(), start.as_str());
        let ghost keys0 = node_keys(results@);
        let ghost idx0 = result_index@;
        let mut result_index = result_index;
        if report {
            results.push(GraphNode { asset_id: cur, depth: d, relations });
            proof {
                result_index@ = idx0.push(c as int);
                assert(node_keys(results@) =~= keys0.push((seen@[c as int]@, d as nat)));
            }
        }
        let ghost seen0 = seen@;
        let ghost depths0 = depths@;
        if d < max_depth {
            let before = seen.len();
            absorb_into(&mut seen, &nbrs);
            proof {
                lemma_absorb(ids(seen0), ids(nbrs@));
            }
            let after = seen.len();
            for k in before..after
                invariant
                    before == seen0.len(),
                    depths@.len() == k,
                    depths@.subrange(0, before as int) == depths0,
                    forall|j: int| before <= j < k ==> #[trigger] depths@[j] == d + 1,
                    d < max_depth,
            {
                depths.push(d + 1);
            }
        }
        let ghost m_depths = depths@.map_values(|x: u32| x as nat);
        proof {
            let seen2 = ids(seen@);
            let old_depths = depths0.map_values(|x: u32| x as nat);
            assert(m_depths =~= old_depths + Seq::new((seen2.len() - seen0.len()) as nat, |i: int| d as nat + 1));
            assert forall|j: int| 0 <= j < seen0.len() implies #[trigger] seen@[j]@ == seen0[j]@ by {
                if d < max_depth {
                    assert(ids(seen@).subrange(0, seen0.len() as int)[j] == ids(seen@)[j]);
                    assert(ids(seen0)[j] == seen0[j]@);
                    assert(ids(seen@)[j] == seen@[j]@);
                }
            }
        }
        let (head2, awaiting2) = if head >= seen.len() {
            (head, false)
        } else {
            (head + 1, true)
        };
        proof {
            assert forall|j: int| 0 <= j < depths0.len() implies #[trigger] depths@[j] == depths0[j] by {
                if d < max_depth {
                    assert(depths@.subrange(0, depths0.len() as int)[j] == depths@[j]);
                }
            }
            assert(seen@[0]@ == seen0[0]@);
            assert(distinct(ids(seen@))) by {
                if d < max_depth {
                    lemma_absorb(ids(seen0), ids(nbrs@));
                }
            }
            assert forall|i: int| 0 <= i < depths@.len() implies #[trigger] depths@[i] <= max_depth by {
                if i < depths0.len() {
                    assert(depths@[i] == depths0[i]);
                }
            }
            assert forall|i: int| 0 <= i < result_index@.len() implies {
                let k = #[trigger] result_index@[i];
                &&& 0 <= k < head2
                &&& (!awaiting2 || k < head2 - 1)
                &&& results@[i].asset_id@ == seen@[k]@
                &&& results@[i].depth == depths@[k]
            } by {
                let k = result_index@[i];
                if i < idx0.len() {
                    assert(k == idx0[i]);
                    assert(k < head - 1);
                }
                assert(seen@[k]@ == seen0[k]@);
                assert(depths@[k] == depths0[k]);
            }
            if head == 1 {
                assert(seen0[0]@ == start@);
            }
        }
        let t = GraphTraversal { start, max_depth, seen, depths, head: head2, awaiting: awaiting2, results, result_index };
        assert(t.model().depths =~= m_depths);
        let p = if awaiting2 {
            TraversalProbe::Fetch(t.seen[head2 - 1].clone())
        } else {
            TraversalProbe::Done
        };
        assert(ids(t.seen@)[head2 - 1] == t.seen@[head2 - 1]@);
        (t, p)
    }

    /// The nodes reported, in discovery order: distinct assets, each with
    /// the depth at which it was discovered.
    pub fn into_nodes(self) -> (nodes: Vec<GraphNode>)
        ensures
            node_keys(nodes@) == self.result_keys(),
            forall|i: int| 0 <= i < nodes@.len() ==> exists|k: int|
                0 <= k < self.model().head && self.model().seen[k] == (#[trigger] nodes@[i]).asset_id@
                    && self.model().depths[k] == nodes@[i].depth,
            forall|i: int, j: int| 0 <= i < j < nodes@.len() ==> nodes@[i].asset_id@ != nodes@[j].asset_id@,
            nodes@.len() > 0 ==> nodes@[0].asset_id@ == self.start_id() && nodes@[0].depth == 0,
    {
        proof {
            use_type_invariant(&self);
            let idx = self.result_index@;
            assert forall|i: int| 0 <= i < self.results@.len() implies exists|k: int|
                0 <= k < self.model().head && self.model().seen[k] == (#[trigger] self.results@[i]).asset_id@
                    && self.model().depths[k] == self.results@[i].depth by {
                let k = idx[i];
                assert(self.model().seen[k] == self.seen@[k]@);
            }
            assert forall|i: int, j: int| 0 <= i < j < self.results@.len() implies self.results@[i].asset_id@ != self.results@[j].asset_id@ by {
                let a = idx[i];
                let b = idx[j];
                assert(ids(self.seen@)[a] == self.seen@[a]@);
                assert(ids(self.seen@)[b] == self.seen@[b]@);
            }
        }
        self.results
    }
}

} // verus!




