//! Pass scheduling for render graph resolution.
//!
//! A render graph is a list of passes, each of which accesses some of the nodes bound to the
//! graph. Each access is summarised here by the index of the node, whether the first access of
//! that node within an execution reads it, and whether the execution writes it.
use vstd::prelude::*;

verus! {

/// One access of a node by a pass: the node index, whether the first access of the node within
/// that execution is a read, and whether the execution writes the node.
pub type NodeAccess = (usize, bool, bool);

/// True when the access list of a pass touches the node.
pub open spec fn touches(acc: Seq<NodeAccess>, node: usize) -> bool {
    exists|i: int| 0 <= i < acc.len() && #[trigger] acc[i].0 == node
}

/// True when the access list of a pass writes the node.
pub open spec fn writes_node(acc: Seq<NodeAccess>, node: usize) -> bool {
    exists|i: int| 0 <= i < acc.len() && #[trigger] acc[i].0 == node && acc[i].2
}

/// The unique nodes that an access list reads, in the order in which each is first read.
pub open spec fn read_nodes(acc: Seq<NodeAccess>) -> Seq<usize>
    decreases acc.len(),
{
    if acc.len() == 0 {
        seq![]
    } else {
        let prev = read_nodes(acc.drop_last());
        let last = acc.last();
        if last.1 && !prev.contains(last.0) {
            prev.push(last.0)
        } else {
            prev
        }
    }
}

/// Every node of `read_nodes` is read somewhere in the access list, and the sequence holds no
/// duplicates.
pub proof fn lemma_read_nodes(acc: Seq<NodeAccess>)
    ensures
        read_nodes(acc).no_duplicates(),
        forall|k: int|
            0 <= k < read_nodes(acc).len() ==> exists|i: int|
                0 <= i < acc.len() && acc[i].0 == #[trigger] read_nodes(acc)[k] && acc[i].1,
        forall|i: int|
            0 <= i < acc.len() && acc[i].1 ==> read_nodes(acc).contains(#[trigger] acc[i].0),
    decreases acc.len(),
{
    if acc.len() > 0 {
        let prev = acc.drop_last();
        lemma_read_nodes(prev);
        let r = read_nodes(acc);
        assert forall|k: int| 0 <= k < r.len() implies exists|i: int|
            0 <= i < acc.len() && acc[i].0 == #[trigger] r[k] && acc[i].1 by {
            if k < read_nodes(prev).len() {
                let i = choose|i: int|
                    0 <= i < prev.len() && prev[i].0 == read_nodes(prev)[k] && prev[i].1;
                assert(acc[i] == prev[i]);
            } else {
                assert(acc[acc.len() - 1].0 == r[k]);
            }
        }
        assert forall|i: int| 0 <= i < acc.len() && acc[i].1 implies r.contains(
            #[trigger] acc[i].0,
        ) by {
            if i < acc.len() - 1 {
                assert(prev[i] == acc[i]);
                let k = choose|k: int| 0 <= k < read_nodes(prev).len() && read_nodes(prev)[k] == prev[i].0;
                assert(r[k] == acc[i].0);
            } else {
                if !read_nodes(prev).contains(acc[i].0) {
                    assert(r[r.len() - 1] == acc[i].0);
                }
            }
        }
    }
}

/// Records, for a prefix of the passes of a graph, which nodes each pass accesses and which
/// nodes each pass depends on (reads).
pub struct AccessCache {
    accesses: Vec<Vec<bool>>,
    binding_count: usize,
    reads: Vec<Vec<usize>>,
}

impl AccessCache {
    /// The number of nodes bound to the graph when the cache was filled.
    pub closed spec fn binding_count(&self) -> nat {
        self.binding_count as nat
    }

    /// The number of passes held by the cache.
    pub closed spec fn pass_count(&self) -> nat {
        self.accesses@.len()
    }

    /// Whether pass `pass` writes node `node`.
    pub closed spec fn writes(&self, pass: int, node: int) -> bool {
        self.accesses@[pass]@[node]
    }

    /// The unique nodes that pass `pass` reads, in the order they were first read.
    pub closed spec fn reads(&self, pass: int) -> Seq<usize> {
        self.reads@[pass]@
    }

    /// Internal consistency of the cache.
    pub closed spec fn wf(&self) -> bool {
        &&& self.reads@.len() == self.accesses@.len()
        &&& self.accesses@.len() <= usize::MAX
        &&& forall|p: int|
            0 <= p < self.accesses@.len() ==> #[trigger] self.accesses@[p]@.len()
                == self.binding_count
        &&& forall|p: int, k: int|
            0 <= p < self.reads@.len() && 0 <= k < self.reads@[p]@.len() ==> #[trigger] self.reads@[p]@[k]
                < self.binding_count
        &&& forall|p: int| 0 <= p < self.reads@.len() ==> #[trigger] self.reads@[p]@.no_duplicates()
    }

    /// An empty cache.
    pub fn new() -> (r: Self)
        ensures
            r.wf(),
            r.pass_count() == 0,
            r.binding_count() == 0,
    {
        AccessCache { accesses: Vec::new(), binding_count: 0, reads: Vec::new() }
    }

    /// Fills the cache from the access lists of the first `end_pass_idx` passes of a graph with
    /// `binding_count` bound nodes.
    pub fn update(&mut self, passes: &Vec<Vec<NodeAccess>>, binding_count: usize, end_pass_idx: usize)
        requires
            end_pass_idx <= passes@.len(),
            forall|p: int, i: int|
                0 <= p < end_pass_idx && 0 <= i < passes@[p]@.len() ==> #[trigger] passes@[p]@[i].0
                    < binding_count,
        ensures
            final(self).wf(),
            final(self).binding_count() == binding_count,
            final(self).pass_count() == end_pass_idx,
            forall|p: int, n: int|
                0 <= p < end_pass_idx && 0 <= n < binding_count ==> (#[trigger] final(self).writes(p, n)
                    <==> writes_node(passes@[p]@, n as usize)),
            forall|p: int|
                0 <= p < end_pass_idx ==> #[trigger] final(self).reads(p) == read_nodes(passes@[p]@),
    {
        let mut accesses: Vec<Vec<bool>> = Vec::new();
        let mut reads: Vec<Vec<usize>> = Vec::new();
        let mut pass_idx: usize = 0;
        while pass_idx < end_pass_idx
            invariant
                pass_idx <= end_pass_idx <= passes@.len(),
                accesses@.len() == pass_idx,
                reads@.len() == pass_idx,
                forall|p: int, i: int|
                    0 <= p < end_pass_idx && 0 <= i < passes@[p]@.len() ==> #[trigger] passes@[p]@[i].0
                        < binding_count,
                forall|p: int| 0 <= p < pass_idx ==> #[trigger] accesses@[p]@.len() == binding_count,
                forall|p: int, n: int|
                    0 <= p < pass_idx && 0 <= n < binding_count ==> (#[trigger] accesses@[p]@[n]
                        <==> writes_node(passes@[p]@, n as usize)),
                forall|p: int| 0 <= p < pass_idx ==> #[trigger] reads@[p]@ == read_nodes(passes@[p]@),
                forall|p: int, k: int|
                    0 <= p < pass_idx && 0 <= k < reads@[p]@.len() ==> #[trigger] reads@[p]@[k]
                        < binding_count,
                forall|p: int| 0 <= p < pass_idx ==> #[trigger] reads@[p]@.no_duplicates(),
            decreases end_pass_idx - pass_idx,
        {
            let acc = &passes[pass_idx];
            let mut row: Vec<bool> = Vec::new();
            let mut seen: Vec<bool> = Vec::new();
            let mut n: usize = 0;
            while n < binding_count
                invariant
                    n <= binding_count,
                    row@.len() == n,
                    seen@.len() == n,
                    forall|m: int| 0 <= m < n ==> !#[trigger] row@[m] && !seen@[m],
                decreases binding_count - n,
            {
                row.push(false);
                seen.push(false);
                n = n + 1;
            }
            let mut row_reads: Vec<usize> = Vec::new();
            proof {
                assert forall|m: int| 0 <= m < binding_count implies (#[trigger] seen@[m]
                    <==> row_reads@.contains(m as usize)) by {
                    assert(!row@[m] && !seen@[m]);
                    assert(!row_reads@.contains(m as usize));
                }
                assert(acc@.take(0) == Seq::<NodeAccess>::empty());
            }
            let mut i: usize = 0;
            while i < acc.len()
                invariant
                    pass_idx < end_pass_idx <= passes@.len(),
                    *acc == passes@[pass_idx as int],
                    i <= acc@.len(),
                    row@.len() == binding_count,
                    seen@.len() == binding_count,
                    forall|j: int| 0 <= j < acc@.len() ==> #[trigger] acc@[j].0 < binding_count,
                    forall|m: int|
                        0 <= m < binding_count ==> (#[trigger] row@[m] <==> writes_node(
                            acc@.take(i as int),
                            m as usize,
                        )),
                    row_reads@ == read_nodes(acc@.take(i as int)),
                    forall|m: int|
                        0 <= m < binding_count ==> (#[trigger] seen@[m] <==> row_reads@.contains(
                            m as usize,
                        )),
                    forall|k: int| 0 <= k < row_reads@.len() ==> #[trigger] row_reads@[k] < binding_count,
                decreases acc@.len() - i,
            {
                let (node_idx, is_read, is_write) = acc[i];
                proof {
                    assert(acc@.take(i as int + 1).drop_last() == acc@.take(i as int));
                    assert(acc@.take(i as int + 1).last() == acc@[i as int]);
                }
                let ghost old_row = row@;
                let ghost old_reads = row_reads@;
                let ghost old_seen = seen@;
                if is_write {
                    row.set(node_idx, true);
                }
                if is_read && !seen[node_idx] {
                    row_reads.push(node_idx);
                    seen.set(node_idx, true);
                }
                proof {
                    assert forall|m: int| 0 <= m < binding_count implies (#[trigger] seen@[m]
                        <==> row_reads@.contains(m as usize)) by {
                        if row_reads@ != old_reads {
                            assert(row_reads@ == old_reads.push(node_idx));
                            if m != node_idx {
                                assert(seen@[m] == old_seen[m]);
                                if row_reads@.contains(m as usize) {
                                    let k = choose|k: int| 0 <= k < row_reads@.len() && row_reads@[k] == m as usize;
                                    assert(k < old_reads.len());
                                    assert(old_reads[k] == m);
                                }
                                if old_reads.contains(m as usize) {
                                    let k = choose|k: int| 0 <= k < old_reads.len() && old_reads[k] == m as usize;
                                    assert(row_reads@[k] == m);
                                }
                            } else {
                                assert(row_reads@[row_reads@.len() - 1] == m);
                            }
                        }
                    }
                    let t = acc@.take(i as int + 1);
                    assert forall|m: int| 0 <= m < binding_count implies (#[trigger] row@[m]
                        <==> writes_node(t, m as usize)) by {
                        if m == node_idx && is_write {
                            assert(t[i as int].0 == node_idx && t[i as int].2);
                        } else {
                            assert(old_row[m] == row@[m]);
                            if writes_node(t, m as usize) {
                                let j = choose|j: int| 0 <= j < t.len() && #[trigger] t[j].0 == m as usize && t[j].2;
                                if j == i {
                                    assert(t[j] == acc@[i as int]);
                                }
                                assert(acc@.take(i as int)[j] == t[j]);
                            }
                            if writes_node(acc@.take(i as int), m as usize) {
                                let j = choose|j: int|
                                    0 <= j < i && #[trigger] acc@.take(i as int)[j].0 == m as usize && acc@.take(i as int)[j].2;
                                assert(t[j] == acc@.take(i as int)[j]);
                            }
                        }
                    }
                }
                i = i + 1;
            }
            proof {
                assert(acc@.take(acc@.len() as int) == acc@);
                lemma_read_nodes(acc@);
            }
            accesses.push(row);
            reads.push(row_reads);
            pass_idx = pass_idx + 1;
        }
        self.accesses = accesses;
        self.reads = reads;
        self.binding_count = binding_count;
    }

    /// The unique nodes that the given pass reads, in the order they were first read.
    pub fn dependent_nodes(&self, pass_idx: usize) -> (r: Vec<usize>)
        requires
            self.wf(),
            pass_idx < self.pass_count(),
        ensures
            r@ == self.reads(pass_idx as int),
    {
        self.reads[pass_idx].clone()
    }
}


impl AccessCache {
    /// The passes in `lo..end` that write `node`, from the last to the first.
    pub closed spec fn writers_from(&self, node: int, lo: int, end: int) -> Seq<usize>
        decreases end - lo,
    {
        if lo >= end {
            seq![]
        } else if self.writes(lo, node) {
            self.writers_from(node, lo + 1, end).push(lo as usize)
        } else {
            self.writers_from(node, lo + 1, end)
        }
    }

    /// The passes before `end` that write `node`, from the last to the first.
    pub open spec fn writers(&self, node: int, end: int) -> Seq<usize> {
        self.writers_from(node, 0, end)
    }

    /// The passes that the nodes read by pass `pass` depend upon, node by node.
    pub open spec fn interdependents(&self, pass: int, end: int) -> Seq<usize> {
        self.interdependent_lists(pass, end).flatten()
    }

    /// For each node read by pass `pass`, the passes before `end` which write it.
    pub open spec fn interdependent_lists(&self, pass: int, end: int) -> Seq<Seq<usize>> {
        self.reads(pass).map_values(|n: usize| self.writers(n as int, end))
    }

    /// `writers_from` lists exactly the accessing passes of its range, strictly decreasing.
    pub proof fn lemma_writers_from(&self, node: int, lo: int, end: int)
        requires
            0 <= lo,
            end <= usize::MAX,
        ensures
            forall|k: int|
                0 <= k < self.writers_from(node, lo, end).len() ==> lo <= #[trigger] self.writers_from(
                    node,
                    lo,
                    end,
                )[k] < end && self.writes(self.writers_from(node, lo, end)[k] as int, node),
            forall|p: int|
                lo <= p < end && self.writes(p, node) ==> #[trigger] self.writers_from(
                    node,
                    lo,
                    end,
                ).contains(p as usize),
            forall|i: int, j: int|
                0 <= i < j < self.writers_from(node, lo, end).len() ==> #[trigger] self.writers_from(
                    node,
                    lo,
                    end,
                )[i] > #[trigger] self.writers_from(node, lo, end)[j],
        decreases end - lo,
    {
        if lo < end {
            self.lemma_writers_from(node, lo + 1, end);
            let rest = self.writers_from(node, lo + 1, end);
            let all = self.writers_from(node, lo, end);
            assert forall|p: int| lo <= p < end && self.writes(p, node) implies #[trigger] all.contains(
                p as usize,
            ) by {
                if p == lo {
                    assert(all[all.len() - 1] == lo as usize);
                } else {
                    assert(rest.contains(p as usize));
                    let k = choose|k: int| 0 <= k < rest.len() && rest[k] == p as usize;
                    assert(all[k] == rest[k]);
                }
            }
            assert forall|k: int| 0 <= k < all.len() implies lo <= #[trigger] all[k] < end
                && self.writes(all[k] as int, node) by {
                if k < rest.len() {
                    assert(all[k] == rest[k]);
                }
            }
            assert forall|i: int, j: int| 0 <= i < j < all.len() implies #[trigger] all[i]
                > #[trigger] all[j] by {
                assert(all[i] == rest[i]);
                if j < rest.len() {
                    assert(all[j] == rest[j]);
                }
            }
        }
    }

    /// The passes before `end_pass_idx` which write the given node, from the last to the first.
    pub fn dependent_passes(&self, node_idx: usize, end_pass_idx: usize) -> (r: Vec<usize>)
        requires
            self.wf(),
            node_idx < self.binding_count(),
            end_pass_idx <= self.pass_count(),
        ensures
            r@ == self.writers(node_idx as int, end_pass_idx as int),
            forall|k: int|
                0 <= k < r@.len() ==> #[trigger] r@[k] < end_pass_idx && self.writes(r@[k] as int, node_idx as int),
            forall|p: int|
                0 <= p < end_pass_idx && self.writes(p, node_idx as int) ==> #[trigger] r@.contains(p as usize),
            forall|i: int, j: int| 0 <= i < j < r@.len() ==> #[trigger] r@[i] > #[trigger] r@[j],
    {
        proof {
            self.lemma_writers_from(node_idx as int, 0, end_pass_idx as int);
        }
        let mut r: Vec<usize> = Vec::new();
        let mut p: usize = end_pass_idx;
        while p > 0
            invariant
                self.wf(),
                node_idx < self.binding_count(),
                p <= end_pass_idx <= self.pass_count(),
                r@ == self.writers_from(node_idx as int, p as int, end_pass_idx as int),
            decreases p,
        {
            p = p - 1;
            if self.accesses[p][node_idx] {
                r.push(p);
            }
        }
        r
    }

    /// The passes which the given pass depends upon through the nodes it reads.
    pub fn interdependent_passes(&self, pass_idx: usize, end_pass_idx: usize) -> (r: Vec<usize>)
        requires
            self.wf(),
            pass_idx < self.pass_count(),
            end_pass_idx <= self.pass_count(),
        ensures
            r@ == self.interdependents(pass_idx as int, end_pass_idx as int),
    {
        let nodes = self.dependent_nodes(pass_idx);
        let mut r: Vec<usize> = Vec::new();
        let mut i: usize = 0;
        while i < nodes.len()
            invariant
                self.wf(),
                pass_idx < self.pass_count(),
                end_pass_idx <= self.pass_count(),
                nodes@ == self.reads(pass_idx as int),
                i <= nodes@.len(),
                r@ == nodes@.take(i as int).map_values(
                    |n: usize| self.writers(n as int, end_pass_idx as int),
                ).flatten(),
            decreases nodes@.len() - i,
        {
            let more = self.dependent_passes(nodes[i], end_pass_idx);
            proof {
                let f = |n: usize| self.writers(n as int, end_pass_idx as int);
                assert(nodes@.take(i as int + 1).map_values(f) == nodes@.take(i as int).map_values(
                    f,
                ).push(more@));
                nodes@.take(i as int).map_values(f).lemma_flatten_push(more@);
            }
            r.append(&mut more.clone());
            i = i + 1;
        }
        proof {
            assert(nodes@.take(nodes@.len() as int) == nodes@);
        }
        r
    }
}


/// A scheduled pass is justified when it writes the target node, or when it writes a node that a
/// scheduled pass after it reads.
pub open spec fn justified(
    cache: &AccessCache,
    node: int,
    end: int,
    unscheduled: Seq<bool>,
    p: int,
) -> bool {
    cache.writes(p, node) || exists|q: int, n: usize|
        0 <= q < end && !#[trigger] unscheduled[q] && #[trigger] cache.reads(q).contains(n) && p
            < q && cache.writes(p, n as int)
}

/// Justification survives the scheduling of further passes.
proof fn lemma_justified_mono(
    cache: &AccessCache,
    node: int,
    end: int,
    u1: Seq<bool>,
    u2: Seq<bool>,
    p: int,
)
    requires
        u1.len() == u2.len(),
        forall|q: int| 0 <= q < u1.len() && !u1[q] ==> !#[trigger] u2[q],
        u1.len() == end,
        justified(cache, node, end, u1, p),
    ensures
        justified(cache, node, end, u2, p),
{
    if !cache.writes(p, node) {
        let (q, n) = choose|q: int, n: usize|
            0 <= q < end && !#[trigger] u1[q] && #[trigger] cache.reads(q).contains(n) && p < q
                && cache.writes(p, n as int);
        assert(!u2[q]);
        assert(cache.reads(q).contains(n));
    }
}

/// A sequence of distinct values below `bound` is no longer than `bound`.
proof fn lemma_distinct_bounded(s: Seq<usize>, bound: nat)
    requires
        s.no_duplicates(),
        forall|i: int| 0 <= i < s.len() ==> #[trigger] s[i] < bound,
    ensures
        s.len() <= bound,
{
    let t = s.map_values(|x: usize| x as int);
    assert(t.no_duplicates()) by {
        assert forall|i: int, j: int| 0 <= i < t.len() && 0 <= j < t.len() && i != j implies t[i]
            != t[j] by {
            assert(s[i] != s[j]);
        }
    }
    t.unique_seq_to_set();
    vstd::set_lib::lemma_int_range(0, bound as int);
    assert(t.to_set().subset_of(vstd::set_lib::set_int_range(0, bound as int))) by {
        assert forall|x: int| t.to_set().contains(x) implies vstd::set_lib::set_int_range(
            0,
            bound as int,
        ).contains(x) by {
            let i = choose|i: int| 0 <= i < t.len() && t[i] == x;
            assert(s[i] < bound);
        }
    }
    vstd::set_lib::lemma_len_subset(t.to_set(), vstd::set_lib::set_int_range(0, bound as int));
}

/// The state of the breadth-first search that schedules the passes a node depends upon.
pub open spec fn search_inv(
    cache: &AccessCache,
    node: usize,
    end: int,
    unscheduled: Seq<bool>,
    unresolved: Seq<bool>,
    queue: Seq<(usize, usize)>,
    head: int,
) -> bool {
    &&& cache.wf()
    &&& end <= cache.pass_count()
    &&& unscheduled.len() == end
    &&& unresolved.len() == cache.binding_count()
    &&& node < cache.binding_count()
    &&& !unresolved[node as int]
    &&& 0 <= head <= queue.len()
    &&& forall|j: int|
        0 <= j < queue.len() ==> {
            let e = #[trigger] queue[j];
            &&& e.0 < cache.binding_count()
            &&& e.0 != node
            &&& e.1 < end
            &&& !unscheduled[e.1 as int]
            &&& cache.reads(e.1 as int).contains(e.0)
            &&& !unresolved[e.0 as int]
        }
    &&& forall|n: int|
        0 <= n < cache.binding_count() && !#[trigger] unresolved[n] ==> n == node || exists|j: int|
            0 <= j < queue.len() && #[trigger] queue[j].0 == n
    &&& forall|i: int, j: int| 0 <= i < j < queue.len() ==> #[trigger] queue[i].0 != #[trigger] queue[j].0
    &&& forall|p: int|
        0 <= p < end && !#[trigger] unscheduled[p] ==> justified(cache, node as int, end, unscheduled, p)
    &&& forall|q: int, k: int|
        0 <= q < end && !unscheduled[q] && 0 <= k < cache.reads(q).len() ==> !#[trigger] unresolved[cache.reads(
            q,
        )[k] as int]
    &&& forall|j: int, p: int|
        0 <= j < head && 0 <= p <= queue[j].1 && #[trigger] cache.writes(p, queue[j].0 as int)
            ==> !#[trigger] unscheduled[p]
}

/// The queue of a search is never longer than the number of nodes.
/// The state of the search for the passes a node depends upon: which passes are not scheduled
/// yet, which nodes are not resolved yet, and the queue of resolved nodes, each with the pass
/// through which the search met it.
#[verifier::ext_equal]
pub struct SearchState {
    /// Whether each pass is still unscheduled.
    pub unscheduled: Seq<bool>,
    /// Whether each node is still unresolved.
    pub unresolved: Seq<bool>,
    /// The nodes met, in order, each with the pass that reads it.
    pub queue: Seq<(usize, usize)>,
}

/// The state as the search for `node` below `end` begins: nothing scheduled, every node but
/// `node` unresolved, nothing queued.
pub open spec fn initial_search(cache: &AccessCache, node: usize, end: int) -> SearchState {
    SearchState {
        unscheduled: Seq::new(end as nat, |x: int| true),
        unresolved: Seq::new(cache.binding_count(), |x: int| true).update(node as int, false),
        queue: seq![],
    }
}

/// The state once the nodes `reads`, read by pass `p`, are met in order: each one still
/// unresolved is resolved and queued with `p`.
pub open spec fn resolve_reads(st: SearchState, reads: Seq<usize>, p: usize) -> SearchState
    decreases reads.len(),
{
    if reads.len() == 0 {
        st
    } else {
        let st1 = resolve_reads(st, reads.drop_last(), p);
        let n = reads.last();
        if st1.unresolved[n as int] {
            SearchState {
                unscheduled: st1.unscheduled,
                unresolved: st1.unresolved.update(n as int, false),
                queue: st1.queue.push((n, p)),
            }
        } else {
            st1
        }
    }
}

/// The state once pass `p` is scheduled: the nodes it reads are met.
pub open spec fn schedule_one(cache: &AccessCache, st: SearchState, p: usize) -> SearchState {
    resolve_reads(
        SearchState { unscheduled: st.unscheduled.update(p as int, false), unresolved: st.unresolved, queue: st.queue },
        cache.reads(p as int),
        p,
    )
}

/// The state once each of the passes, in order, is scheduled where it is not yet.
pub open spec fn schedule_each(cache: &AccessCache, st: SearchState, passes: Seq<usize>) -> SearchState
    decreases passes.len(),
{
    if passes.len() == 0 {
        st
    } else {
        let st1 = schedule_each(cache, st, passes.drop_last());
        let p = passes.last();
        if st1.unscheduled[p as int] { schedule_one(cache, st1, p) } else { st1 }
    }
}

/// The breadth first search from the queue entry `head` on: for each queued node, with the pass
/// through which it was met, the passes up to that pass which write the node are scheduled, the
/// newest first. `fuel` bounds the steps; the queue never holds more entries than there are
/// nodes.
pub open spec fn search_from(cache: &AccessCache, st: SearchState, head: nat, fuel: nat) -> SearchState
    decreases fuel,
{
    if fuel == 0 || head >= st.queue.len() {
        st
    } else {
        let (n, q) = st.queue[head as int];
        search_from(cache, schedule_each(cache, st, cache.writers(n as int, q + 1)), head + 1, (fuel - 1) as nat)
    }
}

/// The indexes below `k` of the passes marked scheduled, in increasing order.
pub open spec fn scheduled_below(unscheduled: Seq<bool>, k: int) -> Seq<usize>
    decreases k,
{
    if k <= 0 {
        seq![]
    } else if !unscheduled[k - 1] {
        scheduled_below(unscheduled, k - 1).push((k - 1) as usize)
    } else {
        scheduled_below(unscheduled, k - 1)
    }
}

/// The passes below `end` scheduled for `node`, in increasing order: the passes writing the node
/// are scheduled, the newest first; then, breadth first, each node a scheduled pass reads is
/// resolved the first time the search meets it, through that pass, and the passes up to that
/// pass which write it are scheduled.
pub open spec fn scheduled_for(cache: &AccessCache, node: usize, end: int) -> Seq<usize> {
    let first = schedule_each(cache, initial_search(cache, node, end), cache.writers(node as int, end));
    scheduled_below(search_from(cache, first, 0, cache.binding_count()).unscheduled, end)
}

proof fn lemma_queue_bounded(
    cache: &AccessCache,
    node: usize,
    end: int,
    unscheduled: Seq<bool>,
    unresolved: Seq<bool>,
    queue: Seq<(usize, usize)>,
    head: int,
)
    requires
        search_inv(cache, node, end, unscheduled, unresolved, queue, head),
    ensures
        queue.len() <= cache.binding_count(),
{
    let s = queue.map_values(|e: (usize, usize)| e.0);
    assert forall|i: int, j: int| 0 <= i < s.len() && 0 <= j < s.len() && i != j implies s[i]
        != s[j] by {
        if i < j {
            assert(queue[i].0 != queue[j].0);
        } else {
            assert(queue[j].0 != queue[i].0);
        }
    }
    assert forall|i: int| 0 <= i < s.len() implies #[trigger] s[i] < cache.binding_count() by {
        assert(queue[i].0 < cache.binding_count());
    }
    lemma_distinct_bounded(s, cache.binding_count());
}

/// Schedules pass `p`, queueing the nodes it reads that are not yet resolved.
fn schedule_pass(
    cache: &AccessCache,
    node: usize,
    end: usize,
    p: usize,
    unscheduled: &mut Vec<bool>,
    unresolved: &mut Vec<bool>,
    queue: &mut Vec<(usize, usize)>,
    head: usize,
)
    requires
        search_inv(cache, node, end as int, old(unscheduled)@, old(unresolved)@, old(queue)@, head as int),
        p < end,
        old(unscheduled)@[p as int],
        justified(cache, node as int, end as int, old(unscheduled)@, p as int),
    ensures
        search_inv(cache, node, end as int, final(unscheduled)@, final(unresolved)@, final(queue)@, head as int),
        final(unscheduled)@ == old(unscheduled)@.update(p as int, false),
        old(queue)@.len() <= final(queue)@.len(),
        forall|j: int| 0 <= j < old(queue)@.len() ==> #[trigger] final(queue)@[j] == old(queue)@[j],
        (SearchState { unscheduled: final(unscheduled)@, unresolved: final(unresolved)@, queue: final(queue)@ })
            == schedule_one(
            cache,
            SearchState { unscheduled: old(unscheduled)@, unresolved: old(unresolved)@, queue: old(queue)@ },
            p,
        ),
{
    let ghost u0 = unscheduled@;
    let ghost r0 = unresolved@;
    unscheduled.set(p, false);
    proof {
        assert forall|q: int| 0 <= q < end && !#[trigger] unscheduled@[q] implies justified(
            cache,
            node as int,
            end as int,
            unscheduled@,
            q,
        ) by {
            lemma_justified_mono(cache, node as int, end as int, u0, unscheduled@, q);
        }
    }
    let reads = cache.dependent_nodes(p);
    let ghost q0 = queue@;
    let mut i: usize = 0;
    while i < reads.len()
        invariant
            cache.wf(),
            end <= cache.pass_count(),
            p < end,
            reads@ == cache.reads(p as int),
            i <= reads@.len(),
            (SearchState { unscheduled: unscheduled@, unresolved: unresolved@, queue: queue@ }) == resolve_reads(
                SearchState { unscheduled: u0.update(p as int, false), unresolved: r0, queue: q0 },
                reads@.take(i as int),
                p,
            ),
            unscheduled@ == u0.update(p as int, false),
            u0.len() == end,
            unscheduled@.len() == end,
            unresolved@.len() == cache.binding_count(),
            node < cache.binding_count(),
            !unresolved@[node as int],
            head <= q0.len() <= queue@.len(),
            forall|j: int| 0 <= j < q0.len() ==> #[trigger] queue@[j] == q0[j],
            forall|j: int|
                0 <= j < queue@.len() ==> {
                    let e = #[trigger] queue@[j];
                    &&& e.0 < cache.binding_count()
                    &&& e.0 != node
                    &&& e.1 < end
                    &&& !unscheduled@[e.1 as int]
                    &&& cache.reads(e.1 as int).contains(e.0)
                    &&& !unresolved@[e.0 as int]
                },
            forall|n: int|
                0 <= n < cache.binding_count() && !#[trigger] unresolved@[n] ==> n == node || exists|
                    j: int,
                |
                    0 <= j < queue@.len() && #[trigger] queue@[j].0 == n,
            forall|a: int, b: int|
                0 <= a < b < queue@.len() ==> #[trigger] queue@[a].0 != #[trigger] queue@[b].0,
            forall|q: int|
                0 <= q < end && !#[trigger] unscheduled@[q] ==> justified(
                    cache,
                    node as int,
                    end as int,
                    unscheduled@,
                    q,
                ),
            forall|q: int, k: int|
                0 <= q < end && q != p && !unscheduled@[q] && 0 <= k < cache.reads(q).len()
                    ==> !#[trigger] unresolved@[cache.reads(q)[k] as int],
            forall|k: int| 0 <= k < i ==> !#[trigger] unresolved@[reads@[k] as int],
            forall|j: int, x: int|
                0 <= j < head && 0 <= x <= queue@[j].1 && #[trigger] cache.writes(
                    x,
                    queue@[j].0 as int,
                ) ==> !#[trigger] unscheduled@[x],
        decreases reads@.len() - i,
    {
        let n = reads[i];
        proof {
            assert(cache.reads(p as int)[i as int] < cache.binding_count());
            assert(reads@.take(i + 1).drop_last() == reads@.take(i as int));
            assert(reads@.take(i + 1).last() == n);
        }
        if unresolved[n] {
            let ghost qb = queue@;
            let ghost ub = unresolved@;
            unresolved.set(n, false);
            queue.push((n, p));
            proof {
                assert(cache.reads(p as int).contains(n)) by {
                    assert(cache.reads(p as int)[i as int] == n);
                }
                assert forall|a: int, b: int| 0 <= a < b < queue@.len() implies #[trigger] queue@[a].0
                    != #[trigger] queue@[b].0 by {
                    if b == queue@.len() - 1 {
                        assert(qb[a] == queue@[a]);
                        assert(!ub[qb[a].0 as int]);
                    } else {
                        assert(qb[a] == queue@[a] && qb[b] == queue@[b]);
                    }
                }
                assert forall|m: int|
                    0 <= m < cache.binding_count() && !#[trigger] unresolved@[m] implies m == node
                    || exists|j: int| 0 <= j < queue@.len() && #[trigger] queue@[j].0 == m by {
                    if m == n {
                        assert(queue@[queue@.len() - 1].0 == m);
                    } else {
                        assert(!ub[m]);
                        if m != node {
                            let j = choose|j: int| 0 <= j < qb.len() && #[trigger] qb[j].0 == m;
                            assert(queue@[j] == qb[j]);
                        }
                    }
                }
                assert forall|j: int, x: int|
                    0 <= j < head && 0 <= x <= queue@[j].1 && #[trigger] cache.writes(
                        x,
                        queue@[j].0 as int,
                    ) implies !#[trigger] unscheduled@[x] by {
                    assert(queue@[j] == qb[j]);
                }
                assert forall|j: int| 0 <= j < q0.len() implies #[trigger] queue@[j] == q0[j] by {
                    assert(qb[j] == q0[j]);
                }
                assert forall|j: int| 0 <= j < queue@.len() implies {
                    let e = #[trigger] queue@[j];
                    &&& e.0 < cache.binding_count()
                    &&& e.0 != node
                    &&& e.1 < end
                    &&& !unscheduled@[e.1 as int]
                    &&& cache.reads(e.1 as int).contains(e.0)
                    &&& !unresolved@[e.0 as int]
                } by {
                    if j < qb.len() {
                        let e = qb[j];
                        assert(queue@[j] == e);
                        assert(!ub[e.0 as int]);
                        assert(e.0 != n);
                        assert(e.0 < cache.binding_count());
                        assert(e.0 != node);
                        assert(e.1 < end);
                        assert(!unscheduled@[e.1 as int]);
                        assert(cache.reads(e.1 as int).contains(e.0));
                        assert(!unresolved@[e.0 as int]);
                    } else {
                        assert(queue@[j] == (n, p));
                        assert(n != node);
                        assert(!unscheduled@[p as int]);
                        assert(!unresolved@[n as int]);
                    }
                }
            }
        }
        i = i + 1;
    }
    proof {
        assert(reads@.take(reads@.len() as int) == reads@);
    }
}

/// Returns the passes before `end_pass_idx`, in increasing order, which must run for the given
/// node to be resolved: every pass that writes the node, then, breadth first, for each node read
/// by a scheduled pass (the first time that node is met), every pass up to that reading pass which
/// writes it. A pass is only ever scheduled for a later pass that reads what it writes.
pub fn schedule_node_passes(cache: &AccessCache, node_idx: usize, end_pass_idx: usize) -> (r: Vec<usize>)
    requires
        cache.wf(),
        node_idx < cache.binding_count(),
        end_pass_idx <= cache.pass_count(),
    ensures
        forall|i: int, j: int| 0 <= i < j < r@.len() ==> #[trigger] r@[i] < #[trigger] r@[j],
        forall|i: int| 0 <= i < r@.len() ==> #[trigger] r@[i] < end_pass_idx,
        forall|p: int|
            0 <= p < end_pass_idx && cache.writes(p, node_idx as int) ==> #[trigger] r@.contains(
                p as usize,
            ),
        forall|p: usize|
            #[trigger] r@.contains(p) ==> cache.writes(p as int, node_idx as int) || exists|
                q: usize,
                n: usize,
            |
                #[trigger] r@.contains(q) && #[trigger] cache.reads(q as int).contains(n) && p < q
                    && cache.writes(p as int, n as int),
        forall|q: usize, n: usize|
            #[trigger] r@.contains(q) && #[trigger] cache.reads(q as int).contains(n) ==> exists|
                q2: usize,
            |
                #[trigger] r@.contains(q2) && cache.reads(q2 as int).contains(n) && forall|x: int|
                    0 <= x <= q2 && #[trigger] cache.writes(x, n as int) ==> r@.contains(
                        x as usize,
                    ),
        r@ == scheduled_for(cache, node_idx, end_pass_idx as int),
{
    let mut unscheduled: Vec<bool> = Vec::new();
    let mut k: usize = 0;
    while k < end_pass_idx
        invariant
            k <= end_pass_idx,
            unscheduled@.len() == k,
            forall|x: int| 0 <= x < k ==> #[trigger] unscheduled@[x],
        decreases end_pass_idx - k,
    {
        unscheduled.push(true);
        k = k + 1;
    }
    let mut unresolved: Vec<bool> = Vec::new();
    k = 0;
    while k < cache.binding_count
        invariant
            k <= cache.binding_count(),
            cache.binding_count == cache.binding_count(),
            unresolved@.len() == k,
            forall|x: int| 0 <= x < k ==> #[trigger] unresolved@[x],
        decreases cache.binding_count() - k,
    {
        unresolved.push(true);
        k = k + 1;
    }
    proof {
        assert(unscheduled@ =~= Seq::new(end_pass_idx as nat, |x: int| true));
        assert(unresolved@ =~= Seq::new(cache.binding_count(), |x: int| true));
    }
    unresolved.set(node_idx, false);
    let mut queue: Vec<(usize, usize)> = Vec::new();
    let ghost init = initial_search(cache, node_idx, end_pass_idx as int);
    proof {
        assert((SearchState { unscheduled: unscheduled@, unresolved: unresolved@, queue: queue@ }) == init);
        assert forall|n: int|
            0 <= n < cache.binding_count() && !#[trigger] unresolved@[n] implies n == node_idx
            || exists|j: int| 0 <= j < queue@.len() && #[trigger] queue@[j].0 == n by {
            if n != node_idx {
                assert(unresolved@[n]);
            }
        }
    }
    // Schedule every pass that writes the node itself.
    let direct = cache.dependent_passes(node_idx, end_pass_idx);
    proof {
        cache.lemma_writers_from(node_idx as int, 0, end_pass_idx as int);
    }
    let mut i: usize = 0;
    while i < direct.len()
        invariant
            search_inv(cache, node_idx, end_pass_idx as int, unscheduled@, unresolved@, queue@, 0),
            direct@ == cache.writers(node_idx as int, end_pass_idx as int),
            forall|k: int|
                0 <= k < direct@.len() ==> 0 <= #[trigger] direct@[k] < end_pass_idx
                    && cache.writes(direct@[k] as int, node_idx as int),
            forall|p: int|
                0 <= p < end_pass_idx && cache.writes(p, node_idx as int) ==> #[trigger] direct@.contains(
                    p as usize,
                ),
            forall|a: int, b: int|
                0 <= a < b < direct@.len() ==> #[trigger] direct@[a] > #[trigger] direct@[b],
            i <= direct@.len(),
            forall|k: int| 0 <= k < direct@.len() ==> (#[trigger] unscheduled@[direct@[k] as int] <==> k >= i),
            init == initial_search(cache, node_idx, end_pass_idx as int),
            (SearchState { unscheduled: unscheduled@, unresolved: unresolved@, queue: queue@ })
                == schedule_each(cache, init, direct@.take(i as int)),
        decreases direct@.len() - i,
    {
        let p = direct[i];
        let ghost ub = unscheduled@;
        proof {
            assert(direct@.take(i + 1).drop_last() == direct@.take(i as int));
            assert(direct@.take(i + 1).last() == p);
            assert(unscheduled@[direct@[i as int] as int]);
        }
        schedule_pass(cache, node_idx, end_pass_idx, p, &mut unscheduled, &mut unresolved, &mut queue, 0);
        proof {
            assert forall|k: int| 0 <= k < direct@.len() implies (#[trigger] unscheduled@[direct@[k] as int]
                <==> k >= i + 1) by {
                if k != i {
                    assert(direct@[k] != direct@[i as int]);
                    assert(unscheduled@[direct@[k] as int] == ub[direct@[k] as int]);
                }
            }
        }
        i = i + 1;
    }
    proof {
        assert forall|p: int|
            0 <= p < end_pass_idx && cache.writes(p, node_idx as int) implies !#[trigger] unscheduled@[p] by {
            assert(direct@.contains(p as usize));
            let k = choose|k: int| 0 <= k < direct@.len() && direct@[k] == p as usize;
            assert(!unscheduled@[direct@[k] as int]);
        }
    }
    let ghost first = SearchState { unscheduled: unscheduled@, unresolved: unresolved@, queue: queue@ };
    proof {
        assert(direct@.take(direct@.len() as int) == direct@);
        assert(first == schedule_each(cache, init, cache.writers(node_idx as int, end_pass_idx as int)));
        lemma_queue_bounded(cache, node_idx, end_pass_idx as int, unscheduled@, unresolved@, queue@, 0);
    }
    // Breadth first, schedule the passes which the nodes read by scheduled passes depend upon.
    let mut head: usize = 0;
    while head < queue.len()
        invariant
            search_inv(cache, node_idx, end_pass_idx as int, unscheduled@, unresolved@, queue@, head as int),
            forall|p: int|
                0 <= p < end_pass_idx && cache.writes(p, node_idx as int) ==> !#[trigger] unscheduled@[p],
            queue@.len() <= cache.binding_count(),
            search_from(
                cache,
                SearchState { unscheduled: unscheduled@, unresolved: unresolved@, queue: queue@ },
                head as nat,
                (cache.binding_count() - head) as nat,
            ) == search_from(cache, first, 0, cache.binding_count()),
        decreases 2 * cache.binding_count() - queue@.len() - head,
    {
        proof {
            lemma_queue_bounded(cache, node_idx, end_pass_idx as int, unscheduled@, unresolved@, queue@, head as int);
        }
        let (n, q) = queue[head];
        proof {
            assert(queue@[head as int] == (n, q));
        }
        let deps = cache.dependent_passes(n, q + 1);
        proof {
            cache.lemma_writers_from(n as int, 0, q + 1);
        }
        let ghost qh = queue@;
        let ghost sb = SearchState { unscheduled: unscheduled@, unresolved: unresolved@, queue: queue@ };
        let mut j: usize = 0;
        while j < deps.len()
            invariant
                search_inv(cache, node_idx, end_pass_idx as int, unscheduled@, unresolved@, queue@, head as int),
                forall|p: int|
                    0 <= p < end_pass_idx && cache.writes(p, node_idx as int) ==> !#[trigger] unscheduled@[p],
                head < qh.len() <= queue@.len(),
                forall|x: int| 0 <= x < qh.len() ==> #[trigger] queue@[x] == qh[x],
                qh[head as int] == (n, q),
                q < end_pass_idx,
                deps@ == cache.writers(n as int, q + 1),
                forall|k: int|
                    0 <= k < deps@.len() ==> 0 <= #[trigger] deps@[k] < q + 1 && cache.writes(
                        deps@[k] as int,
                        n as int,
                    ),
                forall|x: int|
                    0 <= x < q + 1 && cache.writes(x, n as int) ==> #[trigger] deps@.contains(x as usize),
                j <= deps@.len(),
                forall|k: int| 0 <= k < j ==> !#[trigger] unscheduled@[deps@[k] as int],
                (SearchState { unscheduled: unscheduled@, unresolved: unresolved@, queue: queue@ })
                    == schedule_each(cache, sb, deps@.take(j as int)),
            decreases deps@.len() - j,
        {
            let p = deps[j];
            proof {
                assert(deps@.take(j + 1).drop_last() == deps@.take(j as int));
                assert(deps@.take(j + 1).last() == p);
            }
            if unscheduled[p] {
                let ghost ub = unscheduled@;
                proof {
                    assert(queue@[head as int] == (n, q));
                    assert(cache.reads(q as int).contains(n));
                    assert(!ub[q as int]);
                    assert(p != q);
                    assert(justified(cache, node_idx as int, end_pass_idx as int, ub, p as int));
                }
                schedule_pass(cache, node_idx, end_pass_idx, p, &mut unscheduled, &mut unresolved, &mut queue, head);
                proof {
                    assert forall|k: int| 0 <= k < j + 1 implies !#[trigger] unscheduled@[deps@[k] as int] by {
                        if k < j {
                            assert(!ub[deps@[k] as int]);
                        }
                    }
                }
            }
            j = j + 1;
        }
        proof {
            assert forall|jj: int, x: int|
                0 <= jj < head + 1 && 0 <= x <= queue@[jj].1 && #[trigger] cache.writes(
                    x,
                    queue@[jj].0 as int,
                ) implies !#[trigger] unscheduled@[x] by {
                if jj == head {
                    assert(queue@[jj] == (n, q));
                    assert(deps@.contains(x as usize));
                    let k = choose|k: int| 0 <= k < deps@.len() && deps@[k] == x as usize;
                    assert(!unscheduled@[deps@[k] as int]);
                }
            }
        }
        proof {
            assert(deps@.take(deps@.len() as int) == deps@);
            assert(sb.queue[head as int] == (n, q));
            assert(head < cache.binding_count());
            assert(search_from(cache, sb, head as nat, (cache.binding_count() - head) as nat) == search_from(
                cache,
                schedule_each(cache, sb, cache.writers(n as int, q + 1)),
                (head + 1) as nat,
                (cache.binding_count() - head - 1) as nat,
            ));
        }
        head = head + 1;
        proof {
            lemma_queue_bounded(cache, node_idx, end_pass_idx as int, unscheduled@, unresolved@, queue@, head as int);
        }
    }
    let ghost fin = unscheduled@;
    proof {
        assert(search_from(
            cache,
            SearchState { unscheduled: unscheduled@, unresolved: unresolved@, queue: queue@ },
            head as nat,
            (cache.binding_count() - head) as nat,
        ) == SearchState { unscheduled: unscheduled@, unresolved: unresolved@, queue: queue@ });
        assert(fin == search_from(cache, first, 0, cache.binding_count()).unscheduled);
    }
    // The scheduled passes, in increasing order.
    let mut r: Vec<usize> = Vec::new();
    let mut p: usize = 0;
    while p < end_pass_idx
        invariant
            p <= end_pass_idx,
            unscheduled@.len() == end_pass_idx,
            forall|i: int, j: int| 0 <= i < j < r@.len() ==> #[trigger] r@[i] < #[trigger] r@[j],
            forall|i: int| 0 <= i < r@.len() ==> #[trigger] r@[i] < p,
            forall|x: usize| #[trigger] r@.contains(x) <==> x < p && !unscheduled@[x as int],
            unscheduled@ == fin,
            r@ == scheduled_below(fin, p as int),
        decreases end_pass_idx - p,
    {
        if !unscheduled[p] {
            let ghost rb = r@;
            r.push(p);
            proof {
                assert forall|x: usize| #[trigger] r@.contains(x) <==> x < p + 1 && !unscheduled@[x as int] by {
                    if x == p {
                        assert(r@[r@.len() - 1] == x);
                    } else if r@.contains(x) {
                        let k = choose|k: int| 0 <= k < r@.len() && r@[k] == x;
                        assert(k < rb.len());
                        assert(rb[k] == x);
                        assert(rb.contains(x));
                    } else if x < p && !unscheduled@[x as int] {
                        assert(rb.contains(x));
                        let k = choose|k: int| 0 <= k < rb.len() && rb[k] == x;
                        assert(r@[k] == x);
                    }
                }
            }
        } else {
            proof {
                assert forall|x: usize| #[trigger] r@.contains(x) <==> x < p + 1 && !unscheduled@[x as int] by {
                    if x == p && r@.contains(x) {
                        let k = choose|k: int| 0 <= k < r@.len() && r@[k] == x;
                        assert(r@[k] < p);
                    }
                }
            }
        }
        p = p + 1;
    }
    proof {
        let ghost u = unscheduled@;
        assert forall|p: usize| #[trigger] r@.contains(p) implies cache.writes(p as int, node_idx as int)
            || exists|q: usize, n: usize|
            #[trigger] r@.contains(q) && #[trigger] cache.reads(q as int).contains(n) && p < q
                && cache.writes(p as int, n as int) by {
            assert(justified(cache, node_idx as int, end_pass_idx as int, u, p as int));
            if !cache.writes(p as int, node_idx as int) {
                let (q, n) = choose|q: int, n: usize|
                    0 <= q < end_pass_idx && !#[trigger] u[q] && #[trigger] cache.reads(q).contains(n)
                        && p < q && cache.writes(p as int, n as int);
                assert(r@.contains(q as usize));
                assert(cache.reads((q as usize) as int).contains(n));
            }
        }
        assert forall|q: usize, n: usize|
            #[trigger] r@.contains(q) && #[trigger] cache.reads(q as int).contains(n) implies exists|
            q2: usize,
        |
            #[trigger] r@.contains(q2) && cache.reads(q2 as int).contains(n) && forall|x: int|
                0 <= x <= q2 && #[trigger] cache.writes(x, n as int) ==> r@.contains(x as usize) by {
            let k = choose|k: int| 0 <= k < cache.reads(q as int).len() && cache.reads(q as int)[k] == n;
            assert(!u[q as int]);
            assert(!unresolved@[cache.reads(q as int)[k] as int]);
            assert(n < cache.binding_count());
            if n == node_idx {
                assert forall|x: int| 0 <= x <= q && #[trigger] cache.writes(x, n as int) implies r@.contains(
                    x as usize,
                ) by {
                    assert(!u[x]);
                }
            } else {
                let j = choose|j: int| 0 <= j < queue@.len() && #[trigger] queue@[j].0 == n as int;
                let e = queue@[j];
                assert(r@.contains(e.1));
                assert forall|x: int| 0 <= x <= e.1 && #[trigger] cache.writes(x, n as int) implies r@.contains(
                    x as usize,
                ) by {
                    assert(!u[x]);
                }
            }
        }
    }
    r
}


/// Swaps two elements of a vector.
fn swap_passes(v: &mut Vec<usize>, a: usize, b: usize)
    requires
        a < old(v)@.len(),
        b < old(v)@.len(),
    ensures
        final(v)@ == old(v)@.update(a as int, old(v)@[b as int]).update(b as int, old(v)@[a as int]),
        final(v)@.to_multiset() == old(v)@.to_multiset(),
{
    broadcast use vstd::seq_lib::to_multiset_update;
    broadcast use vstd::multiset::group_multiset_properties;

    let x = v[a];
    let y = v[b];
    let ghost s0 = v@;
    v.set(a, y);
    let ghost s1 = v@;
    v.set(b, x);
    proof {
        vstd::seq_lib::to_multiset_update(s0, a as int, y);
        vstd::seq_lib::to_multiset_update(s1, b as int, x);
        assert(s1[b as int] == y);
        assert(s0.to_multiset().count(x) > 0) by {
            vstd::seq_lib::to_multiset_contains(s0, x);
            assert(s0.contains(x)) by { assert(s0[a as int] == x); }
        }
        assert(v@.to_multiset() =~= s0.to_multiset());
    }
}

/// How many of the leading passes of `others` have been placed.
pub open spec fn leading_placed(others: Seq<usize>, placed: Seq<usize>) -> nat
    decreases others.len(),
{
    if others.len() == 0 {
        0
    } else if placed.contains(others[0]) {
        1 + leading_placed(others.drop_first(), placed)
    } else {
        0
    }
}

/// The overlap factor of a candidate pass: how many of its interdependent passes, in order, have
/// been placed before the first one that has not.
pub open spec fn overlap_factor(cache: &AccessCache, pass: usize, placed: Seq<usize>, end: int) -> nat {
    leading_placed(cache.interdependents(pass as int, end), placed)
}

/// The choice made at position `at` of the schedule `s` after looking at the first `k`
/// candidates that follow it: the chosen index and the overlap factor to beat. It starts at
/// position `at` itself, whose factor is the number of all its interdependent passes. A
/// candidate whose factor beats the current one advances the chosen index by its offset from
/// `at`, unless that would pass the end of the schedule.
pub open spec fn reorder_pick(cache: &AccessCache, s: Seq<usize>, at: int, end: int, k: int) -> (int, int)
    decreases k,
{
    if k <= 0 {
        (at, cache.interdependents(s[at] as int, end).len() as int)
    } else {
        let (best, factor) = reorder_pick(cache, s, at, end, k - 1);
        let candidate = overlap_factor(cache, s[at + k], s.take(at), end) as int;
        if candidate > factor && best < s.len() - k {
            (best + k, candidate)
        } else {
            (best, factor)
        }
    }
}

/// The schedule `s` once positions `at` and onwards are filled in turn: each position takes the
/// pass chosen by `reorder_pick` over every candidate after it, swapping places with it.
pub open spec fn reorder_from(cache: &AccessCache, s: Seq<usize>, at: int, end: int) -> Seq<usize>
    decreases s.len() - at,
{
    if at < 0 || at >= s.len() {
        s
    } else {
        let best = reorder_pick(cache, s, at, end, s.len() - at - 1).0;
        let next = if at <= best < s.len() { s.update(at, s[best]).update(best, s[at]) } else { s };
        reorder_from(cache, next, at + 1, end)
    }
}

/// Whether, among the first `k` candidates at position `at`, one that beats the current choice
/// would advance the chosen index past the end of the schedule.
pub open spec fn pick_overruns(cache: &AccessCache, s: Seq<usize>, at: int, end: int, k: int) -> bool
    decreases k,
{
    if k <= 0 {
        false
    } else {
        let (best, factor) = reorder_pick(cache, s, at, end, k - 1);
        let candidate = overlap_factor(cache, s[at + k], s.take(at), end) as int;
        pick_overruns(cache, s, at, end, k - 1) || (candidate > factor && best >= s.len() - k)
    }
}

/// Whether filling positions `at` and onwards of the schedule would, in some round, advance the
/// chosen index past the end of the schedule.
pub open spec fn reorder_overruns(cache: &AccessCache, s: Seq<usize>, at: int, end: int) -> bool
    decreases s.len() - at,
{
    if at < 0 || at >= s.len() {
        false
    } else {
        let best = reorder_pick(cache, s, at, end, s.len() - at - 1).0;
        let next = if at <= best < s.len() { s.update(at, s[best]).update(best, s[at]) } else { s };
        pick_overruns(cache, s, at, end, s.len() - at - 1) || reorder_overruns(cache, next, at + 1, end)
    }
}

/// The chosen index stays within the part of the schedule not yet placed.
proof fn lemma_reorder_pick_bounds(cache: &AccessCache, s: Seq<usize>, at: int, end: int, k: int)
    requires
        0 <= at < s.len(),
        0 <= k < s.len() - at,
    ensures
        at <= reorder_pick(cache, s, at, end, k).0 < s.len(),
    decreases k,
{
    if k > 0 {
        lemma_reorder_pick_bounds(cache, s, at, end, k - 1);
    }
}

/// The leading placed passes are counted exactly.
proof fn lemma_leading_placed(others: Seq<usize>, placed: Seq<usize>, n: int)
    requires
        0 <= n <= others.len(),
        forall|j: int| 0 <= j < n ==> placed.contains(#[trigger] others[j]),
        n == others.len() || !placed.contains(others[n]),
    ensures
        leading_placed(others, placed) == n,
    decreases n,
{
    if n > 0 {
        let rest = others.drop_first();
        assert forall|j: int| 0 <= j < n - 1 implies placed.contains(#[trigger] rest[j]) by {
            assert(rest[j] == others[j + 1]);
        }
        if n - 1 < rest.len() {
            assert(rest[n - 1] == others[n]);
        }
        lemma_leading_placed(rest, placed, n - 1);
        assert(placed.contains(others[0]));
    }
}

/// Re-orders scheduled passes to put distance between passes and the work they depend upon.
///
/// Schedules of fewer than three passes are left as they are. Otherwise, position by position,
/// a pass among the remaining ones is swapped into place, as `reorder_from` describes: a
/// candidate is preferred by its overlap factor, which counts its interdependent passes up to
/// the first one not yet placed. When several candidates improve upon one another in a single
/// round the chosen index advances by the sum of their offsets; schedules on which such an
/// advance would pass the end of the schedule leave the chosen index out of range, and are not
/// accepted.
pub fn reorder_scheduled_passes(cache: &AccessCache, passes: &mut Vec<usize>, end_pass_idx: usize)
    requires
        cache.wf(),
        end_pass_idx <= cache.pass_count(),
        forall|k: int| 0 <= k < old(passes)@.len() ==> #[trigger] old(passes)@[k] < end_pass_idx,
        old(passes)@.len() >= 3 ==> !reorder_overruns(cache, old(passes)@, 0, end_pass_idx as int),
    ensures
        final(passes)@.len() == old(passes)@.len(),
        final(passes)@.to_multiset() == old(passes)@.to_multiset(),
        old(passes)@.len() < 3 ==> final(passes)@ == old(passes)@,
        old(passes)@.len() >= 3 ==> final(passes)@ == reorder_from(cache, old(passes)@, 0, end_pass_idx as int),
{
    if passes.len() < 3 {
        return;
    }
    let mut unscheduled: Vec<bool> = Vec::new();
    let mut k: usize = 0;
    while k < end_pass_idx
        invariant
            k <= end_pass_idx,
            unscheduled@.len() == k,
            forall|x: int| 0 <= x < k ==> #[trigger] unscheduled@[x],
        decreases end_pass_idx - k,
    {
        unscheduled.push(true);
        k = k + 1;
    }
    let ghost orig = passes@;
    let ghost end = end_pass_idx as int;
    let mut scheduled: usize = 0;
    assert(passes@.take(0) == Seq::<usize>::empty());
    while scheduled < passes.len()
        invariant
            cache.wf(),
            end_pass_idx <= cache.pass_count(),
            end == end_pass_idx,
            unscheduled@.len() == end_pass_idx,
            orig == old(passes)@,
            passes@.len() == orig.len(),
            passes@.to_multiset() == orig.to_multiset(),
            forall|k: int| 0 <= k < passes@.len() ==> #[trigger] passes@[k] < end_pass_idx,
            scheduled <= passes@.len(),
            forall|x: int| 0 <= x < end_pass_idx ==> #[trigger] unscheduled@[x] == !passes@.take(scheduled as int).contains(x as usize),
            reorder_from(cache, passes@, scheduled as int, end) == reorder_from(cache, orig, 0, end),
        decreases passes@.len() - scheduled,
    {
        let ghost s = passes@;
        let ghost placed = s.take(scheduled as int);
        let mut best_idx = scheduled;
        let pass_idx = passes[best_idx];
        let mut best_overlap = cache.interdependent_passes(pass_idx, end_pass_idx).len();
        let len = passes.len();
        let mut idx: usize = 0;
        while idx < len - scheduled - 1
            invariant
                cache.wf(),
                end_pass_idx <= cache.pass_count(),
                end == end_pass_idx,
                unscheduled@.len() == end_pass_idx,
                passes@ == s,
                placed == s.take(scheduled as int),
                len == s.len(),
                forall|k: int| 0 <= k < s.len() ==> #[trigger] s[k] < end_pass_idx,
                forall|x: int| 0 <= x < end_pass_idx ==> #[trigger] unscheduled@[x] == !placed.contains(x as usize),
                scheduled < len,
                idx <= len - scheduled - 1,
                (best_idx as int, best_overlap as int) == reorder_pick(cache, s, scheduled as int, end, idx as int),
                scheduled <= best_idx < len,
            decreases len - scheduled - 1 - idx,
        {
            let candidate = passes[scheduled + 1 + idx];
            let others = cache.interdependent_passes(candidate, end_pass_idx);
            proof {
                assert forall|k: int| 0 <= k < others@.len() implies #[trigger] others@[k] < end_pass_idx by {
                    interdependents_bounded(cache, candidate as int, end_pass_idx as int, k);
                }
            }
            let mut overlap: usize = 0;
            while overlap < others.len()
                invariant
                    unscheduled@.len() == end_pass_idx,
                    forall|k: int| 0 <= k < others@.len() ==> #[trigger] others@[k] < end_pass_idx,
                    forall|x: int| 0 <= x < end_pass_idx ==> #[trigger] unscheduled@[x] == !placed.contains(x as usize),
                    overlap <= others@.len(),
                    forall|j: int| 0 <= j < overlap ==> placed.contains(#[trigger] others@[j]),
                ensures
                    overlap <= others@.len(),
                    forall|j: int| 0 <= j < overlap ==> placed.contains(#[trigger] others@[j]),
                    overlap == others@.len() || !placed.contains(others@[overlap as int]),
                decreases others@.len() - overlap,
            {
                if unscheduled[others[overlap]] {
                    break;
                }
                proof {
                    assert(!unscheduled@[others@[overlap as int] as int]);
                }
                overlap = overlap + 1;
            }
            proof {
                lemma_leading_placed(others@, placed, overlap as int);
                assert(overlap_factor(cache, s[scheduled + 1 + idx], placed, end) == overlap);
            }
            if overlap > best_overlap && best_idx < len - idx - 1 {
                best_idx = best_idx + idx + 1;
                best_overlap = overlap;
            }
            idx = idx + 1;
        }
        let chosen = passes[best_idx];
        unscheduled.set(chosen, false);
        swap_passes(passes, scheduled, best_idx);
        proof {
            let next = passes@;
            assert(next == s.update(scheduled as int, s[best_idx as int]).update(best_idx as int, s[scheduled as int]));
            lemma_reorder_pick_bounds(cache, s, scheduled as int, end, len - scheduled - 1);
            assert(reorder_from(cache, s, scheduled as int, end) == reorder_from(cache, next, scheduled + 1, end));
            assert(next.take(scheduled + 1) == placed.push(chosen));
            let t = next.take(scheduled + 1);
            assert forall|x: int| 0 <= x < end_pass_idx implies #[trigger] unscheduled@[x] == !t.contains(x as usize) by {
                if x == chosen as int {
                    assert(t[scheduled as int] == chosen);
                } else {
                    if t.contains(x as usize) {
                        let j = choose|j: int| 0 <= j < t.len() && #[trigger] t[j] == x as usize;
                        assert(j < scheduled);
                        assert(placed[j] == x as usize);
                    }
                    if placed.contains(x as usize) {
                        let j = choose|j: int| 0 <= j < placed.len() && #[trigger] placed[j] == x as usize;
                        assert(t[j] == x as usize);
                    }
                }
            }
        }
        scheduled = scheduled + 1;
    }
}

/// Every pass listed by `interdependents` comes before `end`.
proof fn interdependents_bounded(cache: &AccessCache, pass: int, end: int, k: int)
    requires
        cache.wf(),
        0 <= pass < cache.pass_count(),
        end <= cache.pass_count(),
        0 <= k < cache.interdependents(pass, end).len(),
    ensures
        cache.interdependents(pass, end)[k] < end,
{
    let ss = cache.interdependent_lists(pass, end);
    assert forall|i: int, j: int| 0 <= i < ss.len() && 0 <= j < ss[i].len() implies #[trigger] ss[i][j] < end by {
        cache.lemma_writers_from(cache.reads(pass)[i] as int, 0, end);
    }
    lemma_flatten_bounded(ss, end, k);
}

/// Every element of a flattened sequence of bounded sequences is bounded.
proof fn lemma_flatten_bounded(ss: Seq<Seq<usize>>, end: int, k: int)
    requires
        forall|i: int, j: int| 0 <= i < ss.len() && 0 <= j < ss[i].len() ==> #[trigger] ss[i][j] < end,
        0 <= k < ss.flatten().len(),
    ensures
        ss.flatten()[k] < end,
    decreases ss.len(),
{
    if ss.len() > 0 {
        let first = ss[0];
        let rest = ss.drop_first();
        assert(ss.flatten() == first + rest.flatten());
        if k < first.len() {
            assert(ss[0][k] < end);
        } else {
            assert forall|i: int, j: int| 0 <= i < rest.len() && 0 <= j < rest[i].len() implies #[trigger] rest[i][j] < end by {
                assert(rest[i] == ss[i + 1]);
            }
            lemma_flatten_bounded(rest, end, k - first.len());
        }
    }
}


/// The index of the first pass whose accesses touch the node, if any does.
pub fn first_node_access_pass_index(passes: &Vec<Vec<NodeAccess>>, node_idx: usize) -> (r: Option<usize>)
    ensures
        match r {
            Some(p) => p < passes@.len() && touches(passes@[p as int]@, node_idx) && forall|q: int|
                0 <= q < p ==> !touches(#[trigger] passes@[q]@, node_idx),
            None => forall|q: int| 0 <= q < passes@.len() ==> !touches(#[trigger] passes@[q]@, node_idx),
        },
{
    let mut p: usize = 0;
    while p < passes.len()
        invariant
            p <= passes@.len(),
            forall|q: int| 0 <= q < p ==> !touches(#[trigger] passes@[q]@, node_idx),
        decreases passes@.len() - p,
    {
        let acc = &passes[p];
        let mut i: usize = 0;
        while i < acc.len()
            invariant
                *acc == passes@[p as int],
                p < passes@.len(),
                forall|q: int| 0 <= q < p ==> !touches(#[trigger] passes@[q]@, node_idx),
                i <= acc@.len(),
                forall|j: int| 0 <= j < i ==> #[trigger] acc@[j].0 != node_idx,
            decreases acc@.len() - i,
        {
            if acc[i].0 == node_idx {
                proof {
                    assert(passes@[p as int]@[i as int].0 == node_idx);
                }
                return Some(p);
            }
            i = i + 1;
        }
        proof {
            if touches(passes@[p as int]@, node_idx) {
                let j = choose|j: int| 0 <= j < passes@[p as int]@.len() && #[trigger] passes@[p as int]@[j].0 == node_idx;
                assert(acc@[j].0 != node_idx);
            }
        }
        p = p + 1;
    }
    None
}

} // verus!
