//! Block processing: a topological order over the acyclic graph, and
//! per-sample evaluation of every node along it.
//!
//! The order is derived from reachability counts: along any
//! connection, strictly more nodes reach the destination than the
//! source, so sorting nodes by how many nodes reach them puts every
//! source before everything it feeds.

use crate::dsp::{model_tick, DspModel, DspUnit};
use crate::fixed::SIGNAL_CAP;
use crate::graph::{
    acyclic, count_false, distinct_ids, edge, has_node, reaches, AudioGraph, Connection,
    GraphNode,
};
use vstd::prelude::*;
use vstd::set_lib::lemma_len_subset;

verus! {

broadcast use vstd::seq_lib::seq_to_set_is_finite;

/// The ids the graph's nodes carry, in node order.
pub open spec fn node_id_seq(nodes: Seq<GraphNode>) -> Seq<u64> {
    Seq::new(nodes.len(), |i: int| nodes[i].module.id)
}

/// All node ids from which a walk leads to `id`.
pub open spec fn reach_set(nodes: Seq<GraphNode>, conns: Seq<Connection>, id: u64) -> Set<u64> {
    Set::new(|x: u64| has_node(nodes, x) && reaches(conns, x, id))
}

/// `order` lists each node index exactly once, and every connection's
/// source comes before its destination.
pub open spec fn order_respects(
    nodes: Seq<GraphNode>,
    conns: Seq<Connection>,
    order: Seq<usize>,
) -> bool {
    &&& order.len() == nodes.len()
    &&& forall|a: int| 0 <= a < order.len() ==> (#[trigger] order[a]) < nodes.len()
    &&& forall|a: int, b: int| 0 <= a < b < order.len() ==> order[a] != order[b]
    &&& forall|k: int, a: int, b: int|
        #![trigger conns[k], order[a], order[b]]
        (0 <= k < conns.len() && 0 <= a < order.len() && 0 <= b < order.len()
            && nodes[order[a] as int].module.id == conns[k].from_module
            && nodes[order[b] as int].module.id == conns[k].to_module) ==> a < b
}

/// The reach set is a finite subset of the node ids.
proof fn lemma_reach_set_finite(nodes: Seq<GraphNode>, conns: Seq<Connection>, id: u64)
    ensures
        reach_set(nodes, conns, id).finite(),
        reach_set(nodes, conns, id).len() <= nodes.len(),
{
    let ids = node_id_seq(nodes);
    let r = reach_set(nodes, conns, id);
    assert(r.subset_of(ids.to_set())) by {
        assert forall|x: u64| r.contains(x) implies ids.to_set().contains(x) by {
            let i = choose|i: int|
                0 <= i < nodes.len() && (#[trigger] nodes[i]).module.id == x;
            assert(ids[i] == x);
            assert(ids.contains(x));
            assert(ids.to_set().contains(x));
        }
    }
    assert(ids.to_set().finite());
    lemma_len_subset(r, ids.to_set());
    ids.lemma_cardinality_of_set();
}

/// Along a connection, strictly more nodes reach the destination than
/// the source.
proof fn lemma_edge_reach_count(nodes: Seq<GraphNode>, conns: Seq<Connection>, k: int)
    requires
        0 <= k < conns.len(),
        acyclic(conns),
        has_node(nodes, conns[k].from_module),
        has_node(nodes, conns[k].to_module),
    ensures
        reach_set(nodes, conns, conns[k].from_module).len() < reach_set(
            nodes,
            conns,
            conns[k].to_module,
        ).len(),
{
    let u = conns[k].from_module;
    let v = conns[k].to_module;
    let ru = reach_set(nodes, conns, u);
    let rv = reach_set(nodes, conns, v);
    lemma_reach_set_finite(nodes, conns, u);
    lemma_reach_set_finite(nodes, conns, v);
    assert(edge(conns, u, v)) by {
        assert(0 <= k < conns.len() && conns[k].from_module == u && conns[k].to_module == v);
    }
    // every id reaching u also reaches v, through the edge
    assert forall|x: u64| ru.contains(x) implies rv.remove(v).contains(x) by {
        crate::graph::lemma_reach_step(conns, x, u, v);
        if x == v {
            // then v would reach u, closing a loop at this connection
            assert(reaches(conns, v, u));
            assert(false);
        }
    }
    assert(ru.subset_of(rv.remove(v)));
    assert(rv.contains(v)) by {
        crate::graph::lemma_reach_refl(conns, v);
    }
    lemma_len_subset(ru, rv.remove(v));
    assert(rv.remove(v).len() == rv.len() - 1);
}

impl AudioGraph {
    /// How many node ids reach the node at `target`.
    fn reach_count(&self, target: usize) -> (count: usize)
        requires
            self.wf(),
            target < self.nodes@.len(),
        ensures
            count == reach_set(
                self.nodes@,
                self.connections@,
                self.nodes@[target as int].module.id,
            ).len(),
            count <= self.nodes@.len(),
    {
        let target_id: u64 = self.nodes[target].module.id;
        let n: usize = self.nodes.len();
        let mut count: usize = 0;
        let ghost mut seen: Set<u64> = Set::empty();
        let mut i: usize = 0;
        while i < n
            invariant
                i <= n,
                n == self.nodes@.len(),
                self.wf(),
                target < n,
                target_id == self.nodes@[target as int].module.id,
                seen.finite(),
                seen.len() == count,
                count <= i,
                forall|x: u64|
                    seen.contains(x) <==> exists|j: int|
                        0 <= j < i && (#[trigger] self.nodes@[j]).module.id == x && reaches(
                            self.connections@,
                            x,
                            target_id,
                        ),
            decreases n - i,
        {
            let cand: u64 = self.nodes[i].module.id;
            if self.reachable(cand, target_id) {
                proof {
                    assert(!seen.contains(cand)) by {
                        if seen.contains(cand) {
                            let j = choose|j: int|
                                0 <= j < i && (#[trigger] self.nodes@[j]).module.id == cand
                                    && reaches(self.connections@, cand, target_id);
                            assert(self.nodes@[j].module.id == self.nodes@[i as int].module.id);
                            assert(false);
                        }
                    }
                    seen = seen.insert(cand);
                    assert(seen.len() == count + 1);
                }
                count = count + 1;
            }
            proof {
                assert forall|x: u64|
                    seen.contains(x) <==> exists|j: int|
                        0 <= j < i + 1 && (#[trigger] self.nodes@[j]).module.id == x && reaches(
                            self.connections@,
                            x,
                            target_id,
                        ) by {
                    if seen.contains(x) {
                    }
                }
            }
            i = i + 1;
        }
        proof {
            let r = reach_set(self.nodes@, self.connections@, target_id);
            assert(seen =~= r) by {
                assert forall|x: u64| seen.contains(x) implies r.contains(x) by {
                    let j = choose|j: int|
                        0 <= j < n && (#[trigger] self.nodes@[j]).module.id == x && reaches(
                            self.connections@,
                            x,
                            target_id,
                        );
                }
                assert forall|x: u64| r.contains(x) implies seen.contains(x) by {
                    let j = choose|j: int|
                        0 <= j < self.nodes@.len() && (#[trigger] self.nodes@[j]).module.id == x;
                }
            }
        }
        count
    }

    /// A topological order over the current graph: nodes sorted by
    /// how many nodes reach them.
    pub fn topo_order(&self) -> (order: Vec<usize>)
        requires
            self.wf(),
        ensures
            order_respects(self.nodes@, self.connections@, order@),
    {
        let n: usize = self.nodes.len();
        let mut labels: Vec<usize> = Vec::new();
        let mut j: usize = 0;
        while j < n
            invariant
                j <= n,
                n == self.nodes@.len(),
                self.wf(),
                labels@.len() == j,
                forall|p: int|
                    0 <= p < j ==> #[trigger] labels@[p] == reach_set(
                        self.nodes@,
                        self.connections@,
                        self.nodes@[p].module.id,
                    ).len() && labels@[p] <= n,
            decreases n - j,
        {
            let c: usize = self.reach_count(j);
            labels.push(c);
            j = j + 1;
        }
        let mut order: Vec<usize> = Vec::new();
        let ghost mut placed: Seq<bool> = Seq::new(n as nat, |p: int| false);
        proof {
            lemma_count_false_all(placed);
        }
        let mut level: u128 = 0;
        while level < (n as u128) + 1
            invariant
                level <= (n as u128) + 1,
                n == self.nodes@.len(),
                self.wf(),
                labels@.len() == n,
                forall|p: int|
                    0 <= p < n ==> #[trigger] labels@[p] == reach_set(
                        self.nodes@,
                        self.connections@,
                        self.nodes@[p].module.id,
                    ).len() && labels@[p] <= n,
                placed.len() == n,
                order@.len() == n - count_false(placed),
                count_false(placed) >= 0,
                forall|p: int| 0 <= p < n ==> ((#[trigger] placed[p]) <==> labels@[p] < level),
                forall|a: int| 0 <= a < order@.len() ==> (#[trigger] order@[a]) < n,
                forall|a: int| 0 <= a < order@.len() ==> placed[#[trigger] order@[a] as int],
                forall|a: int, b: int|
                    0 <= a < b < order@.len() ==> (#[trigger] order@[a]) != (
                    #[trigger] order@[b]),
                forall|a: int, b: int|
                    0 <= a < b < order@.len() ==> labels@[order@[a] as int]
                        <= labels@[order@[b] as int],
            decreases (n as u128) + 1 - level,
        {
            let mut p: usize = 0;
            while p < n
                invariant
                    p <= n,
                    level <= n as u128,
                    n == self.nodes@.len(),
                    self.wf(),
                    labels@.len() == n,
                    forall|q: int|
                        0 <= q < n ==> #[trigger] labels@[q] == reach_set(
                            self.nodes@,
                            self.connections@,
                            self.nodes@[q].module.id,
                        ).len() && labels@[q] <= n,
                    placed.len() == n,
                    order@.len() == n - count_false(placed),
                    count_false(placed) >= 0,
                    forall|q: int|
                        0 <= q < n ==> ((#[trigger] placed[q]) <==> (labels@[q] < level || (
                        labels@[q] == level && q < p))),
                    forall|a: int| 0 <= a < order@.len() ==> (#[trigger] order@[a]) < n,
                    forall|a: int| 0 <= a < order@.len() ==> placed[#[trigger] order@[a] as int],
                    forall|a: int, b: int|
                        0 <= a < b < order@.len() ==> (#[trigger] order@[a]) != (
                        #[trigger] order@[b]),
                    forall|a: int, b: int|
                        0 <= a < b < order@.len() ==> labels@[order@[a] as int]
                            <= labels@[order@[b] as int],
                    forall|a: int| 0 <= a < order@.len() ==> labels@[(#[trigger] order@[a]) as int]
                        <= level,
                decreases n - p,
            {
                if (labels[p] as u128) == level {
                    let ghost prev_order = order@;
                    let ghost prev_placed = placed;
                    order.push(p);
                    proof {
                        assert(!prev_placed[p as int]);
                        placed = placed.update(p as int, true);
                        lemma_count_false_mark(prev_placed, p as int);
                        crate::graph::lemma_count_false_nonneg(placed);
                        assert(forall|a: int|
                            0 <= a < prev_order.len() ==> order@[a] == prev_order[a]);
                        assert(order@[order@.len() - 1] == p);
                        assert(forall|a: int|
                            0 <= a < prev_order.len() ==> prev_placed[(
                            #[trigger] prev_order[a]) as int]);
                        assert(forall|a: int| 0 <= a < prev_order.len() ==> prev_order[a] != p);
                    }
                }
                p = p + 1;
            }
            level = level + 1;
        }
        proof {
            assert(count_false(placed) == 0) by {
                lemma_count_false_none(placed);
                assert(forall|q: int| 0 <= q < placed.len() ==> placed[q]);
            }
            assert(order@.len() == n);
            assert forall|k: int, a: int, b: int|
                #![trigger self.connections@[k], order@[a], order@[b]]
                0 <= k < self.connections@.len() && 0 <= a < order@.len() && 0 <= b
                    < order@.len() && self.nodes@[order@[a] as int].module.id
                    == self.connections@[k].from_module && self.nodes@[order@[b] as int].module.id
                    == self.connections@[k].to_module implies a < b by {
                lemma_edge_reach_count(self.nodes@, self.connections@, k);
                assert(labels@[order@[a] as int] < labels@[order@[b] as int]);
                if b < a {
                    assert(labels@[order@[b] as int] <= labels@[order@[a] as int]);
                    assert(false);
                }
                if a == b {
                    assert(false);
                }
            }
        }
        order
    }

    /// Process a block: each sample, every node consumes its resolved
    /// inputs and produces its output in topological order; the
    /// active output node's stereo pair is collected.  The whole
    /// block is pinned to the spec-level evaluator: some topological
    /// order of the graph yields exactly these samples and exactly
    /// these unit states.  Without an active output the block is
    /// silence.  The order is computed once per block, never per
    /// sample.
    pub fn process(&mut self, frames: usize) -> (out: Vec<(i64, i64)>)
        requires
            old(self).wf(),
            frames <= 1_000_000,
        ensures
            final(self).wf(),
            out@.len() == frames,
            final(self).connections@ == old(self).connections@,
            final(self).output_node == old(self).output_node,
            final(self).sample_rate == old(self).sample_rate,
            final(self).nodes@.len() == old(self).nodes@.len(),
            forall|i: int|
                0 <= i < old(self).nodes@.len() ==> (#[trigger] final(self).nodes@[i]).module
                    == old(self).nodes@[i].module,
            exists|order: Seq<usize>|
                {
                    &&& #[trigger] order_respects(old(self).nodes@, old(self).connections@, order)
                    &&& (forall|f: int|
                        0 <= f < frames ==> ((#[trigger] out@[f]).0 as int, out@[f].1 as int)
                            == block_run(
                            unit_models(old(self).nodes@),
                            node_id_seq(old(self).nodes@),
                            old(self).connections@,
                            old(self).output_node,
                            order,
                            frames as int,
                        ).1[f])
                    &&& (forall|i: int|
                        0 <= i < old(self).nodes@.len() ==> (
                        #[trigger] final(self).nodes@[i]).unit.model() == block_run(
                            unit_models(old(self).nodes@),
                            node_id_seq(old(self).nodes@),
                            old(self).connections@,
                            old(self).output_node,
                            order,
                            frames as int,
                        ).0[i])
                },
            old(self).output_node is None ==> forall|i: int|
                0 <= i < frames ==> #[trigger] out@[i] == (0i64, 0i64),
            forall|i: int|
                0 <= i < frames ==> -SIGNAL_CAP <= (#[trigger] out@[i]).0 <= SIGNAL_CAP
                    && -SIGNAL_CAP <= out@[i].1 <= SIGNAL_CAP,
    {
        let order: Vec<usize> = self.topo_order();
        let n: usize = self.nodes.len();
        let ghost models0 = unit_models(old(self).nodes@);
        let ghost ids0 = node_id_seq(old(self).nodes@);
        let ghost conns0 = old(self).connections@;
        let ghost active0 = old(self).output_node;
        let mut scratch: Vec<i64> = zero_row(n);
        let mut out: Vec<(i64, i64)> = Vec::new();
        let mut frame: usize = 0;
        while frame < frames
            invariant
                frame <= frames,
                n == self.nodes@.len(),
                self.wf(),
                order_respects(old(self).nodes@, old(self).connections@, order@),
                scratch@.len() == n,
                out@.len() == frame,
                models0 == unit_models(old(self).nodes@),
                ids0 == node_id_seq(old(self).nodes@),
                conns0 == old(self).connections@,
                active0 == old(self).output_node,
                self.connections@ == old(self).connections@,
                self.output_node == old(self).output_node,
                self.sample_rate == old(self).sample_rate,
                self.nodes@.len() == old(self).nodes@.len(),
                forall|i: int|
                    0 <= i < old(self).nodes@.len() ==> (#[trigger] self.nodes@[i]).module == old(
                        self,
                    ).nodes@[i].module,
                block_run(models0, ids0, conns0, active0, order@, frame as int).1.len()
                    == frame,
                forall|i: int|
                    0 <= i < n ==> (#[trigger] self.nodes@[i]).unit.model() == block_run(
                        models0,
                        ids0,
                        conns0,
                        active0,
                        order@,
                        frame as int,
                    ).0[i],
                forall|f: int|
                    0 <= f < frame ==> ((#[trigger] out@[f]).0 as int, out@[f].1 as int)
                        == block_run(models0, ids0, conns0, active0, order@, frame as int).1[f],
                old(self).output_node is None ==> forall|i: int|
                    0 <= i < frame ==> #[trigger] out@[i] == (0i64, 0i64),
                forall|i: int|
                    0 <= i < frame ==> -SIGNAL_CAP <= (#[trigger] out@[i]).0 <= SIGNAL_CAP
                        && -SIGNAL_CAP <= out@[i].1 <= SIGNAL_CAP,
            decreases frames - frame,
        {
            proof {
                lemma_order_respects_modules(
                    old(self).nodes@,
                    self.nodes@,
                    self.connections@,
                    order@,
                );
            }
            let ghost entry = *self;
            let ghost prev_out = out@;
            let (l, r): (i64, i64) = self.tick_once(&order, &mut scratch);
            out.push((l, r));
            proof {
                let prev = block_run(models0, ids0, conns0, active0, order@, frame as int);
                let next = block_run(models0, ids0, conns0, active0, order@, frame + 1);
                assert(models0.len() == n && ids0.len() == n);
                lemma_block_run_len(models0, ids0, conns0, active0, order@, frame as int);
                assert(unit_models(entry.nodes@) =~= prev.0);
                assert(node_id_seq(entry.nodes@) =~= ids0);
                assert(next.1 == prev.1.push(
                    graph_sample(prev.0, ids0, conns0, active0, order@).1,
                ));
                assert(next.0 == graph_sample(prev.0, ids0, conns0, active0, order@).0);
                assert(forall|f: int| 0 <= f < frame ==> #[trigger] next.1[f] == prev.1[f]);
                assert(forall|f: int| 0 <= f < frame ==> out@[f] == prev_out[f]);
            }
            frame = frame + 1;
        }
        proof {
            assert(order_respects(old(self).nodes@, old(self).connections@, order@) && (
            forall|f: int|
                0 <= f < frames ==> ((#[trigger] out@[f]).0 as int, out@[f].1 as int)
                    == block_run(models0, ids0, conns0, active0, order@, frames as int).1[f]) && (
            forall|i: int|
                0 <= i < old(self).nodes@.len() ==> (#[trigger] self.nodes@[i]).unit.model()
                    == block_run(models0, ids0, conns0, active0, order@, frames as int).0[i]));
        }
        out
    }

    /// Evaluate one sample across the whole graph, exactly as
    /// `graph_sample` describes.  The caller lends the per-node
    /// scratch row, so the per-sample path allocates nothing.
    #[verifier::rlimit(100)]
    fn tick_once(&mut self, order: &Vec<usize>, outs: &mut Vec<i64>) -> (lr: (i64, i64))
        requires
            old(self).wf(),
            order_respects(old(self).nodes@, old(self).connections@, order@),
            old(outs)@.len() == old(self).nodes@.len(),
        ensures
            final(self).wf(),
            final(outs)@.len() == old(outs)@.len(),
            final(self).connections@ == old(self).connections@,
            final(self).output_node == old(self).output_node,
            final(self).sample_rate == old(self).sample_rate,
            final(self).nodes@.len() == old(self).nodes@.len(),
            forall|i: int|
                0 <= i < old(self).nodes@.len() ==> (#[trigger] final(self).nodes@[i]).module
                    == old(self).nodes@[i].module,
            forall|i: int|
                0 <= i < old(self).nodes@.len() ==> (#[trigger] final(self).nodes@[i]).unit.model()
                    == graph_sample(
                    unit_models(old(self).nodes@),
                    node_id_seq(old(self).nodes@),
                    old(self).connections@,
                    old(self).output_node,
                    order@,
                ).0[i],
            (lr.0 as int, lr.1 as int) == graph_sample(
                unit_models(old(self).nodes@),
                node_id_seq(old(self).nodes@),
                old(self).connections@,
                old(self).output_node,
                order@,
            ).1,
            old(self).output_node is None ==> lr == (0i64, 0i64),
            -SIGNAL_CAP <= lr.0 <= SIGNAL_CAP,
            -SIGNAL_CAP <= lr.1 <= SIGNAL_CAP,
    {
        let n: usize = self.nodes.len();
        let ghost models0 = unit_models(old(self).nodes@);
        let ghost ids0 = node_id_seq(old(self).nodes@);
        let ghost conns0 = old(self).connections@;
        let ghost active0 = old(self).output_node;
        let mut j: usize = 0;
        while j < n
            invariant
                j <= n,
                outs@.len() == n,
                forall|i: int| 0 <= i < j ==> #[trigger] outs@[i] == 0,
            decreases n - j,
        {
            outs[j] = 0;
            j = j + 1;
        }
        let mut left: i64 = 0;
        let mut right: i64 = 0;
        let mut pos: usize = 0;
        proof {
            assert(sample_prefix(models0, ids0, conns0, active0, order@, 0).0 == models0);
            assert(forall|i: int|
                0 <= i < n ==> (#[trigger] self.nodes@[i]).unit.model() == models0[i]);
            assert(forall|i: int|
                0 <= i < n ==> (#[trigger] outs@[i]) as int == sample_prefix(
                    models0,
                    ids0,
                    conns0,
                    active0,
                    order@,
                    0,
                ).1[i]);
        }
        while pos < order.len()
            invariant
                pos <= order@.len(),
                n == self.nodes@.len(),
                self.wf(),
                outs@.len() == n,
                models0 == unit_models(old(self).nodes@),
                ids0 == node_id_seq(old(self).nodes@),
                conns0 == old(self).connections@,
                active0 == old(self).output_node,
                forall|i: int| 0 <= i < n ==> -SIGNAL_CAP <= #[trigger] outs@[i] <= SIGNAL_CAP,
                forall|a: int| 0 <= a < order@.len() ==> (#[trigger] order@[a]) < n,
                self.connections@ == old(self).connections@,
                self.output_node == old(self).output_node,
                self.sample_rate == old(self).sample_rate,
                self.nodes@.len() == old(self).nodes@.len(),
                forall|i: int|
                    0 <= i < old(self).nodes@.len() ==> (#[trigger] self.nodes@[i]).module == old(
                        self,
                    ).nodes@[i].module,
                forall|i: int|
                    0 <= i < n ==> (#[trigger] self.nodes@[i]).unit.model() == sample_prefix(
                        models0,
                        ids0,
                        conns0,
                        active0,
                        order@,
                        pos as int,
                    ).0[i],
                forall|i: int|
                    0 <= i < n ==> (#[trigger] outs@[i]) as int == sample_prefix(
                        models0,
                        ids0,
                        conns0,
                        active0,
                        order@,
                        pos as int,
                    ).1[i],
                (left as int, right as int) == sample_prefix(
                    models0,
                    ids0,
                    conns0,
                    active0,
                    order@,
                    pos as int,
                ).2,
                old(self).output_node is None ==> left == 0 && right == 0,
                -SIGNAL_CAP <= left <= SIGNAL_CAP,
                -SIGNAL_CAP <= right <= SIGNAL_CAP,
            decreases order@.len() - pos,
        {
            let ghost pre = *self;
            let ghost envp = sample_prefix(models0, ids0, conns0, active0, order@, pos as int).1;
            let idx: usize = order[pos];
            let node_id: u64 = self.nodes[idx].module.id;
            proof {
                assert(node_id == ids0[idx as int]);
            }
            // resolve this node's inputs from its feeding connections
            let mut in0: i64 = 0;
            let mut in1: i64 = 0;
            let mut k: usize = 0;
            while k < self.connections.len()
                invariant
                    k <= self.connections@.len(),
                    n == self.nodes@.len(),
                    self.nodes@.len() == old(self).nodes@.len(),
                    self.wf(),
                    outs@.len() == n,
                    idx < n,
                    conns0 == old(self).connections@,
                    ids0 == node_id_seq(old(self).nodes@),
                    self.connections@ == conns0,
                    node_id == ids0[idx as int],
                    node_id == self.nodes@[idx as int].module.id,
                    forall|i: int|
                        0 <= i < old(self).nodes@.len() ==> (#[trigger] self.nodes@[i]).module
                            == old(self).nodes@[i].module,
                    forall|i: int| 0 <= i < n ==> -SIGNAL_CAP <= #[trigger] outs@[i]
                        <= SIGNAL_CAP,
                    forall|i: int| 0 <= i < n ==> (#[trigger] outs@[i]) as int == envp[i],
                    (exists|kk: int| conn_feeds(conns0, kk, node_id, 0) && kk < k) ==> in0 as int
                        == resolved_input(conns0, ids0, envp, node_id, 0),
                    !(exists|kk: int| conn_feeds(conns0, kk, node_id, 0) && kk < k) ==> in0 == 0,
                    (exists|kk: int| conn_feeds(conns0, kk, node_id, 1) && kk < k) ==> in1 as int
                        == resolved_input(conns0, ids0, envp, node_id, 1),
                    !(exists|kk: int| conn_feeds(conns0, kk, node_id, 1) && kk < k) ==> in1 == 0,
                    -SIGNAL_CAP <= in0 <= SIGNAL_CAP,
                    -SIGNAL_CAP <= in1 <= SIGNAL_CAP,
                decreases self.connections@.len() - k,
            {
                let c: Connection = self.connections[k];
                if c.to_module == node_id {
                    match self.find_node(c.from_module) {
                        Some(fidx) => {
                            let v: i64 = outs[fidx];
                            proof {
                                assert(ids0[fidx as int] == old(self).nodes@[
                                fidx as int].module.id);
                                assert(self.nodes@[fidx as int].module == old(self).nodes@[
                                fidx as int].module);
                                assert(ids0[fidx as int] == c.from_module);
                                assert forall|a: int, b: int|
                                    0 <= a < b < ids0.len() implies ids0[a] != ids0[b] by {
                                    assert(self.nodes@[a].module == old(self).nodes@[a].module);
                                    assert(self.nodes@[b].module == old(self).nodes@[b].module);
                                    assert(self.nodes@[a].module.id != self.nodes@[b].module.id);
                                }
                                lemma_id_index_unique(ids0, c.from_module, fidx as int);
                            }
                            if c.to_input == 0 {
                                in0 = v;
                                proof {
                                    assert(conn_feeds(conns0, k as int, node_id, 0));
                                    lemma_feed_unique(conns0, k as int, node_id, 0);
                                }
                            } else if c.to_input == 1 {
                                in1 = v;
                                proof {
                                    assert(conn_feeds(conns0, k as int, node_id, 1));
                                    lemma_feed_unique(conns0, k as int, node_id, 1);
                                }
                            }
                        },
                        None => {
                            proof {
                                assert(has_node(self.nodes@, c.from_module));
                                assert(false);
                            }
                        },
                    }
                }
                k = k + 1;
            }
            proof {
                assert(in0 as int == resolved_input(conns0, ids0, envp, node_id, 0)) by {
                    if !(exists|kk: int| conn_feeds(conns0, kk, node_id, 0)) {
                    }
                }
                assert(in1 as int == resolved_input(conns0, ids0, envp, node_id, 1)) by {
                    if !(exists|kk: int| conn_feeds(conns0, kk, node_id, 1)) {
                    }
                }
            }
            let is_active: bool = match self.output_node {
                Some(oid) => oid == node_id,
                None => false,
            };
            let node = &mut self.nodes[idx];
            let ghost m_old = pre.nodes@[idx as int].unit.model();
            let produced: i64 = match &mut node.unit {
                DspUnit::Oscillator(o) => o.tick(),
                DspUnit::Filter(f) => f.tick(in0),
                DspUnit::Delay(d) => d.tick(in0),
                DspUnit::Reverb(rv) => rv.tick(in0),
                DspUnit::Output(o) => {
                    let (l, r) = o.tick(in0, in1);
                    if is_active {
                        left = l;
                        right = r;
                    }
                    0
                },
                DspUnit::Trigger => 0,
            };
            proof {
                let step = model_tick(m_old, in0 as int, in1 as int);
                assert(self.nodes@[idx as int].unit.model() == step.0);
                assert(produced as int == step.1);
                let nn = self.nodes@;
                let on = pre.nodes@;
                assert(pre.wf());
                assert(self.connections@ == pre.connections@);
                assert(forall|i: int|
                    0 <= i < nn.len() ==> (#[trigger] nn[i]).module == on[i].module);
                assert forall|kk: int| 0 <= kk < self.connections@.len() implies has_node(
                    nn,
                    (#[trigger] self.connections@[kk]).from_module,
                ) && has_node(nn, self.connections@[kk].to_module)
                    && crate::graph::ports_in_range(nn, self.connections@[kk]) by {
                    let c = self.connections@[kk];
                    let fi = choose|x: int|
                        0 <= x < on.len() && (#[trigger] on[x]).module.id == c.from_module;
                    let ti = choose|x: int|
                        0 <= x < on.len() && (#[trigger] on[x]).module.id == c.to_module;
                    assert(nn[fi].module.id == c.from_module);
                    assert(nn[ti].module.id == c.to_module);
                    assert(crate::graph::ports_in_range(on, c));
                    assert forall|x: int|
                        0 <= x < nn.len() && (#[trigger] nn[x]).module.id == c.from_module
                            implies c.from_output < nn[x].module.output_count by {
                        assert(nn[x].module == on[x].module);
                    }
                    assert forall|x: int|
                        0 <= x < nn.len() && (#[trigger] nn[x]).module.id == c.to_module
                            implies c.to_input < nn[x].module.input_count by {
                        assert(nn[x].module == on[x].module);
                    }
                }
                assert(distinct_ids(nn)) by {
                    assert(forall|i: int|
                        0 <= i < nn.len() ==> (#[trigger] nn[i]).module.id == on[i].module.id);
                }
                match self.output_node {
                    Some(oid) => {
                        assert(has_node(on, oid));
                        let x = choose|x: int|
                            0 <= x < on.len() && (#[trigger] on[x]).module.id == oid;
                        assert(nn[x].module.id == oid);
                    },
                    None => {},
                }
            }
            outs[idx] = produced;
            proof {
                let prev = sample_prefix(models0, ids0, conns0, active0, order@, pos as int);
                let next = sample_prefix(models0, ids0, conns0, active0, order@, pos + 1);
                let step = model_tick(m_old, in0 as int, in1 as int);
                assert(models0.len() == n && ids0.len() == n);
                lemma_sample_prefix_len(models0, ids0, conns0, active0, order@, pos as int);
                assert(order@[pos as int] == idx);
                assert(ids0[idx as int] == node_id);
                assert(m_old == prev.0[idx as int]) by {
                    assert(pre.nodes@[idx as int].unit.model() == prev.0[idx as int]);
                }
                assert(envp == prev.1);
                assert(in0 as int == resolved_input(conns0, ids0, prev.1, node_id, 0));
                assert(in1 as int == resolved_input(conns0, ids0, prev.1, node_id, 1));
                assert(next.0 == prev.0.update(idx as int, step.0));
                assert(next.1 == prev.1.update(idx as int, step.1));
                assert forall|i: int|
                    0 <= i < n implies (#[trigger] self.nodes@[i]).unit.model() == next.0[i] by {
                    if i != idx as int {
                        assert(self.nodes@[i] == pre.nodes@[i]);
                    }
                }
                assert forall|i: int|
                    0 <= i < n implies (#[trigger] outs@[i]) as int == next.1[i] by {
                    if i != idx as int {
                    }
                }
                if active0 == Some(node_id) && (m_old is Out) {
                    assert(next.2 == step.2);
                } else {
                    assert(next.2 == prev.2);
                }
            }
            pos = pos + 1;
        }
        proof {
            assert(pos == order@.len());
        }
        (left, right)
    }
}

/// Connection `k` feeds this module's input port.
pub open spec fn conn_feeds(conns: Seq<Connection>, k: int, id: u64, port: int) -> bool {
    0 <= k < conns.len() && conns[k].to_module == id && conns[k].to_input == port
}

/// The position of this id among the node ids.
pub open spec fn id_index_of(ids: Seq<u64>, id: u64) -> int {
    choose|i: int| 0 <= i < ids.len() && #[trigger] ids[i] == id
}

/// The sample feeding this module's input port: the producing node's
/// entry in the env of samples computed so far, or silence when
/// nothing is connected.  Well defined whenever each input port has
/// at most one source, as the graph invariant guarantees.
pub open spec fn resolved_input(
    conns: Seq<Connection>,
    ids: Seq<u64>,
    env: Seq<int>,
    id: u64,
    port: int,
) -> int {
    if exists|k: int| #[trigger] conn_feeds(conns, k, id, port) {
        let k = choose|k: int| #[trigger] conn_feeds(conns, k, id, port);
        env[id_index_of(ids, conns[k].from_module)]
    } else {
        0
    }
}

/// The models of every node's unit, in node order.
pub open spec fn unit_models(nodes: Seq<GraphNode>) -> Seq<crate::dsp::DspModel> {
    Seq::new(nodes.len(), |i: int| nodes[i].unit.model())
}

/// Evaluate the first `pos` entries of the order for one sample: the
/// unit models afterwards, the env of samples produced so far, and
/// the active output's stereo pair.
pub open spec fn sample_prefix(
    models0: Seq<crate::dsp::DspModel>,
    ids: Seq<u64>,
    conns: Seq<Connection>,
    active: Option<u64>,
    order: Seq<usize>,
    pos: int,
) -> (Seq<crate::dsp::DspModel>, Seq<int>, (int, int))
    decreases pos,
{
    if pos <= 0 {
        (models0, Seq::new(ids.len(), |i: int| 0int), (0int, 0int))
    } else {
        let prev = sample_prefix(models0, ids, conns, active, order, pos - 1);
        let idx = order[pos - 1] as int;
        let id = ids[idx];
        let in0 = resolved_input(conns, ids, prev.1, id, 0);
        let in1 = resolved_input(conns, ids, prev.1, id, 1);
        let step = model_tick(prev.0[idx], in0, in1);
        let lr = if active == Some(id) && (prev.0[idx] is Out) {
            step.2
        } else {
            prev.2
        };
        (prev.0.update(idx, step.0), prev.1.update(idx, step.1), lr)
    }
}

/// One whole sample along the order: the unit models afterwards and
/// the emitted stereo pair.
pub open spec fn graph_sample(
    models0: Seq<crate::dsp::DspModel>,
    ids: Seq<u64>,
    conns: Seq<Connection>,
    active: Option<u64>,
    order: Seq<usize>,
) -> (Seq<crate::dsp::DspModel>, (int, int)) {
    let r = sample_prefix(models0, ids, conns, active, order, order.len() as int);
    (r.0, r.2)
}

/// A block of samples, folded one after another.
pub open spec fn block_run(
    models0: Seq<crate::dsp::DspModel>,
    ids: Seq<u64>,
    conns: Seq<Connection>,
    active: Option<u64>,
    order: Seq<usize>,
    frames: int,
) -> (Seq<crate::dsp::DspModel>, Seq<(int, int)>)
    decreases frames,
{
    if frames <= 0 {
        (models0, Seq::empty())
    } else {
        let prev = block_run(models0, ids, conns, active, order, frames - 1);
        let s = graph_sample(prev.0, ids, conns, active, order);
        (s.0, prev.1.push(s.1))
    }
}

/// The evaluator keeps the model and env lengths fixed.
pub proof fn lemma_sample_prefix_len(
    models0: Seq<crate::dsp::DspModel>,
    ids: Seq<u64>,
    conns: Seq<Connection>,
    active: Option<u64>,
    order: Seq<usize>,
    pos: int,
)
    requires
        models0.len() == ids.len(),
        pos <= order.len(),
        forall|a: int| 0 <= a < order.len() ==> (#[trigger] order[a]) < models0.len(),
    ensures
        sample_prefix(models0, ids, conns, active, order, pos).0.len() == models0.len(),
        sample_prefix(models0, ids, conns, active, order, pos).1.len() == ids.len(),
    decreases pos,
{
    reveal_with_fuel(sample_prefix, 2);
    if pos > 0 {
        lemma_sample_prefix_len(models0, ids, conns, active, order, pos - 1);
        let prev = sample_prefix(models0, ids, conns, active, order, pos - 1);
        let idx = order[pos - 1] as int;
        let id = ids[idx];
        let in0 = resolved_input(conns, ids, prev.1, id, 0);
        let in1 = resolved_input(conns, ids, prev.1, id, 1);
        let step = model_tick(prev.0[idx], in0, in1);
        assert(sample_prefix(models0, ids, conns, active, order, pos).0 == prev.0.update(
            idx,
            step.0,
        ));
        assert(sample_prefix(models0, ids, conns, active, order, pos).1 == prev.1.update(
            idx,
            step.1,
        ));
    } else {
        assert(sample_prefix(models0, ids, conns, active, order, pos).0 == models0);
        assert(sample_prefix(models0, ids, conns, active, order, pos).1 == Seq::new(
            ids.len(),
            |i: int| 0int,
        ));
    }
}

/// A block keeps the model count and emits one pair per frame.
pub proof fn lemma_block_run_len(
    models0: Seq<crate::dsp::DspModel>,
    ids: Seq<u64>,
    conns: Seq<Connection>,
    active: Option<u64>,
    order: Seq<usize>,
    frames: int,
)
    requires
        models0.len() == ids.len(),
        forall|a: int| 0 <= a < order.len() ==> (#[trigger] order[a]) < models0.len(),
    ensures
        block_run(models0, ids, conns, active, order, frames).0.len() == models0.len(),
        block_run(models0, ids, conns, active, order, frames).1.len() == if frames >= 0 {
            frames
        } else {
            0
        },
    decreases frames,
{
    if frames > 0 {
        lemma_block_run_len(models0, ids, conns, active, order, frames - 1);
        lemma_sample_prefix_len(
            block_run(models0, ids, conns, active, order, frames - 1).0,
            ids,
            conns,
            active,
            order,
            order.len() as int,
        );
    }
}

/// At most one connection feeds a port, so the fed value is exactly
/// that connection's source sample.
proof fn lemma_feed_unique(conns: Seq<Connection>, k: int, id: u64, port: int)
    requires
        conn_feeds(conns, k, id, port),
        forall|a: int, b: int|
            0 <= a < b < conns.len() ==> !((#[trigger] conns[a]).to_module == (
            #[trigger] conns[b]).to_module && conns[a].to_input == conns[b].to_input),
    ensures
        (choose|kk: int| #[trigger] conn_feeds(conns, kk, id, port)) == k,
{
    let kk = choose|kk: int| #[trigger] conn_feeds(conns, kk, id, port);
    if kk != k {
        if kk < k {
            assert(conns[kk].to_module == conns[k].to_module && conns[kk].to_input
                == conns[k].to_input);
            assert(false);
        } else {
            assert(conns[k].to_module == conns[kk].to_module && conns[k].to_input
                == conns[kk].to_input);
            assert(false);
        }
    }
}

/// Distinct ids make the id lookup unambiguous.
proof fn lemma_id_index_unique(ids: Seq<u64>, id: u64, witness: int)
    requires
        0 <= witness < ids.len(),
        ids[witness] == id,
        forall|a: int, b: int| 0 <= a < b < ids.len() ==> ids[a] != ids[b],
    ensures
        id_index_of(ids, id) == witness,
{
    assert(exists|i: int| 0 <= i < ids.len() && #[trigger] ids[i] == id);
    let i = choose|i: int| 0 <= i < ids.len() && #[trigger] ids[i] == id;
    if i != witness {
        if i < witness {
            assert(ids[i] != ids[witness]);
        } else {
            assert(ids[witness] != ids[i]);
        }
        assert(false);
    }
}

/// A topological order survives a unit-only update of the nodes.
proof fn lemma_order_respects_modules(
    nodes_a: Seq<GraphNode>,
    nodes_b: Seq<GraphNode>,
    conns: Seq<Connection>,
    order: Seq<usize>,
)
    requires
        nodes_a.len() == nodes_b.len(),
        forall|i: int| 0 <= i < nodes_a.len() ==> (#[trigger] nodes_b[i]).module
            == nodes_a[i].module,
        order_respects(nodes_a, conns, order),
    ensures
        order_respects(nodes_b, conns, order),
{
    assert forall|k: int, a: int, b: int|
        #![trigger conns[k], order[a], order[b]]
        (0 <= k < conns.len() && 0 <= a < order.len() && 0 <= b < order.len()
            && nodes_b[order[a] as int].module.id == conns[k].from_module
            && nodes_b[order[b] as int].module.id == conns[k].to_module) implies a < b by {
        assert(nodes_a[order[a] as int].module.id == conns[k].from_module);
        assert(nodes_a[order[b] as int].module.id == conns[k].to_module);
    }
}

/// A row of `n` zero samples.
fn zero_row(n: usize) -> (r: Vec<i64>)
    ensures
        r@.len() == n,
        forall|i: int| 0 <= i < n ==> r@[i] == 0,
{
    let mut v: Vec<i64> = Vec::new();
    let mut i: usize = 0;
    while i < n
        invariant
            i <= n,
            v@.len() == i,
            forall|j: int| 0 <= j < i ==> v@[j] == 0,
        decreases n - i,
    {
        v.push(0);
        i = i + 1;
    }
    v
}

/// An all-false sequence has as many false slots as entries.
proof fn lemma_count_false_all(s: Seq<bool>)
    requires
        forall|p: int| 0 <= p < s.len() ==> !s[p],
    ensures
        count_false(s) == s.len(),
    decreases s.len(),
{
    if s.len() > 0 {
        assert(forall|p: int| 0 <= p < s.len() - 1 ==> !(#[trigger] s.drop_last()[p]));
        lemma_count_false_all(s.drop_last());
    }
}

/// An all-true sequence has no false slots.
proof fn lemma_count_false_none(s: Seq<bool>)
    requires
        forall|p: int| 0 <= p < s.len() ==> s[p],
    ensures
        count_false(s) == 0,
    decreases s.len(),
{
    if s.len() > 0 {
        assert(forall|p: int| 0 <= p < s.len() - 1 ==> (#[trigger] s.drop_last()[p]));
        lemma_count_false_none(s.drop_last());
    }
}

/// Marking one false slot lowers the count by one.
proof fn lemma_count_false_mark(s: Seq<bool>, i: int)
    requires
        0 <= i < s.len(),
        !s[i],
    ensures
        count_false(s.update(i, true)) == count_false(s) - 1,
    decreases s.len(),
{
    let t = s.update(i, true);
    if i == s.len() - 1 {
        assert(t.drop_last() =~= s.drop_last());
    } else {
        assert(t.drop_last() =~= s.drop_last().update(i, true));
        lemma_count_false_mark(s.drop_last(), i);
        assert(t.last() == s.last());
    }
}

} // verus!
