//! The signal-routing graph: modules, connections, topology
//! validation and the cycle check.
//!
//! The graph owns one node per module descriptor, each with its
//! realized DSP unit.  Every mutation keeps the connection set
//! well-formed: endpoints exist, ports are in range, no duplicate
//! edges, each input port is fed by at most one source, and the graph
//! is acyclic.  Failed mutations leave the graph untouched.

use crate::dsp::{dsp_matches, DspUnit};
use crate::module::{module_eq, AudioModule, ModuleType};
use vstd::prelude::*;
use vstd::seq_lib::*;

verus! {

broadcast use vstd::seq_lib::group_filter_ensures;

/// A directed link from one module's output port to another module's
/// input port.
#[derive(Clone, Copy, PartialEq, Eq, Structural, Debug)]
pub struct Connection {
    pub from_module: u64,
    pub from_output: usize,
    pub to_module: u64,
    pub to_input: usize,
}

/// Why a topology mutation was refused.
#[derive(Clone, Copy, PartialEq, Eq, Structural, Debug)]
pub enum GraphError {
    InvalidReference,
    PortOutOfRange,
    DuplicateConnection,
    InputOccupied,
    CycleDetected,
}

/// One realized module: its descriptor and its DSP unit.
pub struct GraphNode {
    pub module: AudioModule,
    pub unit: DspUnit,
}

/// Some node carries this module id.
pub open spec fn has_node(nodes: Seq<GraphNode>, id: u64) -> bool {
    exists|i: int| 0 <= i < nodes.len() && (#[trigger] nodes[i]).module.id == id
}

/// All node ids are distinct.
pub open spec fn distinct_ids(nodes: Seq<GraphNode>) -> bool {
    forall|i: int, j: int|
        0 <= i < j < nodes.len() ==> (#[trigger] nodes[i]).module.id != (
        #[trigger] nodes[j]).module.id
}

/// Some connection runs from module `a` to module `b`.
pub open spec fn edge(conns: Seq<Connection>, a: u64, b: u64) -> bool {
    exists|k: int|
        0 <= k < conns.len() && (#[trigger] conns[k]).from_module == a && conns[k].to_module == b
}

/// `p` is a walk along connections: consecutive entries are joined by
/// edges.
pub open spec fn is_path(conns: Seq<Connection>, p: Seq<u64>) -> bool {
    p.len() >= 1 && forall|i: int| 0 <= i < p.len() - 1 ==> edge(conns, #[trigger] p[i], p[i + 1])
}

/// `b` can be reached from `a` along zero or more connections.
pub open spec fn reaches(conns: Seq<Connection>, a: u64, b: u64) -> bool {
    exists|p: Seq<u64>| is_path(conns, p) && p[0] == a && p.last() == b
}

/// No connection closes a loop: its destination never reaches back to
/// its source.
pub open spec fn acyclic(conns: Seq<Connection>) -> bool {
    forall|k: int|
        0 <= k < conns.len() ==> !reaches(
            conns,
            (#[trigger] conns[k]).to_module,
            conns[k].from_module,
        )
}

/// Both of the connection's ports are within the port counts of the
/// modules it joins.
pub open spec fn ports_in_range(nodes: Seq<GraphNode>, c: Connection) -> bool {
    &&& forall|i: int|
        0 <= i < nodes.len() && (#[trigger] nodes[i]).module.id == c.from_module
            ==> c.from_output < nodes[i].module.output_count
    &&& forall|i: int|
        0 <= i < nodes.len() && (#[trigger] nodes[i]).module.id == c.to_module ==> c.to_input
            < nodes[i].module.input_count
}

/// Reflexivity: the one-entry walk.
pub proof fn lemma_reach_refl(conns: Seq<Connection>, a: u64)
    ensures
        reaches(conns, a, a),
{
    let p: Seq<u64> = seq![a];
    assert(is_path(conns, p) && p[0] == a && p.last() == a);
}

/// One more edge extends a walk.
pub proof fn lemma_reach_step(conns: Seq<Connection>, a: u64, b: u64, x: u64)
    requires
        reaches(conns, a, b),
        edge(conns, b, x),
    ensures
        reaches(conns, a, x),
{
    let p = choose|p: Seq<u64>| is_path(conns, p) && p[0] == a && p.last() == b;
    let q = p.push(x);
    assert(is_path(conns, q)) by {
        assert(forall|i: int| 0 <= i < p.len() - 1 ==> edge(conns, #[trigger] p[i], p[i + 1]));
        assert(forall|i: int| 0 <= i < q.len() - 1 ==> edge(conns, #[trigger] q[i], q[i + 1])) by {
            assert(forall|i: int| 0 <= i < p.len() - 1 ==> (#[trigger] q[i]) == p[i] && q[i + 1] == p[i + 1]);
            assert(q[p.len() - 1] == p.last() && q[p.len() as int] == x);
        }
    }
    assert(q[0] == a && q.last() == x);
}

/// Walks concatenate.
pub proof fn lemma_reach_trans(conns: Seq<Connection>, a: u64, b: u64, d: u64)
    requires
        reaches(conns, a, b),
        reaches(conns, b, d),
    ensures
        reaches(conns, a, d),
{
    let p2 = choose|p: Seq<u64>| is_path(conns, p) && p[0] == b && p.last() == d;
    lemma_reach_trans_path(conns, a, b, p2);
}

proof fn lemma_reach_trans_path(conns: Seq<Connection>, a: u64, b: u64, p2: Seq<u64>)
    requires
        reaches(conns, a, b),
        is_path(conns, p2),
        p2[0] == b,
    ensures
        reaches(conns, a, p2.last()),
    decreases p2.len(),
{
    if p2.len() == 1 {
        assert(p2.last() == b);
    } else {
        assert(edge(conns, p2[0], p2[1]));
        lemma_reach_step(conns, a, b, p2[1]);
        let rest = p2.drop_first();
        assert(is_path(conns, rest)) by {
            assert(forall|i: int|
                0 <= i < rest.len() - 1 ==> (#[trigger] rest[i]) == p2[i + 1] && rest[i + 1] == p2[
                i + 2]);
        }
        assert(rest[0] == p2[1]);
        lemma_reach_trans_path(conns, a, p2[1], rest);
        assert(rest.last() == p2.last());
    }
}

/// An edge of the extended connection set is an old edge or the new
/// one.
pub proof fn lemma_edge_push(conns: Seq<Connection>, c: Connection, a: u64, b: u64)
    ensures
        edge(conns.push(c), a, b) <==> (edge(conns, a, b) || (a == c.from_module && b
            == c.to_module)),
{
    let ext = conns.push(c);
    if edge(ext, a, b) {
        let k = choose|k: int|
            0 <= k < ext.len() && (#[trigger] ext[k]).from_module == a && ext[k].to_module == b;
        if k < conns.len() {
            assert(conns[k] == ext[k]);
            assert(edge(conns, a, b));
        } else {
            assert(ext[k] == c);
        }
    }
    if edge(conns, a, b) {
        let k = choose|k: int|
            0 <= k < conns.len() && (#[trigger] conns[k]).from_module == a && conns[k].to_module
                == b;
        assert(ext[k] == conns[k]);
        assert(edge(ext, a, b));
    }
    if a == c.from_module && b == c.to_module {
        assert(ext[conns.len() as int] == c);
        assert(edge(ext, a, b));
    }
}

/// Any walk through the extended set either avoids the new edge, or
/// splits at it.
proof fn lemma_path_push_decompose(conns: Seq<Connection>, c: Connection, p: Seq<u64>)
    requires
        is_path(conns.push(c), p),
    ensures
        reaches(conns, p[0], p.last()) || (reaches(conns, p[0], c.from_module) && reaches(
            conns,
            c.to_module,
            p.last(),
        )),
    decreases p.len(),
{
    if p.len() == 1 {
        lemma_reach_refl(conns, p[0]);
    } else {
        let q = p.drop_last();
        assert(is_path(conns.push(c), q)) by {
            assert(forall|i: int|
                0 <= i < q.len() - 1 ==> (#[trigger] q[i]) == p[i] && q[i + 1] == p[i + 1]);
        }
        lemma_path_push_decompose(conns, c, q);
        assert(edge(conns.push(c), p[p.len() - 2], p.last())) by {
            assert(p[p.len() - 2] == q.last() || true);
        }
        lemma_edge_push(conns, c, p[p.len() - 2], p.last());
        assert(q.last() == p[p.len() - 2]);
        if edge(conns, p[p.len() - 2], p.last()) {
            if reaches(conns, q[0], q.last()) {
                lemma_reach_step(conns, p[0], q.last(), p.last());
            } else {
                lemma_reach_step(conns, c.to_module, q.last(), p.last());
            }
        } else {
            // the last hop is the new edge itself
            assert(p[p.len() - 2] == c.from_module && p.last() == c.to_module);
            if reaches(conns, q[0], q.last()) {
                lemma_reach_refl(conns, c.to_module);
            } else {
                lemma_reach_refl(conns, c.to_module);
            }
        }
    }
}

/// Adding an edge whose destination does not already reach its source
/// keeps the graph acyclic.
pub proof fn lemma_extend_acyclic(conns: Seq<Connection>, c: Connection)
    requires
        acyclic(conns),
        !reaches(conns, c.to_module, c.from_module),
    ensures
        acyclic(conns.push(c)),
{
    let ext = conns.push(c);
    assert forall|k: int| 0 <= k < ext.len() implies !reaches(
        ext,
        (#[trigger] ext[k]).to_module,
        ext[k].from_module,
    ) by {
        let e = ext[k];
        if reaches(ext, e.to_module, e.from_module) {
            let p = choose|p: Seq<u64>|
                is_path(ext, p) && p[0] == e.to_module && p.last() == e.from_module;
            lemma_path_push_decompose(conns, c, p);
            if k < conns.len() {
                assert(conns[k] == e);
                if reaches(conns, e.to_module, e.from_module) {
                    assert(false);
                } else {
                    // e.to reaches c.from, and c.to reaches e.from;
                    // with edge e that closes a loop through c
                    assert(reaches(conns, e.to_module, c.from_module));
                    assert(reaches(conns, c.to_module, e.from_module));
                    assert(edge(conns, e.from_module, e.to_module)) by {
                        assert(conns[k].from_module == e.from_module);
                    }
                    lemma_reach_step(conns, c.to_module, e.from_module, e.to_module);
                    lemma_reach_trans(conns, c.to_module, e.to_module, c.from_module);
                    assert(false);
                }
            } else {
                assert(e == c);
                assert(false);
            }
        }
    }
}

/// A walk whose every edge also lies in a larger connection set is a
/// walk there too.
pub proof fn lemma_reaches_mono(sub: Seq<Connection>, sup: Seq<Connection>, a: u64, b: u64)
    requires
        forall|x: u64, y: u64| edge(sub, x, y) ==> edge(sup, x, y),
        reaches(sub, a, b),
    ensures
        reaches(sup, a, b),
{
    let p = choose|p: Seq<u64>| is_path(sub, p) && p[0] == a && p.last() == b;
    assert(is_path(sup, p)) by {
        assert(forall|i: int| 0 <= i < p.len() - 1 ==> edge(sub, #[trigger] p[i], p[i + 1]));
    }
}

/// A walk that starts inside a set closed under edges ends inside it.
pub proof fn lemma_path_stays(conns: Seq<Connection>, p: Seq<u64>, f: spec_fn(u64) -> bool)
    requires
        is_path(conns, p),
        f(p[0]),
        forall|x: u64, y: u64| f(x) && edge(conns, x, y) ==> f(y),
    ensures
        f(p.last()),
    decreases p.len(),
{
    if p.len() > 1 {
        assert(edge(conns, p[0], p[1]));
        let rest = p.drop_first();
        assert(is_path(conns, rest)) by {
            assert(forall|i: int|
                0 <= i < rest.len() - 1 ==> (#[trigger] rest[i]) == p[i + 1] && rest[i + 1] == p[i
                + 2]);
        }
        assert(rest[0] == p[1] && f(p[1]));
        lemma_path_stays(conns, rest, f);
        assert(rest.last() == p.last());
    }
}

/// How many slots are still unvisited.
pub open spec fn count_false(s: Seq<bool>) -> int
    decreases s.len(),
{
    if s.len() == 0 {
        0
    } else {
        count_false(s.drop_last()) + if s.last() {
            0int
        } else {
            1int
        }
    }
}

pub proof fn lemma_count_false_nonneg(s: Seq<bool>)
    ensures
        count_false(s) >= 0,
    decreases s.len(),
{
    if s.len() > 0 {
        lemma_count_false_nonneg(s.drop_last());
    }
}

/// Marking an unvisited slot shrinks the count by one.
proof fn lemma_count_false_update(s: Seq<bool>, i: int)
    requires
        0 <= i < s.len(),
        !s[i],
    ensures
        count_false(s.update(i, true)) == count_false(s) - 1,
    decreases s.len(),
{
    let t = s.update(i, true);
    if i == s.len() - 1 {
        assert(t.drop_last() =~= s.drop_last());
    } else {
        assert(t.drop_last() =~= s.drop_last().update(i, true));
        lemma_count_false_update(s.drop_last(), i);
        assert(t.last() == s.last());
    }
}

/// The module id `id` is marked in the visited map.
pub open spec fn visited_id(v: Seq<bool>, nodes: Seq<GraphNode>, id: u64) -> bool {
    exists|i: int| 0 <= i < nodes.len() && (#[trigger] nodes[i]).module.id == id && v[i]
}

/// The signal graph.
pub struct AudioGraph {
    pub nodes: Vec<GraphNode>,
    pub connections: Vec<Connection>,
    pub sample_rate: u32,
    pub output_node: Option<u64>,
}

impl AudioGraph {
    /// Every structural invariant of the graph.  The sample rate is
    /// held to the range audio devices supply, 8 kHz to 192 kHz; the
    /// DSP bounds proofs lean on both ends.
    pub open spec fn wf(self) -> bool {
        &&& 8_000 <= self.sample_rate <= 192_000
        &&& distinct_ids(self.nodes@)
        &&& forall|i: int| 0 <= i < self.nodes@.len() ==> (#[trigger] self.nodes@[i]).module.wf()
        &&& forall|i: int| 0 <= i < self.nodes@.len() ==> (#[trigger] self.nodes@[i]).unit.wf()
        &&& forall|i: int|
            0 <= i < self.nodes@.len() ==> crate::dsp::matching_shape(
                (#[trigger] self.nodes@[i]).unit,
                self.nodes@[i].module,
            )
        &&& forall|k: int|
            0 <= k < self.connections@.len() ==> has_node(
                self.nodes@,
                (#[trigger] self.connections@[k]).from_module,
            ) && has_node(self.nodes@, self.connections@[k].to_module)
        &&& forall|k: int|
            0 <= k < self.connections@.len() ==> ports_in_range(
                self.nodes@,
                #[trigger] self.connections@[k],
            )
        &&& forall|k: int, l: int|
            0 <= k < l < self.connections@.len() ==> (#[trigger] self.connections@[k]) != (
            #[trigger] self.connections@[l])
        &&& forall|k: int, l: int|
            0 <= k < l < self.connections@.len() ==> !((#[trigger] self.connections@[k]).to_module
                == (#[trigger] self.connections@[l]).to_module && self.connections@[k].to_input
                == self.connections@[l].to_input)
        &&& acyclic(self.connections@)
        &&& match self.output_node {
            Some(id) => has_node(self.nodes@, id),
            None => true,
        }
    }

    pub fn new(sample_rate: u32) -> (r: AudioGraph)
        requires
            8_000 <= sample_rate <= 192_000,
        ensures
            r.wf(),
            r.nodes@.len() == 0,
            r.connections@.len() == 0,
            r.sample_rate == sample_rate,
            r.output_node is None,
    {
        AudioGraph {
            nodes: Vec::new(),
            connections: Vec::new(),
            sample_rate,
            output_node: None,
        }
    }

    /// Index of the node carrying this module id.
    pub fn find_node(&self, id: u64) -> (r: Option<usize>)
        ensures
            match r {
                Some(i) => i < self.nodes@.len() && self.nodes@[i as int].module.id == id,
                None => !has_node(self.nodes@, id),
            },
    {
        let mut i: usize = 0;
        while i < self.nodes.len()
            invariant
                i <= self.nodes@.len(),
                forall|j: int| 0 <= j < i ==> (#[trigger] self.nodes@[j]).module.id != id,
            decreases self.nodes@.len() - i,
        {
            if self.nodes[i].module.id == id {
                return Some(i);
            }
            i = i + 1;
        }
        None
    }

    /// Whether `target` can be reached from `from` along the current
    /// connections, by iterating the visited set to a fixed point.
    pub fn reachable(&self, from: u64, target: u64) -> (r: bool)
        requires
            self.wf(),
        ensures
            r == reaches(self.connections@, from, target),
    {
        if from == target {
            proof {
                lemma_reach_refl(self.connections@, from);
            }
            return true;
        }
        let start: usize = match self.find_node(from) {
            Some(i) => i,
            None => {
                proof {
                    if reaches(self.connections@, from, target) {
                        let p = choose|p: Seq<u64>|
                            is_path(self.connections@, p) && p[0] == from && p.last() == target;
                        if p.len() == 1 {
                            assert(from == target);
                        } else {
                            assert(edge(self.connections@, p[0], p[1]));
                            let k = choose|k: int|
                                0 <= k < self.connections@.len() && (
                                #[trigger] self.connections@[k]).from_module == p[0]
                                    && self.connections@[k].to_module == p[1];
                            assert(has_node(self.nodes@, from));
                        }
                        assert(false);
                    }
                }
                return false;
            },
        };
        let n: usize = self.nodes.len();
        let mut visited: Vec<bool> = make_false_vec(n);
        visited[start] = true;
        proof {
            lemma_reach_refl(self.connections@, from);
            lemma_count_false_nonneg(visited@);
        }
        let mut changed: bool = true;
        while changed
            invariant
                self.wf(),
                from != target,
                visited@.len() == n,
                n == self.nodes@.len(),
                start < n,
                self.nodes@[start as int].module.id == from,
                visited@[start as int],
                forall|i: int|
                    0 <= i < n && visited@[i] ==> reaches(
                        self.connections@,
                        from,
                        (#[trigger] self.nodes@[i]).module.id,
                    ),
                forall|i: int| 0 <= i < n && visited@[i] ==> (#[trigger] self.nodes@[i]).module.id
                    != target,
                count_false(visited@) >= 0,
                !changed ==> (forall|k: int|
                    0 <= k < self.connections@.len() && visited_id(
                        visited@,
                        self.nodes@,
                        (#[trigger] self.connections@[k]).from_module,
                    ) ==> visited_id(visited@, self.nodes@, self.connections@[k].to_module)),
            decreases count_false(visited@) + if changed {
                1int
            } else {
                0int
            },
    	{
            let ghost pass_start = visited@;
            changed = false;
            let mut k: usize = 0;
            while k < self.connections.len()
                invariant
                    self.wf(),
                    from != target,
                    visited@.len() == n,
                    n == self.nodes@.len(),
                    start < n,
                    self.nodes@[start as int].module.id == from,
                    visited@[start as int],
                    forall|i: int|
                        0 <= i < n && visited@[i] ==> reaches(
                            self.connections@,
                            from,
                            (#[trigger] self.nodes@[i]).module.id,
                        ),
                    forall|i: int|
                        0 <= i < n && visited@[i] ==> (#[trigger] self.nodes@[i]).module.id
                            != target,
                    !changed ==> visited@ == pass_start,
                    changed ==> count_false(visited@) < count_false(pass_start),
                    count_false(visited@) <= count_false(pass_start),
                    count_false(visited@) >= 0,
                    !changed ==> (forall|kk: int|
                        0 <= kk < k && visited_id(
                            visited@,
                            self.nodes@,
                            (#[trigger] self.connections@[kk]).from_module,
                        ) ==> visited_id(visited@, self.nodes@, self.connections@[kk].to_module)),
                decreases self.connections@.len() - k,
            {
                let c: Connection = self.connections[k];
                if self.id_visited(&visited, c.from_module) {
                    match self.find_node(c.to_module) {
                        Some(ti) => {
                            if self.nodes[ti].module.id == target {
                                proof {
                                    let fi = choose|i: int|
                                        0 <= i < self.nodes@.len() && (
                                        #[trigger] self.nodes@[i]).module.id == c.from_module
                                            && visited@[i];
                                    assert(reaches(self.connections@, from, c.from_module));
                                    assert(edge(self.connections@, c.from_module, c.to_module))
                                        by {
                                        assert(0 <= k < self.connections@.len()
                                            && self.connections@[k as int].from_module
                                            == c.from_module && self.connections@[
                                        k as int].to_module == c.to_module);
                                    }
                                    lemma_reach_step(
                                        self.connections@,
                                        from,
                                        c.from_module,
                                        c.to_module,
                                    );
                                }
                                return true;
                            }
                            if !visited[ti] {
                                proof {
                                    lemma_count_false_update(visited@, ti as int);
                                    lemma_count_false_nonneg(visited@.update(ti as int, true));
                                    let fi = choose|i: int|
                                        0 <= i < self.nodes@.len() && (
                                        #[trigger] self.nodes@[i]).module.id == c.from_module
                                            && visited@[i];
                                    assert(reaches(self.connections@, from, c.from_module));
                                    assert(edge(self.connections@, c.from_module, c.to_module))
                                        by {
                                        assert(0 <= k < self.connections@.len()
                                            && self.connections@[k as int].from_module
                                            == c.from_module && self.connections@[
                                        k as int].to_module == c.to_module);
                                    }
                                    lemma_reach_step(
                                        self.connections@,
                                        from,
                                        c.from_module,
                                        c.to_module,
                                    );
                                }
                                visited[ti] = true;
                                changed = true;
                            }
                        },
                        None => {
                            proof {
                                assert(has_node(self.nodes@, c.to_module));
                                assert(false);
                            }
                        },
                    }
                }
                k = k + 1;
            }
        }
        proof {
            if reaches(self.connections@, from, target) {
                let f = |id: u64| visited_id(visited@, self.nodes@, id);
                let p = choose|p: Seq<u64>|
                    is_path(self.connections@, p) && p[0] == from && p.last() == target;
                assert(f(from)) by {
                    assert(0 <= start < self.nodes@.len() && self.nodes@[start as int].module.id
                        == from && visited@[start as int]);
                }
                assert forall|x: u64, y: u64| f(x) && edge(self.connections@, x, y) implies f(
                    y,
                ) by {
                    let k = choose|k: int|
                        0 <= k < self.connections@.len() && (
                        #[trigger] self.connections@[k]).from_module == x
                            && self.connections@[k].to_module == y;
                    assert(visited_id(visited@, self.nodes@, x));
                }
                lemma_path_stays(self.connections@, p, f);
                assert(f(target));
                let t = choose|i: int|
                    0 <= i < self.nodes@.len() && (#[trigger] self.nodes@[i]).module.id == target
                        && visited@[i];
                assert(false);
            }
        }
        false
    }

    /// Whether the node with this id is marked visited.
    fn id_visited(&self, visited: &Vec<bool>, id: u64) -> (r: bool)
        requires
            visited@.len() == self.nodes@.len(),
        ensures
            r == visited_id(visited@, self.nodes@, id),
    {
        let mut i: usize = 0;
        while i < self.nodes.len()
            invariant
                i <= self.nodes@.len(),
                visited@.len() == self.nodes@.len(),
                forall|j: int|
                    0 <= j < i ==> !((#[trigger] self.nodes@[j]).module.id == id && visited@[j]),
            decreases self.nodes@.len() - i,
        {
            if self.nodes[i].module.id == id && visited[i] {
                return true;
            }
            i = i + 1;
        }
        false
    }
}

/// A vector of `n` unvisited marks.
fn make_false_vec(n: usize) -> (r: Vec<bool>)
    ensures
        r@.len() == n,
        forall|i: int| 0 <= i < n ==> !r@[i],
{
    let mut v: Vec<bool> = Vec::new();
    let mut i: usize = 0;
    while i < n
        invariant
            i <= n,
            v@.len() == i,
            forall|j: int| 0 <= j < i ==> !v@[j],
        decreases n - i,
    {
        v.push(false);
        i = i + 1;
    }
    v
}

/// The verdict `add_connection` must return, in priority order:
/// missing endpoints, ports out of range, an exact duplicate, an
/// occupied destination port, a cycle; otherwise success.
pub open spec fn add_connection_result(
    nodes: Seq<GraphNode>,
    conns: Seq<Connection>,
    c: Connection,
) -> Result<(), GraphError> {
    if !(has_node(nodes, c.from_module) && has_node(nodes, c.to_module)) {
        Err(GraphError::InvalidReference)
    } else if !ports_in_range(nodes, c) {
        Err(GraphError::PortOutOfRange)
    } else if conns.contains(c) {
        Err(GraphError::DuplicateConnection)
    } else if exists|l: int|
        0 <= l < conns.len() && (#[trigger] conns[l]).to_module == c.to_module
            && conns[l].to_input == c.to_input {
        Err(GraphError::InputOccupied)
    } else if reaches(conns, c.to_module, c.from_module) {
        Err(GraphError::CycleDetected)
    } else {
        Ok(())
    }
}

/// One step of filtering: taking one more element appends it exactly
/// when the predicate holds.
pub proof fn lemma_filter_take_step<A>(s: Seq<A>, i: int, pred: spec_fn(A) -> bool)
    requires
        0 <= i < s.len(),
    ensures
        s.take(i + 1).filter(pred) == if pred(s[i]) {
            s.take(i).filter(pred).push(s[i])
        } else {
            s.take(i).filter(pred)
        },
{
    reveal_with_fuel(Seq::filter, 2);
    let t = s.take(i + 1);
    assert(t.drop_last() =~= s.take(i));
    assert(t.last() == s[i]);
    assert(t.len() == i + 1);
    assert(t.filter(pred) == if pred(t.last()) {
        t.drop_last().filter(pred).push(t.last())
    } else {
        t.drop_last().filter(pred)
    });
}

impl AudioGraph {
    /// Register a module: its DSP unit is realized from the current
    /// parameter values and the node is added, or replaces the node
    /// already carrying its id.  On replacement, connections whose
    /// ports the new descriptor no longer offers are dropped.  The
    /// most recently added output module becomes the active output.
    pub fn add_module(&mut self, module: AudioModule) -> (r: u64)
        requires
            old(self).wf(),
            module.wf(),
        ensures
            final(self).wf(),
            r == module.id,
            final(self).sample_rate == old(self).sample_rate,
            has_node(final(self).nodes@, module.id),
            module.module_type == ModuleType::Output ==> final(self).output_node == Some(
                module.id,
            ),
            module.module_type != ModuleType::Output ==> final(self).output_node == old(self).output_node,
            !has_node(old(self).nodes@, module.id) ==> {
                &&& final(self).nodes@.len() == old(self).nodes@.len() + 1
                &&& forall|j: int|
                    0 <= j < old(self).nodes@.len() ==> final(self).nodes@[j] == old(self).nodes@[j]
                &&& module_eq(final(self).nodes@.last().module, module)
                &&& final(self).connections@ == old(self).connections@
            },
            has_node(old(self).nodes@, module.id) ==> exists|i: int|
                {
                    &&& 0 <= i < old(self).nodes@.len()
                    &&& old(self).nodes@[i].module.id == module.id
                    &&& final(self).nodes@.len() == old(self).nodes@.len()
                    &&& (forall|j: int|
                        0 <= j < old(self).nodes@.len() && j != i ==> final(self).nodes@[j]
                            == old(self).nodes@[j])
                    &&& module_eq(final(self).nodes@[i].module, module)
                    &&& final(self).connections@ == old(self).connections@.filter(
                        replacement_keeps(module),
                    )
                },
    {
        let id: u64 = module.id;
        let unit = DspUnit::from_module(&module, self.sample_rate);
        let is_output: bool = match module.module_type {
            ModuleType::Output => true,
            _ => false,
        };
        match self.find_node(id) {
            Some(i) => {
                let stored = module.clone_module();
                proof {
                    lemma_module_eq_wf(stored, module);
                }
                let in_count: usize = stored.input_count;
                let out_count: usize = stored.output_count;
                self.nodes[i] = GraphNode { module: stored, unit };
                // drop connections whose ports the new descriptor no
                // longer offers
                let mut kept: Vec<Connection> = Vec::new();
                let mut k: usize = 0;
                let ghost pred = replacement_keeps(module);
                let ghost mut src: Seq<int> = Seq::empty();
                while k < self.connections.len()
                    invariant
                        k <= self.connections@.len(),
                        self.connections@ == old(self).connections@,
                        pred == replacement_keeps(module),
                        id == module.id,
                        in_count == module.input_count,
                        out_count == module.output_count,
                        kept@ == self.connections@.take(k as int).filter(pred),
                        src.len() == kept@.len(),
                        forall|a: int| 0 <= a < src.len() ==> 0 <= #[trigger] src[a] < k,
                        forall|a: int, b: int|
                            0 <= a < b < src.len() ==> #[trigger] src[a] < #[trigger] src[b],
                        forall|a: int|
                            0 <= a < src.len() ==> (#[trigger] kept@[a])
                                == self.connections@[src[a]],
                    decreases self.connections@.len() - k,
                {
                    let c: Connection = self.connections[k];
                    proof {
                        lemma_filter_take_step(self.connections@, k as int, pred);
                    }
                    let drop_c: bool = (c.from_module == id && c.from_output >= out_count) || (
                    c.to_module == id && c.to_input >= in_count);
                    if !drop_c {
                        let ghost prev = kept@;
                        kept.push(c);
                        proof {
                            src = src.push(k as int);
                            assert(kept@ == prev.push(c));
                            assert(forall|a: int| 0 <= a < prev.len() ==> kept@[a] == prev[a]);
                            assert(kept@[kept@.len() - 1] == self.connections@[k as int]);
                            assert(src[src.len() - 1] == k as int);
                        }
                    }
                    k = k + 1;
                }
                proof {
                    assert(self.connections@.take(self.connections@.len() as int)
                        =~= self.connections@);
                }
                let ghost kept_snap = kept@;
                self.connections = kept;
                if is_output {
                    self.output_node = Some(id);
                }
                proof {
                    let nn = self.nodes@;
                    let on = old(self).nodes@;
                    let nc = self.connections@;
                    let oc = old(self).connections@;
                    assert(nn =~= on.update(i as int, GraphNode { module: stored, unit }));
                    assert(nc == kept_snap);
                    assert(oc.take(oc.len() as int) =~= oc);
                    assert(nc == oc.filter(pred));
                    assert forall|a: int|
                        0 <= a < nc.len() implies (#[trigger] nc[a]) == oc[src[a]] by {
                        assert(kept_snap[a] == oc[src[a]]);
                    }
                    assert forall|kk: int| 0 <= kk < nc.len() implies pred(#[trigger] nc[kk]) by {
                        assert(nc[kk] == oc.filter(pred)[kk]);
                    }
                    lemma_acyclic_from_map(nc, oc, src);
                    lemma_pairwise_from_map(nc, oc, src);
                    assert forall|kk: int| 0 <= kk < nc.len() implies has_node(
                        nn,
                        (#[trigger] nc[kk]).from_module,
                    ) && has_node(nn, nc[kk].to_module) && ports_in_range(nn, nc[kk]) by {
                        let c = nc[kk];
                        assert(nc[kk] == oc[src[kk]]);
                        assert(pred(c));
                        assert(has_node(on, c.from_module) && has_node(on, c.to_module));
                        let fi2 = choose|x: int|
                            0 <= x < on.len() && (#[trigger] on[x]).module.id == c.from_module;
                        let ti2 = choose|x: int|
                            0 <= x < on.len() && (#[trigger] on[x]).module.id == c.to_module;
                        assert(nn[fi2].module.id == c.from_module || fi2 == i as int);
                        assert(nn[ti2].module.id == c.to_module || ti2 == i as int);
                        assert(has_node(nn, c.from_module)) by {
                            if fi2 == i as int {
                                assert(nn[i as int].module.id == module.id);
                                assert(on[i as int].module.id == module.id);
                            } else {
                                assert(nn[fi2] == on[fi2]);
                            }
                        }
                        assert(has_node(nn, c.to_module)) by {
                            if ti2 == i as int {
                                assert(nn[i as int].module.id == module.id);
                                assert(on[i as int].module.id == module.id);
                            } else {
                                assert(nn[ti2] == on[ti2]);
                            }
                        }
                        assert(ports_in_range(on, c));
                        assert forall|x: int|
                            0 <= x < nn.len() && (#[trigger] nn[x]).module.id == c.from_module
                                implies c.from_output < nn[x].module.output_count by {
                            if x == i as int {
                                assert(nn[x].module.id == module.id);
                            } else {
                                assert(nn[x] == on[x]);
                            }
                        }
                        assert forall|x: int|
                            0 <= x < nn.len() && (#[trigger] nn[x]).module.id == c.to_module
                                implies c.to_input < nn[x].module.input_count by {
                            if x == i as int {
                                assert(nn[x].module.id == module.id);
                            } else {
                                assert(nn[x] == on[x]);
                            }
                        }
                    }
                    assert(distinct_ids(nn)) by {
                        assert(forall|x: int|
                            0 <= x < nn.len() ==> (#[trigger] nn[x]).module.id
                                == on[x].module.id);
                    }
                    assert(forall|x: int|
                        0 <= x < nn.len() ==> (#[trigger] nn[x]).module.wf() && nn[x].unit.wf());
                    assert forall|x: int| 0 <= x < nn.len() implies crate::dsp::matching_shape(
                        (#[trigger] nn[x]).unit,
                        nn[x].module,
                    ) by {
                        if x == i as int {
                            crate::dsp::lemma_dsp_matches_shape(
                                unit,
                                module,
                                old(self).sample_rate,
                            );
                        } else {
                            assert(nn[x] == on[x]);
                        }
                    }
                    match self.output_node {
                        Some(oid) => {
                            if oid == id {
                                assert(nn[i as int].module.id == id);
                                assert(has_node(nn, oid));
                            } else {
                                assert(has_node(on, oid));
                                let x = choose|x: int|
                                    0 <= x < on.len() && (#[trigger] on[x]).module.id == oid;
                                if x == i as int {
                                    assert(nn[x].module.id == module.id);
                                    assert(on[x].module.id == module.id);
                                } else {
                                    assert(nn[x] == on[x]);
                                }
                                assert(has_node(nn, oid));
                            }
                        },
                        None => {},
                    }
                }
                id
            },
            None => {
                let stored = module.clone_module();
                proof {
                    lemma_module_eq_wf(stored, module);
                }
                self.nodes.push(GraphNode { module: stored, unit });
                if is_output {
                    self.output_node = Some(id);
                }
                proof {
                    let nn = self.nodes@;
                    let on = old(self).nodes@;
                    assert forall|kk: int|
                        0 <= kk < self.connections@.len() implies has_node(
                        nn,
                        (#[trigger] self.connections@[kk]).from_module,
                    ) && has_node(nn, self.connections@[kk].to_module) by {
                        let c = self.connections@[kk];
                        let fi = choose|j: int|
                            0 <= j < on.len() && (#[trigger] on[j]).module.id == c.from_module;
                        let ti = choose|j: int|
                            0 <= j < on.len() && (#[trigger] on[j]).module.id == c.to_module;
                        assert(nn[fi] == on[fi] && nn[ti] == on[ti]);
                    }
                    assert forall|kk: int|
                        0 <= kk < self.connections@.len() implies ports_in_range(
                        nn,
                        #[trigger] self.connections@[kk],
                    ) by {
                        let c = self.connections@[kk];
                        assert(ports_in_range(on, c));
                        assert forall|j: int|
                            0 <= j < nn.len() && (#[trigger] nn[j]).module.id == c.from_module
                                implies c.from_output < nn[j].module.output_count by {
                            if j < on.len() {
                                assert(nn[j] == on[j]);
                            } else {
                                // the new node cannot be an endpoint:
                                // its id was absent
                                assert(has_node(on, c.from_module));
                                let fi = choose|jj: int|
                                    0 <= jj < on.len() && (#[trigger] on[jj]).module.id
                                        == c.from_module;
                                assert(false);
                            }
                        }
                        assert forall|j: int|
                            0 <= j < nn.len() && (#[trigger] nn[j]).module.id == c.to_module
                                implies c.to_input < nn[j].module.input_count by {
                            if j < on.len() {
                                assert(nn[j] == on[j]);
                            } else {
                                assert(has_node(on, c.to_module));
                                let ti = choose|jj: int|
                                    0 <= jj < on.len() && (#[trigger] on[jj]).module.id
                                        == c.to_module;
                                assert(false);
                            }
                        }
                    }
                    assert forall|j: int| 0 <= j < nn.len() implies crate::dsp::matching_shape(
                        (#[trigger] nn[j]).unit,
                        nn[j].module,
                    ) by {
                        if j < on.len() {
                            assert(nn[j] == on[j]);
                        } else {
                            crate::dsp::lemma_dsp_matches_shape(
                                unit,
                                module,
                                old(self).sample_rate,
                            );
                        }
                    }
                    match self.output_node {
                        Some(oid) => {
                            if oid == id {
                                assert(nn[nn.len() - 1].module.id == module.id);
                                assert(has_node(nn, oid));
                            } else {
                                assert(has_node(on, oid));
                                let x = choose|x: int|
                                    0 <= x < on.len() && (#[trigger] on[x]).module.id == oid;
                                assert(nn[x] == on[x]);
                                assert(has_node(nn, oid));
                            }
                        },
                        None => {},
                    }
                }
                id
            },
        }
    }

    /// Drop the module with this id: its node disappears and exactly
    /// the connections touching it are removed, no others.  The
    /// active output is cleared if it was this module.
    pub fn remove_module(&mut self, id: u64)
        requires
            old(self).wf(),
        ensures
            final(self).wf(),
            final(self).sample_rate == old(self).sample_rate,
            !has_node(final(self).nodes@, id),
            final(self).connections@ == old(self).connections@.filter(not_touching(id)),
            has_node(old(self).nodes@, id) ==> exists|i: int|
                {
                    &&& 0 <= i < old(self).nodes@.len()
                    &&& old(self).nodes@[i].module.id == id
                    &&& final(self).nodes@ == old(self).nodes@.remove(i)
                },
            !has_node(old(self).nodes@, id) ==> final(self).nodes@ == old(self).nodes@,
            final(self).output_node == if old(self).output_node == Some(id) {
                None::<u64>
            } else {
                old(self).output_node
            },
    {
        let ghost pred = not_touching(id);
        match self.find_node(id) {
            Some(i) => {
                let mut kept: Vec<Connection> = Vec::new();
                let mut k: usize = 0;
                let ghost mut src: Seq<int> = Seq::empty();
                while k < self.connections.len()
                    invariant
                        k <= self.connections@.len(),
                        self.connections@ == old(self).connections@,
                        pred == not_touching(id),
                        kept@ == self.connections@.take(k as int).filter(pred),
                        src.len() == kept@.len(),
                        forall|a: int| 0 <= a < src.len() ==> 0 <= #[trigger] src[a] < k,
                        forall|a: int, b: int|
                            0 <= a < b < src.len() ==> #[trigger] src[a] < #[trigger] src[b],
                        forall|a: int|
                            0 <= a < src.len() ==> (#[trigger] kept@[a])
                                == self.connections@[src[a]],
                    decreases self.connections@.len() - k,
                {
                    let c: Connection = self.connections[k];
                    proof {
                        lemma_filter_take_step(self.connections@, k as int, pred);
                    }
                    if !(c.from_module == id || c.to_module == id) {
                        let ghost prev = kept@;
                        kept.push(c);
                        proof {
                            src = src.push(k as int);
                            assert(kept@ == prev.push(c));
                            assert(forall|a: int| 0 <= a < prev.len() ==> kept@[a] == prev[a]);
                            assert(kept@[kept@.len() - 1] == self.connections@[k as int]);
                            assert(src[src.len() - 1] == k as int);
                        }
                    }
                    k = k + 1;
                }
                proof {
                    assert(self.connections@.take(self.connections@.len() as int)
                        =~= self.connections@);
                }
                let ghost kept_snap = kept@;
                self.connections = kept;
                self.nodes.remove(i);
                let clear: bool = match self.output_node {
                    Some(oid) => oid == id,
                    None => false,
                };
                if clear {
                    self.output_node = None;
                }
                proof {
                    let nn = self.nodes@;
                    let on = old(self).nodes@;
                    let nc = self.connections@;
                    let oc = old(self).connections@;
                    assert(nn == on.remove(i as int));
                    assert(nc == kept_snap);
                    assert(oc.take(oc.len() as int) =~= oc);
                    assert(nc == oc.filter(pred));
                    assert forall|a: int|
                        0 <= a < nc.len() implies (#[trigger] nc[a]) == oc[src[a]] by {
                        assert(kept_snap[a] == oc[src[a]]);
                    }
                    assert forall|kk: int| 0 <= kk < nc.len() implies pred(#[trigger] nc[kk]) by {
                        assert(nc[kk] == oc.filter(pred)[kk]);
                    }
                    lemma_acyclic_from_map(nc, oc, src);
                    lemma_pairwise_from_map(nc, oc, src);
                    assert(forall|m: int| 0 <= m < i ==> #[trigger] nn[m] == on[m]);
                    assert(forall|m: int|
                        i <= m < nn.len() ==> #[trigger] nn[m] == on[m + 1]);
                    assert forall|kk: int| 0 <= kk < nc.len() implies has_node(
                        nn,
                        (#[trigger] nc[kk]).from_module,
                    ) && has_node(nn, nc[kk].to_module) && ports_in_range(nn, nc[kk]) by {
                        let c = nc[kk];
                        assert(nc[kk] == oc[src[kk]]);
                        assert(pred(c));
                        assert(c.from_module != id && c.to_module != id);
                        assert(has_node(on, c.from_module) && has_node(on, c.to_module));
                        let fi2 = choose|x: int|
                            0 <= x < on.len() && (#[trigger] on[x]).module.id == c.from_module;
                        let ti2 = choose|x: int|
                            0 <= x < on.len() && (#[trigger] on[x]).module.id == c.to_module;
                        assert(fi2 != i && ti2 != i);
                        if fi2 < i {
                            assert(nn[fi2].module.id == c.from_module);
                        } else {
                            assert(nn[fi2 - 1].module.id == c.from_module);
                        }
                        if ti2 < i {
                            assert(nn[ti2].module.id == c.to_module);
                        } else {
                            assert(nn[ti2 - 1].module.id == c.to_module);
                        }
                        assert(ports_in_range(on, c));
                        assert forall|x: int|
                            0 <= x < nn.len() && (#[trigger] nn[x]).module.id == c.from_module
                                implies c.from_output < nn[x].module.output_count by {
                            if x < i {
                                assert(nn[x] == on[x]);
                            } else {
                                assert(nn[x] == on[x + 1]);
                            }
                        }
                        assert forall|x: int|
                            0 <= x < nn.len() && (#[trigger] nn[x]).module.id == c.to_module
                                implies c.to_input < nn[x].module.input_count by {
                            if x < i {
                                assert(nn[x] == on[x]);
                            } else {
                                assert(nn[x] == on[x + 1]);
                            }
                        }
                    }
                    assert(distinct_ids(nn)) by {
                        assert forall|x: int, y: int| 0 <= x < y < nn.len() implies (
                        #[trigger] nn[x]).module.id != (#[trigger] nn[y]).module.id by {
                            if x < i {
                                assert(nn[x] == on[x]);
                            } else {
                                assert(nn[x] == on[x + 1]);
                            }
                            if y < i {
                                assert(nn[y] == on[y]);
                            } else {
                                assert(nn[y] == on[y + 1]);
                            }
                        }
                    }
                    assert(!has_node(nn, id)) by {
                        if has_node(nn, id) {
                            let x = choose|x: int|
                                0 <= x < nn.len() && (#[trigger] nn[x]).module.id == id;
                            if x < i {
                                assert(on[x].module.id == id && on[i as int].module.id == id);
                            } else {
                                assert(on[x + 1].module.id == id && on[i as int].module.id
                                    == id);
                            }
                            assert(false);
                        }
                    }
                    assert(forall|x: int|
                        0 <= x < nn.len() ==> (#[trigger] nn[x]).module.wf() && nn[x].unit.wf());
                    assert forall|x: int| 0 <= x < nn.len() implies crate::dsp::matching_shape(
                        (#[trigger] nn[x]).unit,
                        nn[x].module,
                    ) by {
                        if x < i {
                            assert(nn[x] == on[x]);
                        } else {
                            assert(nn[x] == on[x + 1]);
                        }
                    }
                    match self.output_node {
                        Some(oid) => {
                            assert(oid != id);
                            assert(has_node(on, oid));
                            let x = choose|x: int|
                                0 <= x < on.len() && (#[trigger] on[x]).module.id == oid;
                            assert(x != i);
                            if x < i {
                                assert(nn[x].module.id == oid);
                            } else {
                                assert(nn[x - 1].module.id == oid);
                            }
                        },
                        None => {},
                    }
                }
            },
            None => {
                proof {
                    let oc = self.connections@;
                    assert(oc.filter(pred) =~= oc) by {
                        lemma_filter_all_kept(oc, pred);
                        assert forall|kk: int| 0 <= kk < oc.len() implies pred(
                            #[trigger] oc[kk],
                        ) by {
                            assert(has_node(self.nodes@, oc[kk].from_module));
                            assert(has_node(self.nodes@, oc[kk].to_module));
                            if oc[kk].from_module == id || oc[kk].to_module == id {
                                assert(has_node(self.nodes@, id));
                            }
                        }
                    }
                }
            },
        }
    }

    /// Connect an output port to an input port, after full
    /// validation; on any failure the graph is unchanged.
    pub fn add_connection(&mut self, connection: Connection) -> (r: Result<(), GraphError>)
        requires
            old(self).wf(),
        ensures
            final(self).wf(),
            final(self).nodes@ == old(self).nodes@,
            final(self).output_node == old(self).output_node,
            final(self).sample_rate == old(self).sample_rate,
            r == add_connection_result(old(self).nodes@, old(self).connections@, connection),
            r is Err ==> final(self).connections@ == old(self).connections@,
            r is Ok ==> final(self).connections@ == old(self).connections@.push(connection),
            acyclic(final(self).connections@),
    {
        let c = connection;
        let fi: usize = match self.find_node(c.from_module) {
            Some(i) => i,
            None => {
                return Err(GraphError::InvalidReference);
            },
        };
        let ti: usize = match self.find_node(c.to_module) {
            Some(i) => i,
            None => {
                return Err(GraphError::InvalidReference);
            },
        };
        if c.from_output >= self.nodes[fi].module.output_count || c.to_input
            >= self.nodes[ti].module.input_count {
            proof {
                assert(!ports_in_range(self.nodes@, c));
            }
            return Err(GraphError::PortOutOfRange);
        }
        proof {
            assert forall|j: int|
                0 <= j < self.nodes@.len() && (#[trigger] self.nodes@[j]).module.id
                    == c.from_module implies c.from_output < self.nodes@[j].module.output_count by {
                if j != fi as int {
                    assert(self.nodes@[fi as int].module.id == c.from_module);
                }
            }
            assert forall|j: int|
                0 <= j < self.nodes@.len() && (#[trigger] self.nodes@[j]).module.id
                    == c.to_module implies c.to_input < self.nodes@[j].module.input_count by {
                if j != ti as int {
                    assert(self.nodes@[ti as int].module.id == c.to_module);
                }
            }
        }
        if self.contains_connection(c) {
            return Err(GraphError::DuplicateConnection);
        }
        if self.input_occupied(c.to_module, c.to_input) {
            return Err(GraphError::InputOccupied);
        }
        if self.reachable(c.to_module, c.from_module) {
            return Err(GraphError::CycleDetected);
        }
        proof {
            lemma_extend_acyclic(self.connections@, c);
        }
        self.connections.push(c);
        proof {
            let nn = self.nodes@;
            let nc = self.connections@;
            let oc = old(self).connections@;
            assert forall|kk: int|
                0 <= kk < nc.len() implies has_node(nn, (#[trigger] nc[kk]).from_module)
                    && has_node(nn, nc[kk].to_module) && ports_in_range(nn, nc[kk]) by {
                if kk < oc.len() {
                    assert(nc[kk] == oc[kk]);
                } else {
                    assert(nc[kk] == c);
                    assert(nn[fi as int].module.id == c.from_module);
                    assert(nn[ti as int].module.id == c.to_module);
                }
            }
            assert forall|kk: int, ll: int| 0 <= kk < ll < nc.len() implies (#[trigger] nc[kk])
                != (#[trigger] nc[ll]) by {
                if ll == nc.len() - 1 {
                    assert(nc[ll] == c);
                    assert(nc[kk] == oc[kk]);
                    if nc[kk] == c {
                        assert(oc.contains(c));
                    }
                } else {
                    assert(nc[kk] == oc[kk] && nc[ll] == oc[ll]);
                }
            }
            assert forall|kk: int, ll: int| 0 <= kk < ll < nc.len() implies !((
            #[trigger] nc[kk]).to_module == (#[trigger] nc[ll]).to_module && nc[kk].to_input
                == nc[ll].to_input) by {
                if ll == nc.len() - 1 {
                    assert(nc[kk] == oc[kk] && nc[ll] == c);
                } else {
                    assert(nc[kk] == oc[kk] && nc[ll] == oc[ll]);
                }
            }
        }
        Ok(())
    }

    /// Remove the exact connection, if present; absent connections
    /// are ignored.
    pub fn remove_connection(&mut self, from_module: u64, from_output: usize, to_module: u64, to_input: usize)
        requires
            old(self).wf(),
        ensures
            final(self).wf(),
            final(self).nodes@ == old(self).nodes@,
            final(self).output_node == old(self).output_node,
            final(self).sample_rate == old(self).sample_rate,
            final(self).connections@ == old(self).connections@.filter(
                not_exactly(from_module, from_output, to_module, to_input),
            ),
    {
        let ghost pred = not_exactly(from_module, from_output, to_module, to_input);
        let mut kept: Vec<Connection> = Vec::new();
        let mut k: usize = 0;
        let ghost mut src: Seq<int> = Seq::empty();
        while k < self.connections.len()
            invariant
                k <= self.connections@.len(),
                self.connections@ == old(self).connections@,
                pred == not_exactly(from_module, from_output, to_module, to_input),
                kept@ == self.connections@.take(k as int).filter(pred),
                src.len() == kept@.len(),
                forall|a: int| 0 <= a < src.len() ==> 0 <= #[trigger] src[a] < k,
                forall|a: int, b: int|
                    0 <= a < b < src.len() ==> #[trigger] src[a] < #[trigger] src[b],
                forall|a: int|
                    0 <= a < src.len() ==> (#[trigger] kept@[a]) == self.connections@[src[a]],
            decreases self.connections@.len() - k,
        {
            let c: Connection = self.connections[k];
            proof {
                lemma_filter_take_step(self.connections@, k as int, pred);
            }
            if !(c.from_module == from_module && c.from_output == from_output && c.to_module
                == to_module && c.to_input == to_input) {
                let ghost prev = kept@;
                kept.push(c);
                proof {
                    src = src.push(k as int);
                    assert(kept@ == prev.push(c));
                    assert(forall|a: int| 0 <= a < prev.len() ==> kept@[a] == prev[a]);
                    assert(kept@[kept@.len() - 1] == self.connections@[k as int]);
                    assert(src[src.len() - 1] == k as int);
                }
            }
            k = k + 1;
        }
        proof {
            assert(self.connections@.take(self.connections@.len() as int) =~= self.connections@);
        }
        let ghost kept_snap = kept@;
        self.connections = kept;
        proof {
            let nn = self.nodes@;
            let nc = self.connections@;
            let oc = old(self).connections@;
            assert(nc == kept_snap);
            assert(oc.take(oc.len() as int) =~= oc);
            assert(nc == oc.filter(pred));
            assert forall|a: int|
                0 <= a < nc.len() implies (#[trigger] nc[a]) == oc[src[a]] by {
                assert(kept_snap[a] == oc[src[a]]);
            }
            assert forall|kk: int| 0 <= kk < nc.len() implies pred(#[trigger] nc[kk]) by {
                assert(nc[kk] == oc.filter(pred)[kk]);
            }
            lemma_acyclic_from_map(nc, oc, src);
            lemma_pairwise_from_map(nc, oc, src);
            assert forall|kk: int| 0 <= kk < nc.len() implies has_node(
                nn,
                (#[trigger] nc[kk]).from_module,
            ) && has_node(nn, nc[kk].to_module) && ports_in_range(nn, nc[kk]) by {
                assert(nc[kk] == oc[src[kk]]);
            }
        }
    }

    /// Apply a descriptor's new parameter values to its existing node
    /// without rebuilding it, so internal DSP state survives; a
    /// missing id, or a descriptor of a different type, changes
    /// nothing.
    pub fn update_module(&mut self, module: &AudioModule) -> (r: Result<(), GraphError>)
        requires
            old(self).wf(),
            module.wf(),
        ensures
            final(self).wf(),
            r is Ok,
            final(self).connections@ == old(self).connections@,
            final(self).output_node == old(self).output_node,
            final(self).sample_rate == old(self).sample_rate,
            forall|j: int|
                0 <= j < old(self).nodes@.len() && old(self).nodes@[j].module.id != module.id
                    ==> final(self).nodes@[j] == old(self).nodes@[j],
            final(self).nodes@.len() == old(self).nodes@.len(),
            forall|j: int|
                #![all_triggers]
                0 <= j < old(self).nodes@.len() && old(self).nodes@[j].module.id == module.id
                    && old(self).nodes@[j].module.module_type == module.module_type ==> module_eq(
                    final(self).nodes@[j].module,
                    *module,
                ) && dsp_matches(
                    final(self).nodes@[j].unit,
                    *module,
                    old(self).sample_rate,
                ) && crate::dsp::state_preserved(
                    old(self).nodes@[j].unit,
                    final(self).nodes@[j].unit,
                ),
            forall|j: int|
                #![all_triggers]
                0 <= j < old(self).nodes@.len() && old(self).nodes@[j].module.id == module.id
                    && old(self).nodes@[j].module.module_type != module.module_type ==> final(self).nodes@[j] == old(self).nodes@[j],
    {
        match self.find_node(module.id) {
            Some(i) => {
                let same_type: bool = self.nodes[i].module.module_type == module.module_type;
                if same_type {
                    let stored = module.clone_module();
                    proof {
                        lemma_module_eq_wf(stored, *module);
                    }
                    let sr: u32 = self.sample_rate;
                    proof {
                        assert(crate::dsp::matching_shape(
                            self.nodes@[i as int].unit,
                            self.nodes@[i as int].module,
                        ));
                        assert(crate::dsp::matching_shape(self.nodes@[i as int].unit, *module));
                    }
                    let node = &mut self.nodes[i];
                    node.module = stored;
                    node.unit.update_from_module(module, sr);
                    proof {
                        let nn = self.nodes@;
                        let on = old(self).nodes@;
                        crate::dsp::lemma_dsp_matches_shape(nn[i as int].unit, *module, sr);
                        assert forall|x: int| 0 <= x < nn.len() implies crate::dsp::matching_shape(
                            (#[trigger] nn[x]).unit,
                            nn[x].module,
                        ) by {
                            if x != i as int {
                                assert(nn[x] == on[x]);
                            }
                        }
                        assert(forall|x: int|
                            0 <= x < nn.len() && x != i ==> #[trigger] nn[x] == on[x]);
                        assert(nn[i as int].module.id == on[i as int].module.id);
                        assert(distinct_ids(nn)) by {
                            assert(forall|x: int|
                                0 <= x < nn.len() ==> (#[trigger] nn[x]).module.id
                                    == on[x].module.id);
                        }
                        assert(nn[i as int].module.input_count == on[i as int].module.input_count
                            && nn[i as int].module.output_count == on[
                        i as int].module.output_count);
                        assert forall|kk: int| 0 <= kk < self.connections@.len() implies has_node(
                            nn,
                            (#[trigger] self.connections@[kk]).from_module,
                        ) && has_node(nn, self.connections@[kk].to_module) && ports_in_range(
                            nn,
                            self.connections@[kk],
                        ) by {
                            let c = self.connections@[kk];
                            let fi2 = choose|x: int|
                                0 <= x < on.len() && (#[trigger] on[x]).module.id
                                    == c.from_module;
                            let ti2 = choose|x: int|
                                0 <= x < on.len() && (#[trigger] on[x]).module.id == c.to_module;
                            assert(nn[fi2].module.id == c.from_module);
                            assert(nn[ti2].module.id == c.to_module);
                            assert(ports_in_range(on, c));
                            assert forall|x: int|
                                0 <= x < nn.len() && (#[trigger] nn[x]).module.id
                                    == c.from_module implies c.from_output
                                < nn[x].module.output_count by {
                                if x != i as int {
                                    assert(nn[x] == on[x]);
                                }
                            }
                            assert forall|x: int|
                                0 <= x < nn.len() && (#[trigger] nn[x]).module.id == c.to_module
                                    implies c.to_input < nn[x].module.input_count by {
                                if x != i as int {
                                    assert(nn[x] == on[x]);
                                }
                            }
                        }
                        match self.output_node {
                            Some(oid) => {
                                assert(has_node(on, oid));
                                let x = choose|x: int|
                                    0 <= x < on.len() && (#[trigger] on[x]).module.id == oid;
                                assert(nn[x].module.id == oid);
                            },
                            None => {},
                        }
                    }
                }
                Ok(())
            },
            None => Ok(()),
        }
    }

    /// Nudge one parameter of the module with this id and apply the
    /// new value to its DSP unit in place; unknown ids or positions
    /// change nothing.
    pub fn adjust_node_param(&mut self, id: u64, param_index: usize, delta: i64)
        requires
            old(self).wf(),
        ensures
            final(self).wf(),
            final(self).connections@ == old(self).connections@,
            final(self).output_node == old(self).output_node,
            final(self).sample_rate == old(self).sample_rate,
            final(self).nodes@.len() == old(self).nodes@.len(),
            forall|j: int|
                0 <= j < old(self).nodes@.len() && old(self).nodes@[j].module.id != id ==> final(self).nodes@[j] == old(self).nodes@[j],
            forall|j: int|
                #![all_triggers]
                0 <= j < old(self).nodes@.len() && old(self).nodes@[j].module.id == id
                    && param_index < old(self).nodes@[j].module.parameters@.len() ==> final(self).nodes@[j].module.parameters@ == old(self).nodes@[j].module.parameters@.update(
                    param_index as int,
                    crate::params::ModuleParameter {
                        value: crate::params::adjust_result(
                            old(self).nodes@[j].module.parameters@[param_index as int].value as int,
                            old(self).nodes@[j].module.parameters@[param_index as int].min as int,
                            old(self).nodes@[j].module.parameters@[param_index as int].max as int,
                            delta as int,
                        ) as i64,
                        ..old(self).nodes@[j].module.parameters@[param_index as int]
                    },
                ),
    {
        match self.find_node(id) {
            Some(i) => {
                let sr: u32 = self.sample_rate;
                let node = &mut self.nodes[i];
                node.module.adjust_param_at(param_index, delta);
                let m = node.module.clone_module();
                proof {
                    lemma_module_eq_wf(m, node.module);
                }
                node.unit.update_from_module(&m, sr);
                proof {
                    let nn = self.nodes@;
                    let on = old(self).nodes@;
                    assert(forall|x: int|
                        0 <= x < nn.len() && x != i ==> #[trigger] nn[x] == on[x]);
                    assert(nn[i as int].module.id == on[i as int].module.id);
                    assert(nn[i as int].module.module_type == on[i as int].module.module_type);
                    assert(nn[i as int].module.input_count == on[i as int].module.input_count);
                    assert(nn[i as int].module.output_count == on[i as int].module.output_count);
                    assert(distinct_ids(nn)) by {
                        assert(forall|x: int|
                            0 <= x < nn.len() ==> (#[trigger] nn[x]).module.id
                                == on[x].module.id);
                    }
                    crate::dsp::lemma_dsp_matches_shape(nn[i as int].unit, m, sr);
                    assert(crate::dsp::matching_shape(nn[i as int].unit, nn[i as int].module));
                    assert forall|kk: int| 0 <= kk < self.connections@.len() implies has_node(
                        nn,
                        (#[trigger] self.connections@[kk]).from_module,
                    ) && has_node(nn, self.connections@[kk].to_module) && ports_in_range(
                        nn,
                        self.connections@[kk],
                    ) by {
                        let c = self.connections@[kk];
                        let fi2 = choose|x: int|
                            0 <= x < on.len() && (#[trigger] on[x]).module.id == c.from_module;
                        let ti2 = choose|x: int|
                            0 <= x < on.len() && (#[trigger] on[x]).module.id == c.to_module;
                        assert(nn[fi2].module.id == c.from_module);
                        assert(nn[ti2].module.id == c.to_module);
                        assert(ports_in_range(on, c));
                        assert forall|x: int|
                            0 <= x < nn.len() && (#[trigger] nn[x]).module.id == c.from_module
                                implies c.from_output < nn[x].module.output_count by {
                            if x != i as int {
                                assert(nn[x] == on[x]);
                            }
                        }
                        assert forall|x: int|
                            0 <= x < nn.len() && (#[trigger] nn[x]).module.id == c.to_module
                                implies c.to_input < nn[x].module.input_count by {
                            if x != i as int {
                                assert(nn[x] == on[x]);
                            }
                        }
                    }
                    match self.output_node {
                        Some(oid) => {
                            assert(has_node(on, oid));
                            let x = choose|x: int|
                                0 <= x < on.len() && (#[trigger] on[x]).module.id == oid;
                            assert(nn[x].module.id == oid);
                        },
                        None => {},
                    }
                }
            },
            None => {},
        }
    }

    /// Judge a prospective connection without changing anything:
    /// exactly the verdict `add_connection` would return.
    pub fn validate_connection(
        &self,
        from_module: u64,
        from_output: usize,
        to_module: u64,
        to_input: usize,
    ) -> (r: Result<(), GraphError>)
        requires
            self.wf(),
        ensures
            r == add_connection_result(
                self.nodes@,
                self.connections@,
                Connection { from_module, from_output, to_module, to_input },
            ),
    {
        let c = Connection { from_module, from_output, to_module, to_input };
        let fi: usize = match self.find_node(c.from_module) {
            Some(i) => i,
            None => {
                return Err(GraphError::InvalidReference);
            },
        };
        let ti: usize = match self.find_node(c.to_module) {
            Some(i) => i,
            None => {
                return Err(GraphError::InvalidReference);
            },
        };
        if c.from_output >= self.nodes[fi].module.output_count || c.to_input
            >= self.nodes[ti].module.input_count {
            proof {
                assert(!ports_in_range(self.nodes@, c));
            }
            return Err(GraphError::PortOutOfRange);
        }
        proof {
            assert forall|j: int|
                0 <= j < self.nodes@.len() && (#[trigger] self.nodes@[j]).module.id
                    == c.from_module implies c.from_output < self.nodes@[j].module.output_count by {
                if j != fi as int {
                    assert(self.nodes@[fi as int].module.id == c.from_module);
                }
            }
            assert forall|j: int|
                0 <= j < self.nodes@.len() && (#[trigger] self.nodes@[j]).module.id
                    == c.to_module implies c.to_input < self.nodes@[j].module.input_count by {
                if j != ti as int {
                    assert(self.nodes@[ti as int].module.id == c.to_module);
                }
            }
        }
        if self.contains_connection(c) {
            return Err(GraphError::DuplicateConnection);
        }
        if self.input_occupied(c.to_module, c.to_input) {
            return Err(GraphError::InputOccupied);
        }
        if self.reachable(c.to_module, c.from_module) {
            return Err(GraphError::CycleDetected);
        }
        Ok(())
    }

    /// All connections, in insertion order.
    pub fn get_connections(&self) -> (r: &Vec<Connection>)
        ensures
            r@ == self.connections@,
    {
        &self.connections
    }

    /// Whether this exact connection is present.
    fn contains_connection(&self, c: Connection) -> (r: bool)
        ensures
            r == self.connections@.contains(c),
    {
        let mut k: usize = 0;
        while k < self.connections.len()
            invariant
                k <= self.connections@.len(),
                forall|j: int| 0 <= j < k ==> (#[trigger] self.connections@[j]) != c,
            decreases self.connections@.len() - k,
        {
            let d: Connection = self.connections[k];
            if d.from_module == c.from_module && d.from_output == c.from_output && d.to_module
                == c.to_module && d.to_input == c.to_input {
                assert(self.connections@[k as int] == c);
                return true;
            }
            k = k + 1;
        }
        proof {
            if self.connections@.contains(c) {
                let j = choose|j: int|
                    0 <= j < self.connections@.len() && self.connections@[j] == c;
                assert(false);
            }
        }
        false
    }

    /// Whether some connection already feeds this input port.
    fn input_occupied(&self, to_module: u64, to_input: usize) -> (r: bool)
        ensures
            r == exists|l: int|
                0 <= l < self.connections@.len() && (#[trigger] self.connections@[l]).to_module
                    == to_module && self.connections@[l].to_input == to_input,
    {
        let mut k: usize = 0;
        while k < self.connections.len()
            invariant
                k <= self.connections@.len(),
                forall|j: int|
                    0 <= j < k ==> !((#[trigger] self.connections@[j]).to_module == to_module
                        && self.connections@[j].to_input == to_input),
            decreases self.connections@.len() - k,
        {
            let d: Connection = self.connections[k];
            if d.to_module == to_module && d.to_input == to_input {
                return true;
            }
            k = k + 1;
        }
        false
    }

    /// All (module, output port) pairs that could legally feed this
    /// input: every port of every other module from which no walk
    /// already leads back from the destination.
    pub fn get_connectable_outputs(&self, to_module: u64, to_input: usize) -> (r: Vec<(u64, usize)>)
        requires
            self.wf(),
        ensures
            forall|a: int|
                0 <= a < r@.len() ==> connectable(
                    self.nodes@,
                    self.connections@,
                    to_module,
                    (#[trigger] r@[a]).0,
                    r@[a].1,
                ),
            forall|i: int, port: int|
                #![trigger r@.contains((self.nodes@[i].module.id, port as usize))]
                0 <= i < self.nodes@.len() && 0 <= port < self.nodes@[i].module.output_count
                    && self.nodes@[i].module.id != to_module && !reaches(
                    self.connections@,
                    to_module,
                    self.nodes@[i].module.id,
                ) ==> r@.contains((self.nodes@[i].module.id, port as usize)),
    {
        let mut result: Vec<(u64, usize)> = Vec::new();
        let n: usize = self.nodes.len();
        let mut i: usize = 0;
        while i < n
            invariant
                i <= n,
                n == self.nodes@.len(),
                self.wf(),
                forall|a: int|
                    0 <= a < result@.len() ==> connectable(
                        self.nodes@,
                        self.connections@,
                        to_module,
                        (#[trigger] result@[a]).0,
                        result@[a].1,
                    ),
                forall|ii: int, port: int|
                    #![trigger result@.contains((self.nodes@[ii].module.id, port as usize))]
                    0 <= ii < i && 0 <= port < self.nodes@[ii].module.output_count
                        && self.nodes@[ii].module.id != to_module && !reaches(
                        self.connections@,
                        to_module,
                        self.nodes@[ii].module.id,
                    ) ==> result@.contains((self.nodes@[ii].module.id, port as usize)),
            decreases n - i,
        {
            let node_id: u64 = self.nodes[i].module.id;
            if node_id != to_module {
                if !self.reachable(to_module, node_id) {
                    let out_count: usize = self.nodes[i].module.output_count;
                    let mut port: usize = 0;
                    while port < out_count
                        invariant
                            port <= out_count,
                            i < n,
                            n == self.nodes@.len(),
                            self.wf(),
                            node_id == self.nodes@[i as int].module.id,
                            out_count == self.nodes@[i as int].module.output_count,
                            node_id != to_module,
                            !reaches(self.connections@, to_module, node_id),
                            forall|a: int|
                                0 <= a < result@.len() ==> connectable(
                                    self.nodes@,
                                    self.connections@,
                                    to_module,
                                    (#[trigger] result@[a]).0,
                                    result@[a].1,
                                ),
                            forall|ii: int, pp: int|
                                #![trigger result@.contains((self.nodes@[ii].module.id, pp as usize))]
                                0 <= ii < i && 0 <= pp < self.nodes@[ii].module.output_count
                                    && self.nodes@[ii].module.id != to_module && !reaches(
                                    self.connections@,
                                    to_module,
                                    self.nodes@[ii].module.id,
                                ) ==> result@.contains((self.nodes@[ii].module.id, pp as usize)),
                            forall|pp: int|
                                #![trigger result@.contains((node_id, pp as usize))]
                                0 <= pp < port ==> result@.contains((node_id, pp as usize)),
                        decreases out_count - port,
                    {
                        let ghost prev = result@;
                        result.push((node_id, port));
                        proof {
                            assert(result@ == prev.push((node_id, port)));
                            assert(forall|a: int| 0 <= a < prev.len() ==> result@[a] == prev[a]);
                            assert(result@[prev.len() as int] == (node_id, port));
                            assert forall|x: (u64, usize)| prev.contains(x) implies result@.contains(
                                x,
                            ) by {
                                let a = choose|a: int| 0 <= a < prev.len() && prev[a] == x;
                                assert(result@[a] == x);
                            }
                            assert(result@.contains((node_id, port)));
                            assert forall|ii: int, pp: int|
                                #![trigger result@.contains((self.nodes@[ii].module.id, pp as usize))]
                                0 <= ii < i && 0 <= pp < self.nodes@[ii].module.output_count
                                    && self.nodes@[ii].module.id != to_module && !reaches(
                                    self.connections@,
                                    to_module,
                                    self.nodes@[ii].module.id,
                                ) implies result@.contains(
                                (self.nodes@[ii].module.id, pp as usize),
                            ) by {
                                assert(prev.contains((self.nodes@[ii].module.id, pp as usize)));
                            }
                            assert forall|pp: int|
                                #![trigger result@.contains((node_id, pp as usize))]
                                0 <= pp <= port implies result@.contains(
                                (node_id, pp as usize),
                            ) by {
                                if pp < port {
                                    assert(prev.contains((node_id, pp as usize)));
                                }
                            }
                            assert(connectable(
                                self.nodes@,
                                self.connections@,
                                to_module,
                                node_id,
                                port,
                            )) by {
                                assert(0 <= i < self.nodes@.len() && self.nodes@[i as int].module.id
                                    == node_id);
                            }
                        }
                        port = port + 1;
                    }
                }
            }
            i = i + 1;
        }
        result
    }
}

/// The candidate (module, output port) may feed the destination
/// without closing a loop.
pub open spec fn connectable(
    nodes: Seq<GraphNode>,
    conns: Seq<Connection>,
    to_module: u64,
    id: u64,
    port: usize,
) -> bool {
    exists|i: int|
        {
            &&& 0 <= i < nodes.len()
            &&& (#[trigger] nodes[i]).module.id == id
            &&& id != to_module
            &&& (port as int) < nodes[i].module.output_count
            &&& !reaches(conns, to_module, id)
        }
}

/// Keep connections not touching the removed module.
pub open spec fn not_touching(id: u64) -> spec_fn(Connection) -> bool {
    |c: Connection| c.from_module != id && c.to_module != id
}

/// Keep connections other than this exact one.
pub open spec fn not_exactly(
    from_module: u64,
    from_output: usize,
    to_module: u64,
    to_input: usize,
) -> spec_fn(Connection) -> bool {
    |c: Connection|
        !(c.from_module == from_module && c.from_output == from_output && c.to_module == to_module
            && c.to_input == to_input)
}

/// Keep connections whose ports the replacement descriptor still
/// offers.
pub open spec fn replacement_keeps(m: AudioModule) -> spec_fn(Connection) -> bool {
    |c: Connection|
        !((c.from_module == m.id && c.from_output >= m.output_count) || (c.to_module == m.id
            && c.to_input >= m.input_count))
}

/// Filtering with an always-true predicate keeps everything.
proof fn lemma_filter_all_kept(s: Seq<Connection>, pred: spec_fn(Connection) -> bool)
    requires
        forall|k: int| 0 <= k < s.len() ==> pred(#[trigger] s[k]),
    ensures
        s.filter(pred) =~= s,
    decreases s.len(),
{
    reveal_with_fuel(Seq::filter, 2);
    if s.len() > 0 {
        assert(forall|k: int| 0 <= k < s.len() - 1 ==> (#[trigger] s.drop_last()[k]) == s[k]);
        lemma_filter_all_kept(s.drop_last(), pred);
        assert(s.filter(pred) == s.drop_last().filter(pred).push(s.last()));
    }
}

/// Descriptors equal under `module_eq` are equally well-formed.
pub proof fn lemma_module_eq_wf(a: AudioModule, b: AudioModule)
    requires
        module_eq(a, b),
        b.wf(),
    ensures
        a.wf(),
{
}

/// A selection of connections out of an acyclic set, given by an
/// index map, is acyclic.
pub proof fn lemma_acyclic_from_map(sub: Seq<Connection>, sup: Seq<Connection>, map: Seq<int>)
    requires
        acyclic(sup),
        map.len() == sub.len(),
        forall|a: int| 0 <= a < map.len() ==> 0 <= #[trigger] map[a] < sup.len(),
        forall|a: int| 0 <= a < sub.len() ==> (#[trigger] sub[a]) == sup[map[a]],
    ensures
        acyclic(sub),
{
    assert forall|x: u64, y: u64| edge(sub, x, y) implies edge(sup, x, y) by {
        let k = choose|k: int|
            0 <= k < sub.len() && (#[trigger] sub[k]).from_module == x && sub[k].to_module == y;
        assert(sub[k] == sup[map[k]]);
        assert(sup[map[k]].from_module == x && sup[map[k]].to_module == y);
    }
    assert forall|k: int| 0 <= k < sub.len() implies !reaches(
        sub,
        (#[trigger] sub[k]).to_module,
        sub[k].from_module,
    ) by {
        if reaches(sub, sub[k].to_module, sub[k].from_module) {
            lemma_reaches_mono(sub, sup, sub[k].to_module, sub[k].from_module);
            assert(sub[k] == sup[map[k]]);
            assert(!reaches(sup, sup[map[k]].to_module, sup[map[k]].from_module));
            assert(false);
        }
    }
}

/// Pairwise distinctness and input exclusivity carry over to a
/// selection given by a strictly increasing index map.
pub proof fn lemma_pairwise_from_map(sub: Seq<Connection>, sup: Seq<Connection>, map: Seq<int>)
    requires
        forall|k: int, l: int| 0 <= k < l < sup.len() ==> (#[trigger] sup[k]) != (
        #[trigger] sup[l]),
        forall|k: int, l: int|
            0 <= k < l < sup.len() ==> !((#[trigger] sup[k]).to_module == (
            #[trigger] sup[l]).to_module && sup[k].to_input == sup[l].to_input),
        map.len() == sub.len(),
        forall|a: int| 0 <= a < map.len() ==> 0 <= #[trigger] map[a] < sup.len(),
        forall|a: int, b: int| 0 <= a < b < map.len() ==> #[trigger] map[a] < #[trigger] map[b],
        forall|a: int| 0 <= a < sub.len() ==> (#[trigger] sub[a]) == sup[map[a]],
    ensures
        forall|k: int, l: int| 0 <= k < l < sub.len() ==> (#[trigger] sub[k]) != (
        #[trigger] sub[l]),
        forall|k: int, l: int|
            0 <= k < l < sub.len() ==> !((#[trigger] sub[k]).to_module == (
            #[trigger] sub[l]).to_module && sub[k].to_input == sub[l].to_input),
{
    assert forall|k: int, l: int| 0 <= k < l < sub.len() implies (#[trigger] sub[k]) != (
    #[trigger] sub[l]) && !(sub[k].to_module == sub[l].to_module && sub[k].to_input
        == sub[l].to_input) by {
        assert(sub[k] == sup[map[k]] && sub[l] == sup[map[l]]);
        assert(map[k] < map[l]);
    }
}

} // verus!

