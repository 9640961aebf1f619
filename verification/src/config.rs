//! Persisted project data: the module list, connections and metadata
//! that a project file round-trips, plus settings and preset banks.
//!
//! A snapshot of a well-formed graph restores to a graph with the
//! identical topology and parameter set; malformed persisted data is
//! filtered with counted validation errors, never a crash.

use crate::graph::{
    acyclic, edge, has_node, ports_in_range, AudioGraph, Connection, GraphError,
};
use crate::module::{module_eq, AudioModule, ModuleType};
use crate::params::ModuleParameter;
use crate::text::str_eq;
use vstd::prelude::*;

verus! {

/// Relies on `chrono::Utc::now` and `DateTime::to_rfc3339` for a
/// timestamp string; the value depends on the clock, so nothing is
/// promised of it.
#[verifier::external_body]
fn now_rfc3339() -> String {
    chrono::Utc::now().to_rfc3339()
}

pub struct ProjectMetadata {
    pub created_at: String,
    pub modified_at: String,
    pub author: String,
    pub description: String,
    pub tags: Vec<String>,
}

impl ProjectMetadata {
    /// Fresh metadata stamped with the current time.
    pub fn new_now() -> (r: ProjectMetadata)
        ensures
            r.author@ == "Unknown"@,
            r.description@ == Seq::<char>::empty(),
            r.tags@.len() == 0,
    {
        let now: String = now_rfc3339();
        let created = now.clone();
        ProjectMetadata {
            created_at: created,
            modified_at: now,
            author: "Unknown".to_owned(),
            description: String::new(),
            tags: Vec::new(),
        }
    }
}

/// A whole project: engine settings, modules, connections, metadata.
pub struct ProjectConfig {
    pub name: String,
    pub version: String,
    pub sample_rate: u32,
    pub buffer_size: usize,
    pub modules: Vec<AudioModule>,
    pub connections: Vec<Connection>,
    pub metadata: ProjectMetadata,
}

impl ProjectConfig {
    pub fn new(name: &str) -> (r: ProjectConfig)
        ensures
            r.name@ == name@,
            r.version@ == "1.0.0"@,
            r.sample_rate == 44_100,
            r.buffer_size == 256,
            r.modules@.len() == 0,
            r.connections@.len() == 0,
    {
        ProjectConfig {
            name: name.to_owned(),
            version: "1.0.0".to_owned(),
            sample_rate: 44_100,
            buffer_size: 256,
            modules: Vec::new(),
            connections: Vec::new(),
            metadata: ProjectMetadata::new_now(),
        }
    }

    /// Update the modification timestamp.
    pub fn touch(&mut self)
        ensures
            final(self).name == old(self).name,
            final(self).version == old(self).version,
            final(self).sample_rate == old(self).sample_rate,
            final(self).buffer_size == old(self).buffer_size,
            final(self).modules@ == old(self).modules@,
            final(self).connections@ == old(self).connections@,
    {
        self.metadata.modified_at = now_rfc3339();
    }

    /// Register a module in the project.
    pub fn add_module(&mut self, module: AudioModule)
        ensures
            final(self).modules@ == old(self).modules@.push(module),
            final(self).connections@ == old(self).connections@,
    {
        self.modules.push(module);
        self.touch();
    }

    /// Drop a module and every connection touching it: the module
    /// list keeps exactly the other entries, in order, and the
    /// connection list keeps exactly the untouched edges, in order.
    pub fn remove_module(&mut self, module_id: u64)
        ensures
            final(self).modules@ == old(self).modules@.filter(keeps_module(module_id)),
            final(self).connections@ == old(self).connections@.filter(
                crate::graph::not_touching(module_id),
            ),
            final(self).name == old(self).name,
            final(self).version == old(self).version,
            final(self).sample_rate == old(self).sample_rate,
            final(self).buffer_size == old(self).buffer_size,
    {
        let ghost mpred = keeps_module(module_id);
        let ghost orig = self.modules@;
        let mut kept_modules: Vec<AudioModule> = Vec::new();
        let mut i: usize = 0;
        let n: usize = self.modules.len();
        while i < n
            invariant
                i <= n,
                n == orig.len(),
                mpred == keeps_module(module_id),
                self.modules@ == orig.skip(i as int),
                kept_modules@ == orig.take(i as int).filter(mpred),
                self.connections@ == old(self).connections@,
                self.name == old(self).name,
                self.version == old(self).version,
                self.sample_rate == old(self).sample_rate,
                self.buffer_size == old(self).buffer_size,
            decreases n - i,
        {
            proof {
                crate::graph::lemma_filter_take_step(orig, i as int, mpred);
                assert(orig.skip(i as int).remove(0) =~= orig.skip(i + 1));
            }
            let m: AudioModule = self.modules.remove(0);
            proof {
                assert(m == orig[i as int]);
            }
            if m.id != module_id {
                kept_modules.push(m);
            }
            i = i + 1;
        }
        proof {
            assert(orig.take(orig.len() as int) =~= orig);
        }
        self.modules = kept_modules;
        let ghost pred = crate::graph::not_touching(module_id);
        let mut kept: Vec<Connection> = Vec::new();
        let mut k: usize = 0;
        while k < self.connections.len()
            invariant
                k <= self.connections@.len(),
                self.connections@ == old(self).connections@,
                pred == crate::graph::not_touching(module_id),
                kept@ == self.connections@.take(k as int).filter(pred),
                self.modules@ == old(self).modules@.filter(keeps_module(module_id)),
                self.name == old(self).name,
                self.version == old(self).version,
                self.sample_rate == old(self).sample_rate,
                self.buffer_size == old(self).buffer_size,
            decreases self.connections@.len() - k,
        {
            let c: Connection = self.connections[k];
            proof {
                crate::graph::lemma_filter_take_step(self.connections@, k as int, pred);
            }
            if !(c.from_module == module_id || c.to_module == module_id) {
                kept.push(c);
            }
            k = k + 1;
        }
        proof {
            assert(self.connections@.take(self.connections@.len() as int) =~= self.connections@);
        }
        self.connections = kept;
        self.touch();
    }

    /// Add a connection: refused when either endpoint is not a listed
    /// module or the exact tuple is already present, and then nothing
    /// changes; otherwise it is appended.
    pub fn add_connection(&mut self, connection: Connection) -> (r: Result<(), GraphError>)
        ensures
            r == project_add_connection_result(
                old(self).modules@,
                old(self).connections@,
                connection,
            ),
            r is Ok ==> final(self).connections@ == old(self).connections@.push(connection),
            r is Err ==> final(self).connections@ == old(self).connections@,
            final(self).modules@ == old(self).modules@,
            final(self).name == old(self).name,
            final(self).version == old(self).version,
            final(self).sample_rate == old(self).sample_rate,
            final(self).buffer_size == old(self).buffer_size,
    {
        let mut found_from: bool = false;
        let mut found_to: bool = false;
        let mut i: usize = 0;
        let n: usize = self.modules.len();
        while i < n
            invariant
                i <= n,
                n == self.modules@.len(),
                self.modules@ == old(self).modules@,
                self.connections@ == old(self).connections@,
                self.name == old(self).name,
                self.version == old(self).version,
                self.sample_rate == old(self).sample_rate,
                self.buffer_size == old(self).buffer_size,
                found_from <==> exists|j: int|
                    0 <= j < i && (#[trigger] self.modules@[j]).id == connection.from_module,
                found_to <==> exists|j: int|
                    0 <= j < i && (#[trigger] self.modules@[j]).id == connection.to_module,
            decreases n - i,
        {
            if self.modules[i].id == connection.from_module {
                found_from = true;
            }
            if self.modules[i].id == connection.to_module {
                found_to = true;
            }
            i = i + 1;
        }
        if !found_from || !found_to {
            return Err(GraphError::InvalidReference);
        }
        let mut k: usize = 0;
        while k < self.connections.len()
            invariant
                k <= self.connections@.len(),
                self.modules@ == old(self).modules@,
                self.connections@ == old(self).connections@,
                self.name == old(self).name,
                self.version == old(self).version,
                self.sample_rate == old(self).sample_rate,
                self.buffer_size == old(self).buffer_size,
                module_listed(self.modules@, connection.from_module),
                module_listed(self.modules@, connection.to_module),
                forall|j: int| 0 <= j < k ==> (#[trigger] self.connections@[j]) != connection,
            decreases self.connections@.len() - k,
        {
            let c: Connection = self.connections[k];
            if c.from_module == connection.from_module && c.from_output == connection.from_output
                && c.to_module == connection.to_module && c.to_input == connection.to_input {
                proof {
                    assert(self.connections@[k as int] == connection);
                    assert(self.connections@.contains(connection));
                }
                return Err(GraphError::DuplicateConnection);
            }
            k = k + 1;
        }
        proof {
            if self.connections@.contains(connection) {
                let j = choose|j: int|
                    0 <= j < self.connections@.len() && self.connections@[j] == connection;
                assert(false);
            }
        }
        self.connections.push(connection);
        self.touch();
        Ok(())
    }

    /// Remove the exact connection, if present.
    pub fn remove_connection(&mut self, from_module: u64, from_output: usize, to_module: u64, to_input: usize)
        ensures
            final(self).connections@ == old(self).connections@.filter(
                crate::graph::not_exactly(from_module, from_output, to_module, to_input),
            ),
            final(self).modules@ == old(self).modules@,
    {
        let ghost pred = crate::graph::not_exactly(from_module, from_output, to_module, to_input);
        let mut kept: Vec<Connection> = Vec::new();
        let mut k: usize = 0;
        while k < self.connections.len()
            invariant
                k <= self.connections@.len(),
                self.connections@ == old(self).connections@,
                pred == crate::graph::not_exactly(from_module, from_output, to_module, to_input),
                kept@ == self.connections@.take(k as int).filter(pred),
            decreases self.connections@.len() - k,
        {
            let c: Connection = self.connections[k];
            proof {
                crate::graph::lemma_filter_take_step(self.connections@, k as int, pred);
            }
            if !(c.from_module == from_module && c.from_output == from_output && c.to_module
                == to_module && c.to_input == to_input) {
                kept.push(c);
            }
            k = k + 1;
        }
        proof {
            assert(self.connections@.take(self.connections@.len() as int) =~= self.connections@);
        }
        self.connections = kept;
        self.touch();
    }

    /// Decide at run time whether `restore` accepts this project:
    /// exactly its precondition (usable sample rate, well-formed
    /// modules, distinct ids).
    pub fn ready_to_restore(&self) -> (r: bool)
        ensures
            r == (8_000 <= self.sample_rate <= 192_000 && (forall|i: int|
                0 <= i < self.modules@.len() ==> (#[trigger] self.modules@[i]).wf())
                && distinct_module_ids(self.modules@)),
    {
        if self.sample_rate < 8_000 || self.sample_rate > 192_000 {
            return false;
        }
        let n: usize = self.modules.len();
        let mut i: usize = 0;
        while i < n
            invariant
                i <= n,
                n == self.modules@.len(),
                forall|j: int| 0 <= j < i ==> (#[trigger] self.modules@[j]).wf(),
            decreases n - i,
        {
            if !self.modules[i].check_wf() {
                return false;
            }
            i = i + 1;
        }
        let mut a: usize = 0;
        while a < n
            invariant
                a <= n,
                n == self.modules@.len(),
                forall|x: int, y: int|
                    0 <= x < y < n && x < a ==> (#[trigger] self.modules@[x]).id != (
                    #[trigger] self.modules@[y]).id,
            decreases n - a,
        {
            let mut b: usize = a + 1;
            while b < n
                invariant
                    a < b <= n,
                    a < n,
                    n == self.modules@.len(),
                    forall|y: int|
                        a < y < b ==> self.modules@[a as int].id != (
                        #[trigger] self.modules@[y]).id,
                decreases n - b,
            {
                if self.modules[a].id == self.modules[b].id {
                    proof {
                        assert(!distinct_module_ids(self.modules@));
                    }
                    return false;
                }
                b = b + 1;
            }
            a = a + 1;
        }
        true
    }

    /// The connections into and out of one module.
    pub fn get_module_connections(&self, module_id: u64) -> (r: (Vec<Connection>, Vec<
        Connection>))
        ensures
            forall|a: int|
                0 <= a < r.0@.len() ==> (#[trigger] r.0@[a]).to_module == module_id,
            forall|a: int|
                0 <= a < r.1@.len() ==> (#[trigger] r.1@[a]).from_module == module_id,
    {
        let mut inputs: Vec<Connection> = Vec::new();
        let mut outputs: Vec<Connection> = Vec::new();
        let mut k: usize = 0;
        while k < self.connections.len()
            invariant
                k <= self.connections@.len(),
                forall|a: int|
                    0 <= a < inputs@.len() ==> (#[trigger] inputs@[a]).to_module == module_id,
                forall|a: int|
                    0 <= a < outputs@.len() ==> (#[trigger] outputs@[a]).from_module == module_id,
            decreases self.connections@.len() - k,
        {
            let c: Connection = self.connections[k];
            if c.to_module == module_id {
                inputs.push(c);
            }
            if c.from_module == module_id {
                outputs.push(c);
            }
            k = k + 1;
        }
        (inputs, outputs)
    }
}

/// Keep modules other than the removed one.
pub open spec fn keeps_module(id: u64) -> spec_fn(AudioModule) -> bool {
    |m: AudioModule| m.id != id
}

/// The verdict a project-level connection edit must return: a missing
/// endpoint, then an exact duplicate, else success.
pub open spec fn project_add_connection_result(
    modules: Seq<AudioModule>,
    conns: Seq<Connection>,
    c: Connection,
) -> Result<(), GraphError> {
    if !(module_listed(modules, c.from_module) && module_listed(modules, c.to_module)) {
        Err(GraphError::InvalidReference)
    } else if conns.contains(c) {
        Err(GraphError::DuplicateConnection)
    } else {
        Ok(())
    }
}

/// Capture a graph as a project: the module descriptors and the
/// connection list, exactly.
pub fn snapshot(graph: &AudioGraph, name: &str) -> (r: ProjectConfig)
    requires
        graph.wf(),
    ensures
        r.sample_rate == graph.sample_rate,
        r.modules@.len() == graph.nodes@.len(),
        forall|i: int|
            0 <= i < graph.nodes@.len() ==> module_eq(
                #[trigger] r.modules@[i],
                graph.nodes@[i].module,
            ),
        r.connections@ == graph.connections@,
{
    let mut modules: Vec<AudioModule> = Vec::new();
    let mut i: usize = 0;
    while i < graph.nodes.len()
        invariant
            i <= graph.nodes@.len(),
            modules@.len() == i,
            forall|j: int|
                0 <= j < i ==> module_eq(#[trigger] modules@[j], graph.nodes@[j].module),
        decreases graph.nodes@.len() - i,
    {
        modules.push(graph.nodes[i].module.clone_module());
        i = i + 1;
    }
    let mut connections: Vec<Connection> = Vec::new();
    let mut k: usize = 0;
    while k < graph.connections.len()
        invariant
            k <= graph.connections@.len(),
            connections@ == graph.connections@.take(k as int),
        decreases graph.connections@.len() - k,
    {
        connections.push(graph.connections[k]);
        proof {
            assert(connections@ =~= graph.connections@.take(k + 1));
        }
        k = k + 1;
    }
    proof {
        assert(graph.connections@.take(graph.connections@.len() as int) =~= graph.connections@);
    }
    let mut cfg = ProjectConfig::new(name);
    cfg.sample_rate = graph.sample_rate;
    cfg.modules = modules;
    cfg.connections = connections;
    cfg
}

/// Rebuild a graph from persisted project data.  Valid entries are
/// applied in order; connections the graph refuses are skipped and
/// counted, so bad data degrades to a smaller project, never a crash.
///
/// Restoring an unmodified snapshot of a well-formed graph reproduces
/// the identical topology and parameter set: every module descriptor
/// and the whole connection list, in order, with no rejects.
pub fn restore(config: &ProjectConfig) -> (r: (AudioGraph, usize))
    requires
        8_000 <= config.sample_rate <= 192_000,
        forall|i: int| 0 <= i < config.modules@.len() ==> (#[trigger] config.modules@[i]).wf(),
        distinct_module_ids(config.modules@),
    ensures
        r.0.wf(),
        r.0.sample_rate == config.sample_rate,
        r.0.nodes@.len() == config.modules@.len(),
        forall|i: int|
            0 <= i < config.modules@.len() ==> module_eq(
                #[trigger] r.0.nodes@[i].module,
                config.modules@[i],
            ),
        restorable(config.modules@, config.connections@) ==> r.0.connections@
            == config.connections@ && r.1 == 0,
{
    let mut graph = AudioGraph::new(config.sample_rate);
    let mut i: usize = 0;
    while i < config.modules.len()
        invariant
            i <= config.modules@.len(),
            graph.wf(),
            graph.sample_rate == config.sample_rate,
            graph.connections@.len() == 0,
            graph.nodes@.len() == i,
            forall|j: int| 0 <= j < config.modules@.len() ==> (#[trigger] config.modules@[j]).wf(),
            distinct_module_ids(config.modules@),
            forall|j: int|
                0 <= j < i ==> module_eq(
                    #[trigger] graph.nodes@[j].module,
                    config.modules@[j],
                ),
        decreases config.modules@.len() - i,
    {
        let m = config.modules[i].clone_module();
        proof {
            crate::graph::lemma_module_eq_wf(m, config.modules@[i as int]);
            assert(!has_node(graph.nodes@, m.id)) by {
                if has_node(graph.nodes@, m.id) {
                    let j = choose|j: int|
                        0 <= j < graph.nodes@.len() && (#[trigger] graph.nodes@[j]).module.id
                            == m.id;
                    assert(config.modules@[j].id == config.modules@[i as int].id);
                    assert(false);
                }
            }
        }
        graph.add_module(m);
        i = i + 1;
    }
    let mut rejected: usize = 0;
    let mut k: usize = 0;
    while k < config.connections.len()
        invariant
            k <= config.connections@.len(),
            graph.wf(),
            graph.sample_rate == config.sample_rate,
            graph.nodes@.len() == config.modules@.len(),
            forall|j: int|
                0 <= j < config.modules@.len() ==> module_eq(
                    #[trigger] graph.nodes@[j].module,
                    config.modules@[j],
                ),
            rejected <= k,
            restorable(config.modules@, config.connections@) ==> graph.connections@
                == config.connections@.take(k as int) && rejected == 0,
        decreases config.connections@.len() - k,
    {
        let c: Connection = config.connections[k];
        let ghost pre = graph;
        let outcome = graph.add_connection(c);
        match outcome {
            Ok(()) => {},
            Err(_) => {
                if rejected < usize::MAX {
                    rejected = rejected + 1;
                }
            },
        }
        proof {
            if restorable(config.modules@, config.connections@) {
                lemma_restore_step(config.modules@, config.connections@, pre, k as int);
                assert(outcome is Ok);
                assert(graph.connections@ =~= config.connections@.take(k + 1));
            }
        }
        k = k + 1;
    }
    proof {
        if restorable(config.modules@, config.connections@) {
            assert(config.connections@.take(config.connections@.len() as int)
                =~= config.connections@);
        }
    }
    (graph, rejected)
}

/// All module ids in the list are distinct.
pub open spec fn distinct_module_ids(modules: Seq<AudioModule>) -> bool {
    forall|i: int, j: int|
        0 <= i < j < modules.len() ==> (#[trigger] modules[i]).id != (#[trigger] modules[j]).id
}

/// The persisted connection set is coherent with the module list:
/// endpoints exist, ports are in range per the modules' port counts,
/// no duplicates, exclusive inputs, and no cycles.
pub open spec fn restorable(modules: Seq<AudioModule>, conns: Seq<Connection>) -> bool {
    &&& forall|k: int|
        0 <= k < conns.len() ==> module_listed(modules, (#[trigger] conns[k]).from_module)
            && module_listed(modules, conns[k].to_module)
    &&& forall|k: int, i: int|
        #![all_triggers]
        0 <= k < conns.len() && 0 <= i < modules.len() && modules[i].id == conns[k].from_module
            ==> conns[k].from_output < modules[i].output_count
    &&& forall|k: int, i: int|
        #![all_triggers]
        0 <= k < conns.len() && 0 <= i < modules.len() && modules[i].id == conns[k].to_module
            ==> conns[k].to_input < modules[i].input_count
    &&& forall|k: int, l: int|
        0 <= k < l < conns.len() ==> (#[trigger] conns[k]) != (#[trigger] conns[l])
    &&& forall|k: int, l: int|
        0 <= k < l < conns.len() ==> !((#[trigger] conns[k]).to_module == (
        #[trigger] conns[l]).to_module && conns[k].to_input == conns[l].to_input)
    &&& acyclic(conns)
}

/// Some module in the list carries this id.
pub open spec fn module_listed(modules: Seq<AudioModule>, id: u64) -> bool {
    exists|i: int| 0 <= i < modules.len() && (#[trigger] modules[i]).id == id
}

/// While restoring a coherent connection list in order, the next
/// connection always passes every check of `add_connection`.
proof fn lemma_restore_step(
    modules: Seq<AudioModule>,
    conns: Seq<Connection>,
    g: AudioGraph,
    k: int,
)
    requires
        restorable(modules, conns),
        0 <= k < conns.len(),
        g.wf(),
        g.nodes@.len() == modules.len(),
        forall|j: int|
            0 <= j < modules.len() ==> module_eq(#[trigger] g.nodes@[j].module, modules[j]),
        g.connections@ == conns.take(k),
    ensures
        crate::graph::add_connection_result(g.nodes@, g.connections@, conns[k]) is Ok,
{
    let c = conns[k];
    // endpoints exist in the rebuilt node list
    assert(has_node(g.nodes@, c.from_module)) by {
        let i = choose|i: int| 0 <= i < modules.len() && (#[trigger] modules[i]).id
            == c.from_module;
        assert(g.nodes@[i].module.id == c.from_module);
    }
    assert(has_node(g.nodes@, c.to_module)) by {
        let i = choose|i: int| 0 <= i < modules.len() && (#[trigger] modules[i]).id
            == c.to_module;
        assert(g.nodes@[i].module.id == c.to_module);
    }
    // ports fit the rebuilt modules' counts
    assert(ports_in_range(g.nodes@, c)) by {
        assert forall|x: int|
            0 <= x < g.nodes@.len() && (#[trigger] g.nodes@[x]).module.id == c.from_module
                implies c.from_output < g.nodes@[x].module.output_count by {
            assert(modules[x].id == c.from_module);
        }
        assert forall|x: int|
            0 <= x < g.nodes@.len() && (#[trigger] g.nodes@[x]).module.id == c.to_module
                implies c.to_input < g.nodes@[x].module.input_count by {
            assert(modules[x].id == c.to_module);
        }
    }
    // no duplicate among the connections already restored
    assert(!g.connections@.contains(c)) by {
        if g.connections@.contains(c) {
            let j = choose|j: int| 0 <= j < g.connections@.len() && g.connections@[j] == c;
            assert(conns.take(k)[j] == conns[j]);
            assert(conns[j] == conns[k] && j < k);
            assert(false);
        }
    }
    // the destination port is still free
    assert(!(exists|l: int|
        0 <= l < g.connections@.len() && (#[trigger] g.connections@[l]).to_module == c.to_module
            && g.connections@[l].to_input == c.to_input)) by {
        if exists|l: int|
            0 <= l < g.connections@.len() && (#[trigger] g.connections@[l]).to_module
                == c.to_module && g.connections@[l].to_input == c.to_input {
            let l = choose|l: int|
                0 <= l < g.connections@.len() && (#[trigger] g.connections@[l]).to_module
                    == c.to_module && g.connections@[l].to_input == c.to_input;
            assert(conns.take(k)[l] == conns[l]);
            assert(false);
        }
    }
    // no walk leads back from the destination to the source
    assert(!crate::graph::reaches(g.connections@, c.to_module, c.from_module)) by {
        if crate::graph::reaches(g.connections@, c.to_module, c.from_module) {
            assert forall|x: u64, y: u64| edge(g.connections@, x, y) implies edge(
                conns,
                x,
                y,
            ) by {
                let kk = choose|kk: int|
                    0 <= kk < g.connections@.len() && (#[trigger] g.connections@[kk]).from_module
                        == x && g.connections@[kk].to_module == y;
                assert(conns.take(k)[kk] == conns[kk]);
                assert(0 <= kk < conns.len() && conns[kk].from_module == x
                    && conns[kk].to_module == y);
            }
            crate::graph::lemma_reaches_mono(
                g.connections@,
                conns,
                c.to_module,
                c.from_module,
            );
            assert(!crate::graph::reaches(conns, conns[k].to_module, conns[k].from_module));
            assert(false);
        }
    }
}

/// One module's parameter values, keyed by name, for preset reuse.
pub struct ModulePreset {
    pub name: String,
    pub module_type: ModuleType,
    pub parameters: Vec<(String, i64)>,
    pub description: String,
    pub tags: Vec<String>,
}

impl ModulePreset {
    /// Capture a module's current parameter values.
    pub fn from_module(module: &AudioModule, name: &str) -> (r: ModulePreset)
        ensures
            r.name@ == name@,
            r.module_type == module.module_type,
            r.parameters@.len() == module.parameters@.len(),
            forall|i: int|
                0 <= i < module.parameters@.len() ==> (#[trigger] r.parameters@[i]).0@
                    == module.parameters@[i].name@ && r.parameters@[i].1
                    == module.parameters@[i].value,
    {
        let mut parameters: Vec<(String, i64)> = Vec::new();
        let mut i: usize = 0;
        while i < module.parameters.len()
            invariant
                i <= module.parameters@.len(),
                parameters@.len() == i,
                forall|j: int|
                    0 <= j < i ==> (#[trigger] parameters@[j]).0@ == module.parameters@[j].name@
                        && parameters@[j].1 == module.parameters@[j].value,
            decreases module.parameters@.len() - i,
        {
            let p = &module.parameters[i];
            parameters.push((p.name.clone(), p.value));
            i = i + 1;
        }
        ModulePreset {
            name: name.to_owned(),
            module_type: module.module_type,
            parameters,
            description: String::new(),
            tags: Vec::new(),
        }
    }

    /// Apply the preset's values to a module of the same type: every
    /// module parameter named in the preset ends at the preset's
    /// value (its last occurrence, if repeated), clamped into that
    /// parameter's own range; the others are untouched.  A module of
    /// another type is refused unchanged.
    pub fn apply_to_module(&self, module: &mut AudioModule) -> (r: Result<(), GraphError>)
        requires
            old(module).wf(),
        ensures
            final(module).wf(),
            r is Ok <==> self.module_type == old(module).module_type,
            r is Err ==> *final(module) == *old(module),
            r is Ok ==> final(module).parameters@.len() == old(module).parameters@.len(),
            r is Ok ==> forall|t: int|
                0 <= t < old(module).parameters@.len() ==> #[trigger] final(module).parameters@[t]
                    == preset_applied(self.parameters@, old(module).parameters@[t]),
            final(module).id == old(module).id,
            final(module).module_type == old(module).module_type,
            final(module).name == old(module).name,
            final(module).input_count == old(module).input_count,
            final(module).output_count == old(module).output_count,
            final(module).position == old(module).position,
            final(module).enabled == old(module).enabled,
    {
        let same: bool = match (self.module_type, module.module_type) {
            (ModuleType::Oscillator, ModuleType::Oscillator) => true,
            (ModuleType::Filter, ModuleType::Filter) => true,
            (ModuleType::Reverb, ModuleType::Reverb) => true,
            (ModuleType::Delay, ModuleType::Delay) => true,
            (ModuleType::Output, ModuleType::Output) => true,
            (ModuleType::Sequencer, ModuleType::Sequencer) => true,
            _ => false,
        };
        if !same {
            return Err(GraphError::InvalidReference);
        }
        let n: usize = self.parameters.len();
        let mut i: usize = 0;
        while i < n
            invariant
                i <= n,
                n == self.parameters@.len(),
                old(module).wf(),
                module.wf(),
                module.parameters@.len() == old(module).parameters@.len(),
                module.id == old(module).id,
                module.module_type == old(module).module_type,
                module.name == old(module).name,
                module.input_count == old(module).input_count,
                module.output_count == old(module).output_count,
                module.position == old(module).position,
                module.enabled == old(module).enabled,
                forall|t: int|
                    0 <= t < old(module).parameters@.len() ==> #[trigger] module.parameters@[t]
                        == preset_applied(
                        self.parameters@.take(i as int),
                        old(module).parameters@[t],
                    ),
            decreases n - i,
        {
            let name: &String = &self.parameters[i].0;
            let value: i64 = self.parameters[i].1;
            let ghost pre = *module;
            module.set_param(name.as_str(), value);
            proof {
                let entries = self.parameters@;
                let entry_name = entries[i as int].0@;
                assert(entries.take(i + 1).drop_last() =~= entries.take(i as int));
                assert(entries.take(i + 1).last() == entries[i as int]);
                if crate::module::found_param(pre.parameters@, entry_name) {
                    let j = choose|j: int|
                        {
                            &&& 0 <= j < pre.parameters@.len()
                            &&& pre.parameters@[j].name@ == entry_name
                            &&& module.parameters@ == pre.parameters@.update(
                                j,
                                ModuleParameter {
                                    value: crate::fixed::clamp_int(
                                        value as int,
                                        pre.parameters@[j].min as int,
                                        pre.parameters@[j].max as int,
                                    ) as i64,
                                    ..pre.parameters@[j]
                                },
                            )
                        };
                    assert forall|t: int|
                        0 <= t < old(module).parameters@.len() implies #[trigger] module.parameters@[t]
                        == preset_applied(
                        entries.take(i + 1),
                        old(module).parameters@[t],
                    ) by {
                        assert(pre.parameters@[t] == preset_applied(
                            entries.take(i as int),
                            old(module).parameters@[t],
                        ));
                        assert(pre.parameters@[t].name@ == old(module).parameters@[t].name@);
                        assert(pre.parameters@[t].min == old(module).parameters@[t].min);
                        assert(pre.parameters@[t].max == old(module).parameters@[t].max);
                        if t == j {
                            assert(old(module).parameters@[t].name@ == entry_name);
                        } else {
                            assert(module.parameters@[t] == pre.parameters@[t]);
                            if old(module).parameters@[t].name@ == entry_name {
                                // two distinct slots would share a name
                                assert(pre.parameters@[j].name@ == pre.parameters@[t].name@);
                                assert(false);
                            }
                        }
                    }
                } else {
                    assert(module.parameters@ == pre.parameters@);
                    assert forall|t: int|
                        0 <= t < old(module).parameters@.len() implies #[trigger] module.parameters@[t]
                        == preset_applied(
                        entries.take(i + 1),
                        old(module).parameters@[t],
                    ) by {
                        assert(pre.parameters@[t].name@ == old(module).parameters@[t].name@);
                        if old(module).parameters@[t].name@ == entry_name {
                            assert(crate::module::found_param(pre.parameters@, entry_name)) by {
                                assert(pre.parameters@[t].name@ == entry_name);
                            }
                            assert(false);
                        }
                    }
                }
            }
            i = i + 1;
        }
        proof {
            assert(self.parameters@.take(n as int) =~= self.parameters@);
        }
        Ok(())
    }
}

/// The last value a preset holds for this name, if any.
pub open spec fn last_value_for(entries: Seq<(String, i64)>, name: Seq<char>) -> Option<i64>
    decreases entries.len(),
{
    if entries.len() == 0 {
        None
    } else if entries.last().0@ == name {
        Some(entries.last().1)
    } else {
        last_value_for(entries.drop_last(), name)
    }
}

/// What applying a preset leaves in one module parameter: the last
/// preset value under its name, clamped into its own range, or the
/// parameter untouched.
pub open spec fn preset_applied(
    entries: Seq<(String, i64)>,
    p: ModuleParameter,
) -> ModuleParameter {
    match last_value_for(entries, p.name@) {
        Some(v) => ModuleParameter {
            value: crate::fixed::clamp_int(v as int, p.min as int, p.max as int) as i64,
            ..p
        },
        None => p,
    }
}

/// Keep presets under any other name.
pub open spec fn keeps_preset_name(name: Seq<char>) -> spec_fn(ModulePreset) -> bool {
    |p: ModulePreset| p.name@ != name
}

/// A named collection of presets.
pub struct PresetBank {
    pub name: String,
    pub presets: Vec<ModulePreset>,
}

impl PresetBank {
    pub fn new(name: &str) -> (r: PresetBank)
        ensures
            r.name@ == name@,
            r.presets@.len() == 0,
    {
        PresetBank { name: name.to_owned(), presets: Vec::new() }
    }

    pub fn add_preset(&mut self, preset: ModulePreset)
        ensures
            final(self).presets@ == old(self).presets@.push(preset),
            final(self).name == old(self).name,
    {
        self.presets.push(preset);
    }

    /// Remove every preset carrying this name; all other presets are
    /// kept, in order.
    pub fn remove_preset(&mut self, name: &str)
        ensures
            final(self).presets@ == old(self).presets@.filter(keeps_preset_name(name@)),
            final(self).name == old(self).name,
    {
        let ghost pred = keeps_preset_name(name@);
        let ghost orig = self.presets@;
        let mut kept: Vec<ModulePreset> = Vec::new();
        let n: usize = self.presets.len();
        let mut i: usize = 0;
        while i < n
            invariant
                i <= n,
                n == orig.len(),
                pred == keeps_preset_name(name@),
                self.presets@ == orig.skip(i as int),
                kept@ == orig.take(i as int).filter(pred),
                self.name == old(self).name,
            decreases n - i,
        {
            proof {
                crate::graph::lemma_filter_take_step(orig, i as int, pred);
                assert(orig.skip(i as int).remove(0) =~= orig.skip(i + 1));
            }
            let keep: bool = !str_eq(self.presets[0].name.as_str(), name);
            let p: ModulePreset = self.presets.remove(0);
            proof {
                assert(p == orig[i as int]);
            }
            if keep {
                kept.push(p);
            }
            i = i + 1;
        }
        proof {
            assert(orig.take(orig.len() as int) =~= orig);
        }
        self.presets = kept;
    }

    /// The position of the first preset with this name.
    pub fn find_preset(&self, name: &str) -> (r: Option<usize>)
        ensures
            match r {
                Some(i) => i < self.presets@.len() && self.presets@[i as int].name@ == name@,
                None => forall|i: int|
                    0 <= i < self.presets@.len() ==> (#[trigger] self.presets@[i]).name@ != name@,
            },
    {
        let mut i: usize = 0;
        while i < self.presets.len()
            invariant
                i <= self.presets@.len(),
                forall|j: int|
                    0 <= j < i ==> (#[trigger] self.presets@[j]).name@ != name@,
            decreases self.presets@.len() - i,
        {
            if str_eq(self.presets[i].name.as_str(), name) {
                return Some(i);
            }
            i = i + 1;
        }
        None
    }

    /// Borrow the first preset with this name.
    pub fn get_preset(&self, name: &str) -> (r: Option<&ModulePreset>)
        ensures
            match r {
                Some(p) => p.name@ == name@,
                None => forall|i: int|
                    0 <= i < self.presets@.len() ==> (#[trigger] self.presets@[i]).name@ != name@,
            },
    {
        match self.find_preset(name) {
            Some(i) => Some(&self.presets[i]),
            None => None,
        }
    }
}

/// Application settings as the settings file holds them.
pub struct AppSettings {
    pub audio: AudioSettings,
    pub ui: UISettings,
    pub keybindings: KeyBindings,
}

pub struct AudioSettings {
    pub sample_rate: u32,
    pub buffer_size: usize,
    pub device_name: Option<String>,
    pub latency_ms: u32,
}

pub struct UISettings {
    pub theme: String,
    pub module_grid_size: (u16, u16),
    pub show_parameter_values: bool,
    pub auto_save_interval: u64,
}

pub struct KeyBindings {
    pub quit: String,
    pub save: String,
    pub load: String,
    pub add_module: String,
    pub delete_module: String,
    pub connect_modules: String,
    pub parameter_edit: String,
}

impl AppSettings {
    /// The settings a fresh install starts from.
    pub fn default_settings() -> (r: AppSettings)
        ensures
            r.audio.sample_rate == 44_100,
            r.audio.buffer_size == 256,
            r.audio.device_name is None,
            r.audio.latency_ms == 10,
            r.ui.theme@ == "default"@,
            r.ui.module_grid_size == (80u16, 24u16),
            r.ui.show_parameter_values,
            r.ui.auto_save_interval == 300,
            r.keybindings.quit@ == "q"@,
            r.keybindings.save@ == "s"@,
            r.keybindings.load@ == "l"@,
            r.keybindings.add_module@ == "a"@,
            r.keybindings.delete_module@ == "d"@,
            r.keybindings.connect_modules@ == "c"@,
            r.keybindings.parameter_edit@ == "Enter"@,
    {
        AppSettings {
            audio: AudioSettings {
                sample_rate: 44_100,
                buffer_size: 256,
                device_name: None,
                latency_ms: 10,
            },
            ui: UISettings {
                theme: "default".to_owned(),
                module_grid_size: (80, 24),
                show_parameter_values: true,
                auto_save_interval: 300,
            },
            keybindings: KeyBindings {
                quit: "q".to_owned(),
                save: "s".to_owned(),
                load: "l".to_owned(),
                add_module: "a".to_owned(),
                delete_module: "d".to_owned(),
                connect_modules: "c".to_owned(),
                parameter_edit: "Enter".to_owned(),
            },
        }
    }
}

/// Recently opened projects, newest first, capped.
pub struct RecentProjects {
    pub projects: Vec<RecentProject>,
    pub max_entries: usize,
}

pub struct RecentProject {
    pub name: String,
    pub path: String,
    pub last_opened: String,
}

impl RecentProjects {
    pub fn new() -> (r: RecentProjects)
        ensures
            r.projects@.len() == 0,
            r.max_entries == 10,
    {
        RecentProjects { projects: Vec::new(), max_entries: 10 }
    }

    /// Put a project at the front, dropping any older entry with the
    /// same path, and trim to the cap.
    pub fn add_project(&mut self, name: &str, path: &str)
        requires
            old(self).max_entries >= 1,
        ensures
            final(self).projects@.len() >= 1,
            final(self).projects@.len() <= old(self).max_entries,
            final(self).projects@[0].name@ == name@,
            final(self).projects@[0].path@ == path@,
            final(self).max_entries == old(self).max_entries,
    {
        self.remove_project(path);
        let entry = RecentProject {
            name: name.to_owned(),
            path: path.to_owned(),
            last_opened: now_rfc3339(),
        };
        self.projects.insert(0, entry);
        while self.projects.len() > self.max_entries
            invariant
                self.max_entries >= 1,
                self.projects@.len() >= 1,
                self.projects@[0].name@ == name@,
                self.projects@[0].path@ == path@,
                self.max_entries == old(self).max_entries,
            decreases self.projects@.len(),
        {
            self.projects.pop();
        }
    }

    /// Forget every entry with this path.
    /// Forget every entry with this path; all other entries are kept,
    /// in order.
    pub fn remove_project(&mut self, path: &str)
        ensures
            final(self).projects@ == old(self).projects@.filter(keeps_project_path(path@)),
            final(self).max_entries == old(self).max_entries,
    {
        let ghost pred = keeps_project_path(path@);
        let ghost orig = self.projects@;
        let mut kept: Vec<RecentProject> = Vec::new();
        let n: usize = self.projects.len();
        let mut i: usize = 0;
        while i < n
            invariant
                i <= n,
                n == orig.len(),
                pred == keeps_project_path(path@),
                self.projects@ == orig.skip(i as int),
                kept@ == orig.take(i as int).filter(pred),
                self.max_entries == old(self).max_entries,
            decreases n - i,
        {
            proof {
                crate::graph::lemma_filter_take_step(orig, i as int, pred);
                assert(orig.skip(i as int).remove(0) =~= orig.skip(i + 1));
            }
            let keep: bool = !str_eq(self.projects[0].path.as_str(), path);
            let e: RecentProject = self.projects.remove(0);
            proof {
                assert(e == orig[i as int]);
            }
            if keep {
                kept.push(e);
            }
            i = i + 1;
        }
        proof {
            assert(orig.take(orig.len() as int) =~= orig);
        }
        self.projects = kept;
    }

    pub fn get_projects(&self) -> (r: &Vec<RecentProject>)
        ensures
            r@ == self.projects@,
    {
        &self.projects
    }
}

/// Keep recent entries under any other path.
pub open spec fn keeps_project_path(path: Seq<char>) -> spec_fn(RecentProject) -> bool {
    |e: RecentProject| e.path@ != path
}

/// Export helpers around the persisted project form.
pub struct ProjectExporter;

impl ProjectExporter {
    /// Capture one module as a reusable preset.
    pub fn export_module_preset(module: &AudioModule, name: &str) -> (r: ModulePreset)
        ensures
            r.name@ == name@,
            r.module_type == module.module_type,
            r.parameters@.len() == module.parameters@.len(),
    {
        ModulePreset::from_module(module, name)
    }
}

/// Every connection's two endpoints name listed modules.
pub open spec fn endpoints_listed(modules: Seq<AudioModule>, conns: Seq<Connection>) -> bool {
    forall|k: int|
        0 <= k < conns.len() ==> module_listed(modules, (#[trigger] conns[k]).from_module)
            && module_listed(modules, conns[k].to_module)
}

/// No two modules share a display name.
pub open spec fn distinct_module_names(modules: Seq<AudioModule>) -> bool {
    forall|i: int, j: int|
        0 <= i < j < modules.len() ==> (#[trigger] modules[i]).name@ != (
        #[trigger] modules[j]).name@
}

/// A coherent project: a usable sample rate and buffer size, every
/// connection endpoint listed, and module names unique.
pub open spec fn config_coherent(c: ProjectConfig) -> bool {
    &&& 8_000 <= c.sample_rate <= 192_000
    &&& 1 <= c.buffer_size <= 4_096
    &&& endpoints_listed(c.modules@, c.connections@)
    &&& distinct_module_names(c.modules@)
}

/// Check a project's coherence: the list is empty exactly when the
/// sample rate and buffer size are usable, every connection's
/// endpoints are listed, and no two modules share a name; each
/// violation is reported.  Malformed data is reported, never a crash.
pub fn validate_project_config(config: &ProjectConfig) -> (r: Vec<GraphError>)
    ensures
        r@.len() == 0 <==> config_coherent(*config),
{
    let mut errors: Vec<GraphError> = Vec::new();
    if config.sample_rate < 8_000 || config.sample_rate > 192_000 {
        errors.push(GraphError::InvalidReference);
    }
    if config.buffer_size == 0 || config.buffer_size > 4_096 {
        errors.push(GraphError::InvalidReference);
    }
    let mut k: usize = 0;
    while k < config.connections.len()
        invariant
            k <= config.connections@.len(),
            errors@.len() == 0 <==> 8_000 <= config.sample_rate <= 192_000 && 1
                <= config.buffer_size <= 4_096 && (forall|kk: int|
                0 <= kk < k ==> module_listed(
                    config.modules@,
                    (#[trigger] config.connections@[kk]).from_module,
                ) && module_listed(config.modules@, config.connections@[kk].to_module)),
        decreases config.connections@.len() - k,
    {
        let c: Connection = config.connections[k];
        let mut found_from: bool = false;
        let mut found_to: bool = false;
        let mut i: usize = 0;
        while i < config.modules.len()
            invariant
                i <= config.modules@.len(),
                found_from <==> exists|j: int|
                    0 <= j < i && (#[trigger] config.modules@[j]).id == c.from_module,
                found_to <==> exists|j: int|
                    0 <= j < i && (#[trigger] config.modules@[j]).id == c.to_module,
            decreases config.modules@.len() - i,
        {
            if config.modules[i].id == c.from_module {
                found_from = true;
            }
            if config.modules[i].id == c.to_module {
                found_to = true;
            }
            i = i + 1;
        }
        if !found_from {
            errors.push(GraphError::InvalidReference);
        }
        if !found_to {
            errors.push(GraphError::InvalidReference);
        }
        k = k + 1;
    }
    let n: usize = config.modules.len();
    let mut j: usize = 0;
    while j < n
        invariant
            j <= n,
            n == config.modules@.len(),
            errors@.len() == 0 <==> 8_000 <= config.sample_rate <= 192_000 && 1
                <= config.buffer_size <= 4_096 && endpoints_listed(
                config.modules@,
                config.connections@,
            ) && (forall|a: int, b: int|
                0 <= a < b < j ==> (#[trigger] config.modules@[a]).name@ != (
                #[trigger] config.modules@[b]).name@),
        decreases n - j,
    {
        let mut dup: bool = false;
        let mut a: usize = 0;
        while a < j
            invariant
                a <= j,
                j < n,
                n == config.modules@.len(),
                dup <==> exists|aa: int|
                    0 <= aa < a && (#[trigger] config.modules@[aa]).name@
                        == config.modules@[j as int].name@,
            decreases j - a,
        {
            if str_eq(config.modules[a].name.as_str(), config.modules[j].name.as_str()) {
                dup = true;
            }
            a = a + 1;
        }
        if dup {
            errors.push(GraphError::DuplicateConnection);
        }
        proof {
            if !dup && errors@.len() == 0 {
                assert forall|aa: int, bb: int|
                    0 <= aa < bb < j + 1 implies (#[trigger] config.modules@[aa]).name@ != (
                    #[trigger] config.modules@[bb]).name@ by {
                    if bb == j as int {
                        assert(!(exists|x: int|
                            0 <= x < j && (#[trigger] config.modules@[x]).name@
                                == config.modules@[j as int].name@));
                    }
                }
            }
        }
        j = j + 1;
    }
    errors
}

} // verus!
