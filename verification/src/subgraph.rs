//! A subgraph: a graph that the enclosing graph treats as one unit.
//!
//! A subgraph shows the enclosing graph input ports only. Each of them is
//! a ghost port that forwards to the input port of one unit inside. It has
//! no way to show an output port: its branches end in sinks.

use crate::graph::{Graph, GraphError, GraphView};
use crate::unit::{Connection, RunState, Unit, UnitId, UnitKind};
use vstd::prelude::*;

verus! {

/// Mathematical value of a [`Subgraph`].
pub struct SubgraphView {
    pub id: UnitId,
    pub graph: GraphView,
    /// For each input port shown outside, the unit inside that it forwards
    /// to, in the order in which the ports were exposed.
    pub inputs: Seq<UnitId>,
    pub state: RunState,
}

impl SubgraphView {
    pub open spec fn empty(id: UnitId) -> SubgraphView {
        SubgraphView {
            id,
            graph: GraphView::empty(),
            inputs: Seq::empty(),
            state: RunState::Stopped,
        }
    }

    /// The subgraph as the enclosing graph sees it.
    pub open spec fn as_unit(self) -> Unit {
        Unit { id: self.id, kind: UnitKind::Subgraph }
    }

    /// The invariant of a subgraph: its graph is well formed and does not
    /// hold the subgraph itself, and every exposed input port forwards to
    /// the otherwise unconnected input port of a member; no two forward to
    /// the same port.
    pub open spec fn wf(self) -> bool {
        &&& self.graph.wf()
        &&& !self.graph.contains(self.id)
        &&& forall|i: int|
            0 <= i < self.inputs.len() ==> {
                let target = #[trigger] self.inputs[i];
                &&& self.graph.contains(target)
                &&& self.graph.unit(target).kind.has_input()
                &&& !self.graph.input_busy(target)
            }
        &&& forall|i: int, j: int|
            0 <= i < j < self.inputs.len() ==> #[trigger] self.inputs[i] != #[trigger] self.inputs[j]
    }

    /// What adding `unit` answers.
    pub open spec fn add_check(self, unit: Unit) -> Result<(), GraphError> {
        if unit.id == self.id || self.graph.contains(unit.id) {
            Err(GraphError::Duplicate(unit.id))
        } else {
            Ok(())
        }
    }

    pub open spec fn add(self, unit: Unit) -> SubgraphView {
        SubgraphView { graph: self.graph.add(unit), ..self }
    }

    /// What linking inside the subgraph answers: what its graph answers,
    /// and a refusal too where the input port of `dst` is exposed.
    pub open spec fn link_check(self, src: UnitId, port: u32, dst: UnitId) -> Result<
        (),
        GraphError,
    > {
        if self.graph.link_check(src, port, dst) is Err {
            self.graph.link_check(src, port, dst)
        } else if self.inputs.contains(dst) {
            Err(GraphError::InputBusy(dst))
        } else {
            Ok(())
        }
    }

    pub open spec fn link(self, c: Connection) -> SubgraphView {
        SubgraphView { graph: self.graph.link(c), ..self }
    }

    /// What exposing the input port of `target` answers.
    pub open spec fn expose_check(self, target: UnitId) -> Result<(), GraphError> {
        if !self.graph.contains(target) {
            Err(GraphError::NotMember(target))
        } else if !self.graph.unit(target).kind.has_input() {
            Err(GraphError::NoInput(target))
        } else if self.graph.input_busy(target) || self.inputs.contains(target) {
            Err(GraphError::InputBusy(target))
        } else {
            Ok(())
        }
    }

    pub open spec fn expose(self, target: UnitId) -> SubgraphView {
        SubgraphView { inputs: self.inputs.push(target), ..self }
    }

    pub open spec fn with_state(self, state: RunState) -> SubgraphView {
        SubgraphView { state, ..self }
    }
}

/// A graph wrapped as one unit, with the input ports that it shows to the
/// graph around it and a run state of its own.
#[derive(Debug)]
pub struct Subgraph {
    id: UnitId,
    graph: Graph,
    inputs: Vec<UnitId>,
    state: RunState,
}

impl View for Subgraph {
    type V = SubgraphView;

    closed spec fn view(&self) -> SubgraphView {
        SubgraphView { id: self.id, graph: self.graph@, inputs: self.inputs@, state: self.state }
    }
}

impl Subgraph {
    /// The invariant that every subgraph handed out by this module meets.
    pub open spec fn wf(&self) -> bool {
        self@.wf()
    }

    /// An empty, stopped subgraph that shows no port.
    pub fn new(id: UnitId) -> (s: Subgraph)
        ensures
            s@ == SubgraphView::empty(id),
            s.wf(),
    {
        Subgraph { id, graph: Graph::new(), inputs: Vec::new(), state: RunState::Stopped }
    }

    pub fn id(&self) -> (r: UnitId)
        ensures
            r == self@.id,
    {
        self.id
    }

    pub fn state(&self) -> (r: RunState)
        ensures
            r == self@.state,
    {
        self.state
    }

    pub fn graph(&self) -> (r: &Graph)
        ensures
            r@ == self@.graph,
    {
        &self.graph
    }

    /// The units that the exposed input ports forward to.
    pub fn inputs(&self) -> (r: &Vec<UnitId>)
        ensures
            r@ == self@.inputs,
    {
        &self.inputs
    }

    /// The subgraph as the enclosing graph sees it.
    pub fn as_unit(&self) -> (r: Unit)
        ensures
            r == self@.as_unit(),
    {
        Unit { id: self.id, kind: UnitKind::Subgraph }
    }

    fn exposes(&self, target: UnitId) -> (r: bool)
        ensures
            r == self@.inputs.contains(target),
    {
        let mut i: usize = 0;
        while i < self.inputs.len()
            invariant
                i <= self.inputs.len(),
                forall|j: int| 0 <= j < i ==> self.inputs@[j] != target,
            decreases self.inputs.len() - i,
        {
            if self.inputs[i] == target {
                return true;
            }
            i = i + 1;
        }
        false
    }

    /// Adds `unit` to the subgraph. Refused, with the subgraph unchanged,
    /// where the identifier is the subgraph's own or a member's.
    pub fn add(&mut self, unit: Unit) -> (r: Result<(), GraphError>)
        requires
            old(self).wf(),
        ensures
            final(self).wf(),
            r == old(self)@.add_check(unit),
            r is Ok ==> final(self)@ == old(self)@.add(unit),
            r is Err ==> final(self)@ == old(self)@,
    {
        if unit.id == self.id {
            return Err(GraphError::Duplicate(unit.id));
        }
        proof {
            if !self@.graph.contains(unit.id) {
                self@.graph.lemma_add_wf(unit);
            }
        }
        self.graph.add(unit)
    }

    /// Connects two members. Refused, with the subgraph unchanged, where
    /// its graph refuses or the input port of `dst` is exposed.
    pub fn link(&mut self, src: UnitId, port: u32, dst: UnitId) -> (r: Result<(), GraphError>)
        requires
            old(self).wf(),
        ensures
            final(self).wf(),
            r == old(self)@.link_check(src, port, dst),
            r is Ok ==> final(self)@ == old(self)@.link(Connection { src, port, dst }),
            r is Err ==> final(self)@ == old(self)@,
    {
        if self.exposes(dst) {
            let probe = self.graph.link_check(src, port, dst);
            return match probe {
                Err(e) => Err(e),
                Ok(()) => Err(GraphError::InputBusy(dst)),
            };
        }
        let r = self.graph.link(src, port, dst);
        proof {
            if r is Ok {
                let c = Connection { src, port, dst };
                let g = old(self)@.graph;
                assert forall|i: int| 0 <= i < self@.inputs.len() implies !self@.graph.input_busy(
                    #[trigger] self@.inputs[i],
                ) by {
                    let target = self@.inputs[i];
                    assert(!g.input_busy(target));
                    if self@.graph.input_busy(target) {
                        let k = choose|k: int|
                            0 <= k < self@.graph.connections.len() && (
                            #[trigger] self@.graph.connections[k]).dst == target;
                        if k < g.connections.len() {
                            assert(g.connections[k].dst == target);
                        }
                    }
                }
            }
        }
        r
    }

    /// Shows the input port of member `target` to the enclosing graph.
    /// Refused, with the subgraph unchanged, where `target` is no member,
    /// has no input port, or has it connected or exposed already.
    pub fn expose_input(&mut self, target: UnitId) -> (r: Result<(), GraphError>)
        requires
            old(self).wf(),
        ensures
            final(self).wf(),
            r == old(self)@.expose_check(target),
            r is Ok ==> final(self)@ == old(self)@.expose(target),
            r is Err ==> final(self)@ == old(self)@,
    {
        let unit = match self.graph.find(target) {
            Some(unit) => unit,
            None => {
                return Err(GraphError::NotMember(target));
            },
        };
        if !unit.kind.accepts_input() {
            return Err(GraphError::NoInput(target));
        }
        if self.graph.input_busy(target) || self.exposes(target) {
            return Err(GraphError::InputBusy(target));
        }
        self.inputs.push(target);
        Ok(())
    }

    /// Sets the run state of the subgraph.
    pub fn set_state(&mut self, state: RunState)
        ensures
            final(self)@ == old(self)@.with_state(state),
    {
        self.state = state;
    }
}

} // verus!
