//! The top-level graph: plain units, at most one subgraph, and a global
//! run state.

use crate::graph::{Graph, GraphError, GraphView};
use crate::subgraph::{Subgraph, SubgraphView};
use crate::unit::{Connection, RunState, Unit, UnitId, UnitKind};
use vstd::prelude::*;

verus! {

/// Mathematical value of a [`Pipeline`]. A subgraph that is a member
/// stands in `graph` as one unit of kind [`UnitKind::Subgraph`]; what it
/// holds is in `subgraph`.
pub struct PipelineView {
    pub graph: GraphView,
    pub subgraph: Option<SubgraphView>,
    pub state: RunState,
}

impl PipelineView {
    pub open spec fn empty() -> PipelineView {
        PipelineView { graph: GraphView::empty(), subgraph: None, state: RunState::Stopped }
    }

    /// Whether `id` names the subgraph that is a member.
    pub open spec fn holds_subgraph(self, id: UnitId) -> bool {
        self.subgraph matches Some(s) && s.id == id
    }

    /// The invariant of the top-level graph: its graph is well formed, the
    /// subgraph, where there is one, is well formed and stands in the graph
    /// as a unit, and no other unit of the graph is a subgraph.
    pub open spec fn wf(self) -> bool {
        &&& self.graph.wf()
        &&& self.subgraph matches Some(s) ==> s.wf() && self.graph.contains(s.id)
            && self.graph.unit(s.id) == s.as_unit()
        &&& forall|i: int|
            0 <= i < self.graph.units.len() && (#[trigger] self.graph.units[i]).kind
                == UnitKind::Subgraph ==> self.holds_subgraph(self.graph.units[i].id)
    }

    /// What adding the plain unit `unit` answers.
    pub open spec fn add_unit_check(self, unit: Unit) -> Result<(), GraphError> {
        if unit.kind == UnitKind::Subgraph {
            Err(GraphError::Composite(unit.id))
        } else if self.graph.contains(unit.id) {
            Err(GraphError::Duplicate(unit.id))
        } else {
            Ok(())
        }
    }

    pub open spec fn add_unit(self, unit: Unit) -> PipelineView {
        PipelineView { graph: self.graph.add(unit), ..self }
    }

    /// What adding a subgraph with identifier `id` answers.
    pub open spec fn add_subgraph_check(self, id: UnitId) -> Result<(), GraphError> {
        if self.subgraph is Some {
            Err(GraphError::Occupied)
        } else if self.graph.contains(id) {
            Err(GraphError::Duplicate(id))
        } else {
            Ok(())
        }
    }

    pub open spec fn add_subgraph(self, sub: SubgraphView) -> PipelineView {
        PipelineView { graph: self.graph.add(sub.as_unit()), subgraph: Some(sub), ..self }
    }

    /// The graph without the plain unit `id`; the graph itself where `id`
    /// names no plain unit.
    pub open spec fn remove_unit(self, id: UnitId) -> PipelineView {
        if self.graph.contains(id) && !self.holds_subgraph(id) {
            PipelineView { graph: self.graph.remove(id), ..self }
        } else {
            self
        }
    }

    /// The graph without the subgraph `id`; the graph itself where `id`
    /// does not name the subgraph.
    pub open spec fn remove_subgraph(self, id: UnitId) -> PipelineView {
        if self.holds_subgraph(id) {
            PipelineView { graph: self.graph.remove(id), subgraph: None, ..self }
        } else {
            self
        }
    }

    /// Whether member `id` has an input port: a plain unit by its kind, the
    /// subgraph where it exposes one.
    pub open spec fn has_input(self, id: UnitId) -> bool {
        if self.holds_subgraph(id) {
            self.subgraph.unwrap().inputs.len() > 0
        } else {
            self.graph.unit(id).kind.has_input()
        }
    }

    /// What linking output port `port` of `src` to the input port of `dst`
    /// answers: the first of the reasons to refuse that applies, or `Ok`.
    pub open spec fn link_check(self, src: UnitId, port: u32, dst: UnitId) -> Result<
        (),
        GraphError,
    > {
        if !self.graph.contains(src) {
            Err(GraphError::NotMember(src))
        } else if !self.graph.contains(dst) {
            Err(GraphError::NotMember(dst))
        } else if !self.graph.unit(src).kind.has_output(port) {
            Err(GraphError::NoOutput { unit: src, port })
        } else if !self.has_input(dst) {
            Err(GraphError::NoInput(dst))
        } else if self.graph.output_busy(src, port) {
            Err(GraphError::OutputBusy { unit: src, port })
        } else if self.graph.input_busy(dst) {
            Err(GraphError::InputBusy(dst))
        } else {
            Ok(())
        }
    }

    pub open spec fn link(self, c: Connection) -> PipelineView {
        PipelineView { graph: self.graph.link(c), ..self }
    }

    /// The graph in run state `state`, its subgraph with it.
    pub open spec fn with_state(self, state: RunState) -> PipelineView {
        PipelineView {
            subgraph: match self.subgraph {
                Some(s) => Some(s.with_state(state)),
                None => None,
            },
            state,
            ..self
        }
    }

    /// The graph with its subgraph brought to the graph's own run state.
    pub open spec fn synced(self) -> PipelineView {
        self.with_state(self.state)
    }

    /// Whether the subgraph, where there is one, is in the graph's run
    /// state.
    pub open spec fn in_step(self) -> bool {
        self.subgraph matches Some(s) ==> s.state == self.state
    }

    /// Removing a member keeps what the invariant says of the others.
    pub proof fn lemma_remove_wf(self, id: UnitId)
        requires
            self.wf(),
            self.graph.contains(id),
        ensures
            self.graph.remove(id).wf(),
            !self.holds_subgraph(id) ==> (PipelineView {
                graph: self.graph.remove(id),
                ..self
            }).wf(),
            self.holds_subgraph(id) ==> (PipelineView {
                graph: self.graph.remove(id),
                subgraph: None,
                ..self
            }).wf(),
    {
        let g = self.graph;
        let h = g.remove(id);
        g.lemma_remove_wf(id);
        let at = g.index_of(id);
        assert(0 <= at < g.units.len() && g.units[at].id == id);
        assert forall|i: int| 0 <= i < h.units.len() implies #[trigger] h.units[i] == g.units[if i
            < at {
            i
        } else {
            i + 1
        }] by {}
        assert forall|i: int|
            0 <= i < h.units.len() && (#[trigger] h.units[i]).kind
                == UnitKind::Subgraph implies self.holds_subgraph(h.units[i].id) && h.units[i].id
            != id by {
            let a = if i < at {
                i
            } else {
                i + 1
            };
            assert(h.units[i] == g.units[a]);
            assert(g.units[a].kind == UnitKind::Subgraph);
            g.lemma_member(a);
            g.lemma_member(at);
        }
    }
}

/// The top-level graph that a manager owns.
#[derive(Debug)]
pub struct Pipeline {
    graph: Graph,
    subgraph: Option<Subgraph>,
    state: RunState,
}

impl View for Pipeline {
    type V = PipelineView;

    closed spec fn view(&self) -> PipelineView {
        PipelineView {
            graph: self.graph@,
            subgraph: match self.subgraph {
                Some(s) => Some(s@),
                None => None,
            },
            state: self.state,
        }
    }
}

impl Pipeline {
    /// The invariant that every pipeline handed out by this module meets.
    pub open spec fn wf(&self) -> bool {
        self@.wf()
    }

    /// An empty, stopped graph.
    pub fn new() -> (p: Pipeline)
        ensures
            p@ == PipelineView::empty(),
            p.wf(),
    {
        Pipeline { graph: Graph::new(), subgraph: None, state: RunState::Stopped }
    }

    pub fn state(&self) -> (r: RunState)
        ensures
            r == self@.state,
    {
        self.state
    }

    pub fn graph(&self) -> (r: &Graph)
        ensures
            r@ == self@.graph,
    {
        &self.graph
    }

    /// The subgraph that is a member, if there is one.
    pub fn subgraph(&self) -> (r: Option<&Subgraph>)
        ensures
            match r {
                Some(s) => self@.subgraph == Some(s@),
                None => self@.subgraph is None,
            },
    {
        self.subgraph.as_ref()
    }

    /// Whether `id` names the subgraph that is a member.
    pub fn holds_subgraph(&self, id: UnitId) -> (r: bool)
        ensures
            r == self@.holds_subgraph(id),
    {
        match &self.subgraph {
            Some(s) => s.id() == id,
            None => false,
        }
    }

    /// Adds a plain unit. Refused, with the graph unchanged, where the unit
    /// is of kind subgraph or a member has its identifier already.
    pub fn add_unit(&mut self, unit: Unit) -> (r: Result<(), GraphError>)
        requires
            old(self).wf(),
        ensures
            final(self).wf(),
            r == old(self)@.add_unit_check(unit),
            r is Ok ==> final(self)@ == old(self)@.add_unit(unit),
            r is Err ==> final(self)@ == old(self)@,
    {
        match unit.kind {
            UnitKind::Subgraph => {
                return Err(GraphError::Composite(unit.id));
            },
            _ => {},
        }
        proof {
            if !self@.graph.contains(unit.id) {
                self@.graph.lemma_add_wf(unit);
            }
        }
        self.graph.add(unit)
    }

    /// Adds a subgraph as one member. Refused, with the graph unchanged and
    /// the subgraph dropped, where the graph holds a subgraph already or a
    /// member has its identifier.
    pub fn add_subgraph(&mut self, sub: Subgraph) -> (r: Result<(), GraphError>)
        requires
            old(self).wf(),
            sub.wf(),
        ensures
            final(self).wf(),
            r == old(self)@.add_subgraph_check(sub@.id),
            r is Ok ==> final(self)@ == old(self)@.add_subgraph(sub@),
            r is Err ==> final(self)@ == old(self)@,
    {
        if self.subgraph.is_some() {
            return Err(GraphError::Occupied);
        }
        let unit = sub.as_unit();
        proof {
            if !self@.graph.contains(unit.id) {
                self@.graph.lemma_add_wf(unit);
            }
        }
        let r = self.graph.add(unit);
        if r.is_ok() {
            self.subgraph = Some(sub);
        }
        r
    }

    /// Takes the plain unit `id` out of the graph, together with the
    /// connections that touch it.
    pub fn remove_unit(&mut self, id: UnitId) -> (r: Option<Unit>)
        requires
            old(self).wf(),
        ensures
            final(self).wf(),
            r == if old(self)@.graph.contains(id) && !old(self)@.holds_subgraph(id) {
                Some(old(self)@.graph.unit(id))
            } else {
                None::<Unit>
            },
            final(self)@ == old(self)@.remove_unit(id),
    {
        if self.holds_subgraph(id) {
            return None;
        }
        proof {
            if self@.graph.contains(id) {
                self@.lemma_remove_wf(id);
            }
        }
        self.graph.remove(id)
    }

    /// Takes the subgraph `id` out of the graph, together with the
    /// connections that touch it, and hands it back.
    pub fn remove_subgraph(&mut self, id: UnitId) -> (r: Option<Subgraph>)
        requires
            old(self).wf(),
        ensures
            final(self).wf(),
            match r {
                Some(s) => old(self)@.holds_subgraph(id) && old(self)@.subgraph == Some(s@)
                    && s.wf(),
                None => !old(self)@.holds_subgraph(id),
            },
            final(self)@ == old(self)@.remove_subgraph(id),
    {
        if !self.holds_subgraph(id) {
            return None;
        }
        proof {
            self@.lemma_remove_wf(id);
        }
        let _ = self.graph.remove(id);
        self.subgraph.take()
    }

    /// Whether member `id` has an input port.
    fn has_input(&self, id: UnitId) -> (r: bool)
        requires
            self.wf(),
            self@.graph.contains(id),
        ensures
            r == self@.has_input(id),
    {
        match &self.subgraph {
            Some(s) => {
                if s.id() == id {
                    return s.inputs().len() > 0;
                }
            },
            None => {},
        }
        match self.graph.find(id) {
            Some(unit) => unit.kind.accepts_input(),
            None => false,
        }
    }

    /// What linking output port `port` of `src` to the input port of `dst`
    /// would answer; the graph is left as it is.
    pub fn link_check(&self, src: UnitId, port: u32, dst: UnitId) -> (r: Result<(), GraphError>)
        requires
            self.wf(),
        ensures
            r == self@.link_check(src, port, dst),
    {
        let from = match self.graph.find(src) {
            Some(unit) => unit,
            None => {
                return Err(GraphError::NotMember(src));
            },
        };
        if !self.graph.contains(dst) {
            return Err(GraphError::NotMember(dst));
        }
        if !from.kind.offers_output(port) {
            return Err(GraphError::NoOutput { unit: src, port });
        }
        if !self.has_input(dst) {
            return Err(GraphError::NoInput(dst));
        }
        if self.graph.output_busy(src, port) {
            return Err(GraphError::OutputBusy { unit: src, port });
        }
        if self.graph.input_busy(dst) {
            return Err(GraphError::InputBusy(dst));
        }
        Ok(())
    }

    /// Connects output port `port` of `src` to the input port of `dst`.
    /// Refused, with the graph unchanged, where either is no member, lacks
    /// the port, or has it connected already.
    pub fn link(&mut self, src: UnitId, port: u32, dst: UnitId) -> (r: Result<(), GraphError>)
        requires
            old(self).wf(),
        ensures
            final(self).wf(),
            r == old(self)@.link_check(src, port, dst),
            r is Ok ==> final(self)@ == old(self)@.link(Connection { src, port, dst }),
            r is Err ==> final(self)@ == old(self)@,
    {
        let r = self.link_check(src, port, dst);
        if r.is_ok() {
            let linked = self.graph.link(src, port, dst);
            assert(linked is Ok);
        }
        r
    }

    /// Brings the graph, and its subgraph with it, to run state `state`.
    pub fn set_state(&mut self, state: RunState)
        requires
            old(self).wf(),
        ensures
            final(self).wf(),
            final(self)@ == old(self)@.with_state(state),
    {
        self.state = state;
        self.sync_subgraph();
    }

    /// Brings the subgraph, where there is one, to the graph's run state.
    pub fn sync_subgraph(&mut self)
        requires
            old(self).wf(),
        ensures
            final(self).wf(),
            final(self)@ == old(self)@.synced(),
    {
        match self.subgraph.take() {
            Some(mut sub) => {
                sub.set_state(self.state);
                self.subgraph = Some(sub);
            },
            None => {},
        }
    }
}

} // verus!
