//! The manager: owner of the top-level graph and of its run state.
//!
//! The manager keeps one display sink for its whole life and, per source,
//! a dynamic region: the file source, the demultiplexer and the fan-out
//! subgraph. Loading a source tears the previous region down and builds a
//! new one; playing and stopping change the run state only.

use crate::attach::AttachCallback;
use crate::command::{assembly, Command, Container};
use crate::fanout::{build_fanout, fanout, BuildError, FANOUT_IDS};
use crate::graph::{clear_of, GraphView};
use crate::pipeline::{Pipeline, PipelineView};
use crate::unit::{Connection, RunState, Unit, UnitId, UnitKind};
use vstd::prelude::*;

verus! {

/// Number of identifiers that one source takes: file source,
/// demultiplexer, and the fan-out subgraph.
pub const SOURCE_IDS: u64 = 2 + FANOUT_IDS;

/// Handle of the surface that the display sink renders to. It names the
/// display sink, which lives as long as the manager and longer than any
/// source.
#[derive(Clone, Copy, Debug, PartialEq, Eq, Structural)]
pub struct Paintable {
    pub sink: UnitId,
}

/// The run state was not changed: the real graph rejected the transition
/// to the state named.
#[derive(Clone, Copy, Debug, PartialEq, Eq, Structural)]
pub enum StateError {
    Rejected(RunState),
}

/// Mathematical value of the dynamic region of one source.
pub struct SourceView {
    /// Identifier of the file source; the demultiplexer has the next one,
    /// the fan-out subgraph those from the one after that.
    pub base: UnitId,
    /// Path of the media file; `None` makes an idle source.
    pub location: Option<Seq<char>>,
    /// Run state of the fan-out subgraph.
    pub branch_state: RunState,
    /// The output port of the demultiplexer that feeds the subgraph, once
    /// one was discovered and attached.
    pub attached: Option<u32>,
}

impl SourceView {
    pub open spec fn source(self) -> Unit {
        Unit { id: self.base, kind: UnitKind::FileSource }
    }

    pub open spec fn demux(self) -> Unit {
        Unit { id: (self.base + 1) as UnitId, kind: UnitKind::Demux }
    }

    /// Identifier of the fan-out subgraph.
    pub open spec fn subgraph(self) -> UnitId {
        (self.base + 2) as UnitId
    }

    /// The static link from the file source to the demultiplexer.
    pub open spec fn feed(self) -> Connection {
        Connection { src: self.base, port: 0, dst: self.demux().id }
    }

    /// The link from output port `port` of the demultiplexer to the
    /// subgraph.
    pub open spec fn attachment(self, port: u32) -> Connection {
        Connection { src: self.demux().id, port, dst: self.subgraph() }
    }
}

/// Mathematical value of a [`GstManager`].
pub struct ManagerView {
    /// The display sink, made once.
    pub display: Unit,
    /// The next identifier to hand out.
    pub next_id: UnitId,
    /// Global run state.
    pub state: RunState,
    /// The dynamic region, where a source is loaded.
    pub source: Option<SourceView>,
}

impl ManagerView {
    /// A new manager: a display sink, and an empty, stopped graph.
    pub open spec fn initial() -> ManagerView {
        ManagerView {
            display: Unit { id: 0, kind: UnitKind::DisplaySink },
            next_id: 1,
            state: RunState::Stopped,
            source: None,
        }
    }

    /// The invariant of a manager: the identifiers in use lie below the
    /// next one to hand out, those of the region above the display sink's,
    /// and the subgraph plays only in a graph that plays.
    pub open spec fn wf(self) -> bool {
        &&& self.display.kind == UnitKind::DisplaySink
        &&& self.display.id < self.next_id
        &&& self.source matches Some(s) ==> {
            &&& self.display.id < s.base
            &&& s.base + SOURCE_IDS <= self.next_id
            &&& s.branch_state == RunState::Playing ==> self.state == RunState::Playing
        }
    }

    /// The top-level graph of the manager: empty without a source; with
    /// one, the file source, the demultiplexer and the fan-out subgraph,
    /// the static link, and the attachment once it is made.
    pub open spec fn graph(self) -> PipelineView {
        match self.source {
            None => PipelineView { graph: GraphView::empty(), subgraph: None, state: self.state },
            Some(s) => PipelineView {
                graph: GraphView {
                    units: seq![
                        s.source(),
                        s.demux(),
                        Unit { id: s.subgraph(), kind: UnitKind::Subgraph },
                    ],
                    connections: match s.attached {
                        Some(port) => seq![s.feed(), s.attachment(port)],
                        None => seq![s.feed()],
                    },
                },
                subgraph: Some(fanout(self.display, s.subgraph()).with_state(s.branch_state)),
                state: self.state,
            },
        }
    }

    /// The handle of the display surface.
    pub open spec fn paintable(self) -> Paintable {
        Paintable { sink: self.display.id }
    }

    /// Whether the identifiers for one more source are left.
    pub open spec fn has_room(self) -> bool {
        self.next_id <= u64::MAX - SOURCE_IDS
    }

    /// The manager without its dynamic region.
    pub open spec fn unloaded(self) -> ManagerView {
        ManagerView { source: None, ..self }
    }

    /// The manager after loading a source: the previous region is gone;
    /// where identifiers are left, a new region stands in its place,
    /// stopped and unattached.
    pub open spec fn loaded(self, location: Option<Seq<char>>) -> ManagerView {
        if self.has_room() {
            ManagerView {
                next_id: (self.next_id + SOURCE_IDS) as UnitId,
                source: Some(
                    SourceView {
                        base: self.next_id,
                        location,
                        branch_state: RunState::Stopped,
                        attached: None,
                    },
                ),
                ..self
            }
        } else {
            self.unloaded()
        }
    }

    /// The manager in run state `state`, the subgraph with it.
    pub open spec fn with_state(self, state: RunState) -> ManagerView {
        ManagerView {
            state,
            source: match self.source {
                Some(s) => Some(SourceView { branch_state: state, ..s }),
                None => None,
            },
            ..self
        }
    }

    /// The manager after a request to play that the real graph accepted or
    /// rejected.
    pub open spec fn played(self, accepted: bool) -> ManagerView {
        if accepted {
            self.with_state(RunState::Playing)
        } else {
            self
        }
    }

    /// The manager after a request to stop. Stopping a stopped graph
    /// changes nothing, whatever the real graph answered.
    pub open spec fn stopped(self, accepted: bool) -> ManagerView {
        if accepted && self.state != RunState::Stopped {
            self.with_state(RunState::Stopped)
        } else {
            self
        }
    }

    /// What a request to play answers: the rejection of the real graph,
    /// where it rejected.
    pub open spec fn play_outcome(self, accepted: bool) -> Result<(), StateError> {
        if accepted {
            Ok(())
        } else {
            Err(StateError::Rejected(RunState::Playing))
        }
    }

    /// What a request to stop answers: the rejection of the real graph,
    /// where it rejected and the graph was not stopped already.
    pub open spec fn stop_outcome(self, accepted: bool) -> Result<(), StateError> {
        if accepted || self.state == RunState::Stopped {
            Ok(())
        } else {
            Err(StateError::Rejected(RunState::Stopped))
        }
    }

    /// What loading a source answers on the manager's own account.
    pub open spec fn load_outcome(self) -> Result<(), BuildError> {
        if self.has_room() {
            Ok(())
        } else {
            Err(BuildError::Exhausted)
        }
    }

    /// The manager after loading one source after the other.
    pub open spec fn loaded_all(self, locations: Seq<Option<Seq<char>>>) -> ManagerView
        decreases locations.len(),
    {
        if locations.len() == 0 {
            self
        } else {
            self.loaded_all(locations.drop_last()).loaded(locations.last())
        }
    }

    /// Whether `id` names the fan-out subgraph of the present region.
    pub open spec fn resolves(self, id: UnitId) -> bool {
        self.source matches Some(s) && s.subgraph() == id
    }

    /// The manager after the subgraph was taken out, put back, brought to
    /// the graph's run state and linked to output port `port` of the
    /// demultiplexer.
    pub open spec fn attached(self, port: u32) -> ManagerView {
        match self.source {
            Some(s) => ManagerView {
                source: Some(
                    SourceView { branch_state: self.state, attached: Some(port), ..s },
                ),
                ..self
            },
            None => self,
        }
    }

    /// The manager after the link to the demultiplexer was undone.
    pub open spec fn detached(self) -> ManagerView {
        match self.source {
            Some(s) => ManagerView { source: Some(SourceView { attached: None, ..s }), ..self },
            None => self,
        }
    }

    /// The commands that take the present region out of the real graph and
    /// free the display sink for the next one.
    pub open spec fn teardown_commands(self) -> Seq<Command> {
        match self.source {
            Some(s) => seq![
                Command::Remove { container: Container::Graph, unit: s.base },
                Command::Remove { container: Container::Graph, unit: s.demux().id },
                Command::Remove { container: Container::Graph, unit: s.subgraph() },
                Command::Remove {
                    container: Container::Subgraph(s.subgraph()),
                    unit: self.display.id,
                },
                Command::Dispose { unit: s.base },
                Command::Dispose { unit: s.demux().id },
                Command::Dispose { unit: s.subgraph() },
            ],
            None => Seq::empty(),
        }
    }

    /// The commands that build the present region in the real graph.
    pub open spec fn build_commands(self) -> Seq<Command> {
        match self.source {
            Some(s) => seq![Command::Create(s.source()), Command::Create(s.demux())] + fanout(
                self.display,
                s.subgraph(),
            ).assembly(self.display.id) + seq![
                Command::Insert { container: Container::Graph, member: s.source() },
                Command::Insert { container: Container::Graph, member: s.demux() },
                Command::Insert {
                    container: Container::Graph,
                    member: Unit { id: s.subgraph(), kind: UnitKind::Subgraph },
                },
                Command::Link(s.feed()),
                Command::Watch { unit: s.demux().id },
            ],
            None => Seq::empty(),
        }
    }

    /// The commands that attach the subgraph to output port `port` of the
    /// demultiplexer: take it out, put it back, bring it to the graph's
    /// run state, link.
    pub open spec fn attach_commands(self, port: u32) -> Seq<Command> {
        match self.source {
            Some(s) => seq![
                Command::Remove { container: Container::Graph, unit: s.subgraph() },
                Command::Insert {
                    container: Container::Graph,
                    member: Unit { id: s.subgraph(), kind: UnitKind::Subgraph },
                },
                Command::SyncState { unit: s.subgraph() },
                Command::Link(s.attachment(port)),
            ],
            None => Seq::empty(),
        }
    }
}

/// What a failed step of a build is reported as: a unit that could not be
/// created or inserted is a construction error, a link or a port that
/// could not be made a linking error.
pub open spec fn build_failure(failed: Command) -> BuildError {
    match failed {
        Command::Create(unit) => BuildError::Construction(unit),
        Command::Insert { member, .. } => BuildError::Construction(member),
        Command::Link(c) => BuildError::Linking(c),
        Command::Expose { subgraph, target } => BuildError::Linking(
            Connection { src: subgraph, port: 0, dst: target },
        ),
        _ => BuildError::Refused(failed),
    }
}

/// What the manager remembers of the source that is loaded.
#[derive(Debug)]
struct SourceRecord {
    base: UnitId,
    location: Option<String>,
}

/// What loading a source hands to the driver.
#[derive(Debug)]
pub struct SourcePlan {
    /// The steps that take the previous region out of the real graph and
    /// build the new one, in order.
    pub commands: Vec<Command>,
    /// The callback to run on each output port that the new
    /// demultiplexer discovers.
    pub callback: AttachCallback,
}

/// Owner of the top-level graph, of its run state and of the display sink.
#[derive(Debug)]
pub struct GstManager {
    gtksink: Unit,
    pipeline: Pipeline,
    next_id: UnitId,
    source: Option<SourceRecord>,
}

impl View for GstManager {
    type V = ManagerView;

    closed spec fn view(&self) -> ManagerView {
        ManagerView {
            display: self.gtksink,
            next_id: self.next_id,
            state: self.pipeline@.state,
            source: match self.source {
                Some(record) => Some(
                    SourceView {
                        base: record.base,
                        location: match record.location {
                            Some(path) => Some(path@),
                            None => None,
                        },
                        branch_state: match self.pipeline@.subgraph {
                            Some(sub) => sub.state,
                            None => RunState::Stopped,
                        },
                        attached: if self.pipeline@.graph.connections.len() > 1 {
                            Some(self.pipeline@.graph.connections[1].port)
                        } else {
                            None
                        },
                    },
                ),
                None => None,
            },
        }
    }
}

/// Taking the subgraph out of the graph leaves the static link alone.
pub proof fn lemma_without_subgraph(s: SourceView, attached: Option<u32>)
    requires
        s.base + SOURCE_IDS <= u64::MAX,
    ensures
        (match attached {
            Some(port) => seq![s.feed(), s.attachment(port)],
            None => seq![s.feed()],
        }).filter(clear_of(s.subgraph())) == seq![s.feed()],
{
    let keep = clear_of(s.subgraph());
    let none = Seq::<Connection>::empty();
    none.lemma_filter_len(keep);
    assert(none.filter(keep) =~= none);
    none.lemma_filter_push(s.feed(), keep);
    assert(none.push(s.feed()) =~= seq![s.feed()]);
    match attached {
        Some(port) => {
            seq![s.feed()].lemma_filter_push(s.attachment(port), keep);
            assert(seq![s.feed()].push(s.attachment(port)) =~= seq![s.feed(), s.attachment(port)]);
        },
        None => {},
    }
}

impl GstManager {
    /// The invariant that every manager handed out by this module meets:
    /// its top-level graph is well formed and is the one that its value
    /// describes.
    pub closed spec fn wf(&self) -> bool {
        &&& self@.wf()
        &&& self.pipeline.wf()
        &&& self.pipeline@ == self@.graph()
    }

    /// Makes the display sink and an empty, stopped top-level graph.
    pub fn new() -> (manager: GstManager)
        ensures
            manager.wf(),
            manager@ == ManagerView::initial(),
    {
        GstManager {
            gtksink: Unit { id: 0, kind: UnitKind::DisplaySink },
            pipeline: Pipeline::new(),
            next_id: 1,
            source: None,
        }
    }

    /// The top-level graph.
    pub fn get_pipeline(&self) -> (pipeline: &Pipeline)
        requires
            self.wf(),
        ensures
            pipeline@ == self@.graph(),
            pipeline.wf(),
    {
        &self.pipeline
    }

    /// The handle of the surface that the display sink renders to. It is
    /// there before any source is loaded and stays the same ever after.
    pub fn get_paintable_sink(&self) -> (paintable: Paintable)
        ensures
            paintable == self@.paintable(),
    {
        Paintable { sink: self.gtksink.id }
    }

    /// The display sink.
    pub fn display_unit(&self) -> (unit: Unit)
        ensures
            unit == self@.display,
    {
        self.gtksink
    }

    /// Global run state.
    pub fn run_state(&self) -> (state: RunState)
        ensures
            state == self@.state,
    {
        self.pipeline.state()
    }

    /// The path of the media file of the source that is loaded.
    pub fn location(&self) -> (path: Option<&str>)
        ensures
            match path {
                Some(p) => self@.source matches Some(s) && s.location == Some(p@),
                None => self@.source matches Some(s) ==> s.location is None,
            },
    {
        match &self.source {
            Some(record) => match &record.location {
                Some(path) => Some(path.as_str()),
                None => None,
            },
            None => None,
        }
    }

    /// Whether `id` names the fan-out subgraph of the source that is
    /// loaded.
    pub fn resolves(&self, id: UnitId) -> (r: bool)
        requires
            self.wf(),
        ensures
            r == self@.resolves(id),
    {
        match &self.source {
            Some(record) => record.base + 2 == id,
            None => false,
        }
    }

    /// Takes the dynamic region out of the graph and appends the commands
    /// that do the same to the real graph.
    fn teardown(&mut self, commands: &mut Vec<Command>)
        requires
            old(self).wf(),
        ensures
            final(self).wf(),
            final(self)@ == old(self)@.unloaded(),
            final(commands)@ == old(commands)@ + old(self)@.teardown_commands(),
    {
        let record = match self.source.take() {
            Some(record) => record,
            None => {
                assert(commands@ + Seq::<Command>::empty() =~= commands@);
                return ;
            },
        };
        let base = record.base;
        let ghost before = self.pipeline@;
        proof {
            before.graph.lemma_member(0);
            before.graph.lemma_member(1);
            before.graph.lemma_member(2);
        }
        let _ = self.pipeline.remove_unit(base);
        proof {
            let g = self.pipeline@.graph;
            assert(g.units.len() == 2);
            assert(g.units[0] == before.graph.units[1]);
            assert(g.units[1] == before.graph.units[2]);
            g.lemma_member(0);
            g.lemma_member(1);
        }
        let _ = self.pipeline.remove_unit(base + 1);
        proof {
            let g = self.pipeline@.graph;
            assert(g.units.len() == 1);
            assert(g.units[0] == before.graph.units[2]);
            g.lemma_member(0);
        }
        let _ = self.pipeline.remove_subgraph(base + 2);
        proof {
            let g = self.pipeline@.graph;
            assert(g.units.len() == 0);
            assert(g.connections.len() == 0) by {
                if g.connections.len() > 0 {
                    assert(g.joins_members(g.connections[0]));
                }
            }
            assert(g.units =~= Seq::<Unit>::empty());
            assert(g.connections =~= Seq::<Connection>::empty());
        }
        let ghost done = commands@;
        commands.push(Command::Remove { container: Container::Graph, unit: base });
        commands.push(Command::Remove { container: Container::Graph, unit: base + 1 });
        commands.push(Command::Remove { container: Container::Graph, unit: base + 2 });
        commands.push(
            Command::Remove { container: Container::Subgraph(base + 2), unit: self.gtksink.id },
        );
        commands.push(Command::Dispose { unit: base });
        commands.push(Command::Dispose { unit: base + 1 });
        commands.push(Command::Dispose { unit: base + 2 });
        assert(commands@ =~= done + old(self)@.teardown_commands());
    }

    /// Loads a source: tears the previous dynamic region down, then builds
    /// a file source for `filename` (an idle one without a name), a
    /// demultiplexer and a fan-out subgraph around the display sink, adds
    /// the three to the graph and links the source to the demultiplexer.
    ///
    /// The plan holds the commands that do the same to the real graph and
    /// the callback for the demultiplexer, registered and waiting. The
    /// only failure of the manager's own is that its identifiers are used
    /// up; the previous region is torn down all the same. A step that the
    /// real graph refuses goes to [`GstManager::source_failed`].
    pub fn set_video_filename(&mut self, filename: Option<&str>) -> (r: Result<
        SourcePlan,
        BuildError,
    >)
        requires
            old(self).wf(),
        ensures
            final(self).wf(),
            final(self)@ == old(self)@.loaded(
                match filename {
                    Some(path) => Some(path@),
                    None => None,
                },
            ),
            r is Ok <==> old(self)@.load_outcome() is Ok,
            match r {
                Ok(plan) => {
                    &&& plan.commands@ == old(self)@.teardown_commands() + final(self)@.build_commands()
                    &&& plan.callback == AttachCallback::waiting_for(
                        (old(self)@.next_id + 2) as UnitId,
                    )
                },
                Err(e) => old(self)@.load_outcome() == Err::<(), BuildError>(e),
            },
    {
        self.build_pipeline(filename)
    }

    /// Tears the previous dynamic region down and builds the next one.
    fn build_pipeline(&mut self, filename: Option<&str>) -> (r: Result<SourcePlan, BuildError>)
        requires
            old(self).wf(),
        ensures
            final(self).wf(),
            final(self)@ == old(self)@.loaded(
                match filename {
                    Some(path) => Some(path@),
                    None => None,
                },
            ),
            r is Ok <==> old(self)@.load_outcome() is Ok,
            match r {
                Ok(plan) => {
                    &&& plan.commands@ == old(self)@.teardown_commands() + final(self)@.build_commands()
                    &&& plan.callback == AttachCallback::waiting_for(
                        (old(self)@.next_id + 2) as UnitId,
                    )
                },
                Err(e) => old(self)@.load_outcome() == Err::<(), BuildError>(e),
            },
    {
        let mut commands: Vec<Command> = Vec::new();
        self.teardown(&mut commands);
        assert(commands@ =~= old(self)@.teardown_commands());
        if self.next_id > u64::MAX - SOURCE_IDS {
            return Err(BuildError::Exhausted);
        }
        let base = self.next_id;
        let source = Unit { id: base, kind: UnitKind::FileSource };
        let demux = Unit { id: base + 1, kind: UnitKind::Demux };
        let sub = match build_fanout(self.gtksink, base + 2) {
            Ok(sub) => sub,
            Err(e) => {
                return Err(e);
            },
        };
        let feed = Connection { src: base, port: 0, dst: base + 1 };
        commands.push(Command::Create(source));
        commands.push(Command::Create(demux));
        let mut steps = assembly(&sub, self.gtksink.id);
        commands.append(&mut steps);
        commands.push(Command::Insert { container: Container::Graph, member: source });
        commands.push(Command::Insert { container: Container::Graph, member: demux });
        commands.push(Command::Insert { container: Container::Graph, member: sub.as_unit() });
        commands.push(Command::Link(feed));
        commands.push(Command::Watch { unit: demux.id });

        let added = self.pipeline.add_unit(source);
        assert(added is Ok);
        proof {
            assert(self.pipeline@.graph.units[0] == source);
        }
        let added = self.pipeline.add_unit(demux);
        assert(added is Ok);
        proof {
            assert(self.pipeline@.graph.units[0] == source);
            assert(self.pipeline@.graph.units[1] == demux);
        }
        let added = self.pipeline.add_subgraph(sub);
        assert(added is Ok);
        proof {
            let g = self.pipeline@.graph;
            assert(g.units[0] == source);
            assert(g.units[1] == demux);
            g.lemma_member(0);
            g.lemma_member(1);
            g.lemma_member(2);
        }
        let linked = self.pipeline.link(base, 0, base + 1);
        assert(linked is Ok);
        self.next_id = base + SOURCE_IDS;
        self.source = Some(
            SourceRecord {
                base,
                location: match filename {
                    Some(path) => Some(path.to_owned()),
                    None => None,
                },
            },
        );
        proof {
            let g = self.pipeline@.graph;
            let s = self@.source.unwrap();
            assert(g.units =~= self@.graph().graph.units);
            assert(g.connections =~= seq![s.feed()]);
            assert(commands@ =~= old(self)@.teardown_commands() + self@.build_commands());
        }
        Ok(SourcePlan { commands, callback: AttachCallback::waiting(base + 2) })
    }

    /// Records that the real graph refused step `failed` of the plan that
    /// [`GstManager::set_video_filename`] gave. The build is given up and
    /// the dynamic region left torn down; there is no going back to the
    /// source of before. Hands back the error to report.
    pub fn source_failed(&mut self, failed: Command) -> (e: BuildError)
        requires
            old(self).wf(),
        ensures
            final(self).wf(),
            final(self)@ == old(self)@.unloaded(),
            e == build_failure(failed),
    {
        let mut unused: Vec<Command> = Vec::new();
        self.teardown(&mut unused);
        match failed {
            Command::Create(unit) => BuildError::Construction(unit),
            Command::Insert { container: _, member } => BuildError::Construction(member),
            Command::Link(c) => BuildError::Linking(c),
            Command::Expose { subgraph, target } => BuildError::Linking(
                Connection { src: subgraph, port: 0, dst: target },
            ),
            _ => BuildError::Refused(failed),
        }
    }

    /// Records the answer of the real graph to a request to play. Where
    /// it accepted, the run state is playing, the subgraph's with it;
    /// where it rejected, nothing has changed and the rejection is
    /// reported. The topology stays as it is either way.
    pub fn set_play_stream(&mut self, accepted: bool) -> (r: Result<(), StateError>)
        requires
            old(self).wf(),
        ensures
            final(self).wf(),
            final(self)@ == old(self)@.played(accepted),
            r == old(self)@.play_outcome(accepted),
    {
        if !accepted {
            return Err(StateError::Rejected(RunState::Playing));
        }
        self.pipeline.set_state(RunState::Playing);
        proof {
            assert(self@.graph().graph.units =~= old(self)@.graph().graph.units);
        }
        Ok(())
    }

    /// Records the answer of the real graph to a request to stop. Where
    /// the graph is stopped already this is no error and changes nothing,
    /// whatever the answer. Else, where it accepted, the run state is
    /// stopped, the subgraph's with it; where it rejected, nothing has
    /// changed and the rejection is reported.
    pub fn set_stop_stream(&mut self, accepted: bool) -> (r: Result<(), StateError>)
        requires
            old(self).wf(),
        ensures
            final(self).wf(),
            final(self)@ == old(self)@.stopped(accepted),
            r == old(self)@.stop_outcome(accepted),
    {
        match self.pipeline.state() {
            RunState::Stopped => {
                return Ok(());
            },
            RunState::Playing => {},
        }
        if !accepted {
            return Err(StateError::Rejected(RunState::Stopped));
        }
        self.pipeline.set_state(RunState::Stopped);
        Ok(())
    }

    /// Attaches the fan-out subgraph to output port `port` of the
    /// demultiplexer: takes the subgraph out of the graph and puts it
    /// back, which undoes an earlier attachment, brings it to the graph's
    /// run state, and links the port to its input port. Hands back the
    /// commands that do the same to the real graph. Without a source
    /// nothing happens.
    pub fn attach(&mut self, port: u32) -> (commands: Vec<Command>)
        requires
            old(self).wf(),
        ensures
            final(self).wf(),
            final(self)@ == old(self)@.attached(port),
            final(self)@.graph().in_step(),
            commands@ == old(self)@.attach_commands(port),
    {
        let mut commands: Vec<Command> = Vec::new();
        let base = match &self.source {
            Some(record) => record.base,
            None => {
                return commands;
            },
        };
        let ghost s = self@.source.unwrap();
        proof {
            lemma_without_subgraph(s, s.attached);
            let g = self.pipeline@.graph;
            g.lemma_member(0);
            g.lemma_member(1);
            g.lemma_member(2);
        }
        let sub = match self.pipeline.remove_subgraph(base + 2) {
            Some(sub) => sub,
            None => {
                return commands;
            },
        };
        proof {
            let g = self.pipeline@.graph;
            assert(g.units =~= seq![s.source(), s.demux()]);
        }
        let unit = sub.as_unit();
        let added = self.pipeline.add_subgraph(sub);
        assert(added is Ok);
        self.pipeline.sync_subgraph();
        proof {
            let g = self.pipeline@.graph;
            assert(g.units =~= seq![s.source(), s.demux(), unit]);
            g.lemma_member(0);
            g.lemma_member(1);
            g.lemma_member(2);
        }
        let linked = self.pipeline.link(base + 1, port, base + 2);
        assert(linked is Ok);
        proof {
            let g = self.pipeline@.graph;
            assert(g.connections =~= seq![s.feed(), s.attachment(port)]);
        }
        commands.push(Command::Remove { container: Container::Graph, unit: base + 2 });
        commands.push(Command::Insert { container: Container::Graph, member: unit });
        commands.push(Command::SyncState { unit: base + 2 });
        commands.push(
            Command::Link(Connection { src: base + 1, port, dst: base + 2 }),
        );
        assert(commands@ =~= old(self)@.attach_commands(port));
        commands
    }

    /// Undoes the attachment of the subgraph to the demultiplexer: the
    /// link that the real graph did not make. The subgraph stays a member.
    pub fn detach(&mut self)
        requires
            old(self).wf(),
        ensures
            final(self).wf(),
            final(self)@ == old(self)@.detached(),
    {
        let base = match &self.source {
            Some(record) => record.base,
            None => {
                return ;
            },
        };
        let ghost s = self@.source.unwrap();
        proof {
            lemma_without_subgraph(s, s.attached);
            let g = self.pipeline@.graph;
            g.lemma_member(0);
            g.lemma_member(1);
            g.lemma_member(2);
        }
        let sub = match self.pipeline.remove_subgraph(base + 2) {
            Some(sub) => sub,
            None => {
                return ;
            },
        };
        proof {
            let g = self.pipeline@.graph;
            assert(g.units =~= seq![s.source(), s.demux()]);
        }
        let ghost unit = sub@.as_unit();
        let added = self.pipeline.add_subgraph(sub);
        assert(added is Ok);
        proof {
            let g = self.pipeline@.graph;
            assert(g.units =~= seq![s.source(), s.demux(), unit]);
        }
    }
}

} // verus!
