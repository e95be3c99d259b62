//! The stage: what the commands do to a graph that follows the rules.
//!
//! A stage holds the top-level graph, the one subgraph that may stand
//! outside it, and the identifiers of the units that exist. Performing a
//! command changes the stage as the rules of the graphs allow, or is
//! refused. The laws of this module say that the commands which the
//! manager issues are never refused and leave the stage as the manager
//! describes it: every unit created is put into a container or given up,
//! and none is put into two.

use crate::command::{create, expose, insert_into, link, other_than, Command, Container};
use crate::fanout::{
    fanout, fanout_check, fanout_connections, fanout_units, lemma_add_refused, lemma_all_added,
    lemma_all_linked, lemma_fanout_members, lemma_fanout_positions, lemma_fanout_wf,
    lemma_link_outcome, lemma_partly_added_wf, lemma_partly_linked_wf, partly_added,
    partly_linked, splitter,
};
use crate::graph::GraphView;
use crate::laws::law_graph_wf;
use crate::manager::{lemma_without_subgraph, ManagerView, SourceView, SOURCE_IDS};
use crate::pipeline::PipelineView;
use crate::subgraph::SubgraphView;
use crate::unit::{Connection, RunState, Unit, UnitId, UnitKind};
use vstd::prelude::*;

verus! {

/// Holds of the identifiers other than `id`.
pub open spec fn apart_from(id: UnitId) -> spec_fn(UnitId) -> bool {
    |other: UnitId| other != id
}

impl SubgraphView {
    /// The subgraph without the member `id`, without the connections that
    /// touch it and without the ports that forward to it.
    pub open spec fn without(self, id: UnitId) -> SubgraphView {
        SubgraphView {
            graph: self.graph.remove(id),
            inputs: self.inputs.filter(apart_from(id)),
            ..self
        }
    }
}

/// A graph under the hands of the driver.
pub struct Stage {
    /// The top-level graph.
    pub graph: PipelineView,
    /// The subgraph that stands outside the top-level graph: one that is
    /// being assembled, or one that was taken out.
    pub bench: Option<SubgraphView>,
    /// The identifiers of the units that exist.
    pub live: Set<UnitId>,
}

impl Stage {
    /// The stage that a manager describes: its graph, nothing beside it,
    /// and as units the display sink and those of the loaded source.
    pub open spec fn of(m: ManagerView) -> Stage {
        Stage {
            graph: m.graph(),
            bench: None,
            live: Set::new(
                |id: UnitId|
                    id == m.display.id || (m.source matches Some(s) && s.base <= id < s.base
                        + SOURCE_IDS),
            ),
        }
    }

    /// Whether the unit `id` is a member of a container.
    pub open spec fn housed(self, id: UnitId) -> bool {
        ||| self.graph.graph.contains(id)
        ||| self.graph.subgraph matches Some(s) && s.graph.contains(id)
        ||| self.bench matches Some(b) && b.graph.contains(id)
    }

    /// Whether the unit `id` exists and is a member of no container.
    pub open spec fn loose(self, id: UnitId) -> bool {
        self.live.contains(id) && !self.housed(id)
    }

    /// The stage after `command`, or `None` where the command is refused.
    ///
    /// A unit is created under an identifier that no unit has; a new
    /// subgraph stands on the bench, which must be free. A unit is put
    /// into a container only while it is loose, the subgraph into the
    /// top-level graph only from the bench. Taking a unit out makes it
    /// loose, taking the subgraph out puts it on the bench. A link is made
    /// in the container that holds its source. Giving up a unit needs it
    /// loose; giving up the subgraph on the bench gives up its members.
    pub open spec fn perform(self, command: Command) -> Option<Stage> {
        match command {
            Command::Create(unit) => {
                if self.live.contains(unit.id) {
                    None
                } else if unit.kind == UnitKind::Subgraph {
                    if self.bench is None {
                        Some(
                            Stage {
                                bench: Some(SubgraphView::empty(unit.id)),
                                live: self.live.insert(unit.id),
                                ..self
                            },
                        )
                    } else {
                        None
                    }
                } else {
                    Some(Stage { live: self.live.insert(unit.id), ..self })
                }
            },
            Command::Insert { container: Container::Graph, member } => {
                if member.kind == UnitKind::Subgraph {
                    match self.bench {
                        Some(b) => if b.as_unit() == member && self.graph.add_subgraph_check(b.id)
                            is Ok {
                            Some(Stage { graph: self.graph.add_subgraph(b), bench: None, ..self })
                        } else {
                            None
                        },
                        None => None,
                    }
                } else if self.loose(member.id) && self.graph.add_unit_check(member) is Ok {
                    Some(Stage { graph: self.graph.add_unit(member), ..self })
                } else {
                    None
                }
            },
            Command::Insert { container: Container::Subgraph(id), member } => {
                match self.bench {
                    Some(b) => if b.id == id && member.kind != UnitKind::Subgraph && self.loose(
                        member.id,
                    ) && b.add_check(member) is Ok {
                        Some(Stage { bench: Some(b.add(member)), ..self })
                    } else {
                        None
                    },
                    None => None,
                }
            },
            Command::Remove { container: Container::Graph, unit } => {
                if self.graph.holds_subgraph(unit) {
                    if self.bench is None {
                        Some(
                            Stage {
                                graph: self.graph.remove_subgraph(unit),
                                bench: self.graph.subgraph,
                                ..self
                            },
                        )
                    } else {
                        None
                    }
                } else if self.graph.graph.contains(unit) {
                    Some(Stage { graph: self.graph.remove_unit(unit), ..self })
                } else {
                    None
                }
            },
            Command::Remove { container: Container::Subgraph(id), unit } => {
                match self.bench {
                    Some(b) => if b.id == id && b.graph.contains(unit) {
                        Some(Stage { bench: Some(b.without(unit)), ..self })
                    } else {
                        None
                    },
                    None => None,
                }
            },
            Command::Link(c) => {
                if self.bench matches Some(b) && b.graph.contains(c.src) {
                    let b = self.bench.unwrap();
                    if b.link_check(c.src, c.port, c.dst) is Ok {
                        Some(Stage { bench: Some(b.link(c)), ..self })
                    } else {
                        None
                    }
                } else if self.graph.link_check(c.src, c.port, c.dst) is Ok {
                    Some(Stage { graph: self.graph.link(c), ..self })
                } else {
                    None
                }
            },
            Command::Expose { subgraph, target } => {
                match self.bench {
                    Some(b) => if b.id == subgraph && b.expose_check(target) is Ok {
                        Some(Stage { bench: Some(b.expose(target)), ..self })
                    } else {
                        None
                    },
                    None => None,
                }
            },
            Command::Watch { unit } => {
                if self.graph.graph.contains(unit) && self.graph.graph.unit(unit).kind
                    == UnitKind::Demux {
                    Some(self)
                } else {
                    None
                }
            },
            Command::SyncState { unit } => {
                if self.graph.holds_subgraph(unit) {
                    Some(Stage { graph: self.graph.synced(), ..self })
                } else {
                    None
                }
            },
            Command::Dispose { unit } => {
                if self.bench matches Some(b) && b.id == unit {
                    let b = self.bench.unwrap();
                    Some(
                        Stage {
                            bench: None,
                            live: Set::new(
                                |id: UnitId|
                                    self.live.contains(id) && id != unit && !b.graph.contains(id),
                            ),
                            ..self
                        },
                    )
                } else if self.loose(unit) {
                    Some(Stage { live: self.live.remove(unit), ..self })
                } else {
                    None
                }
            },
        }
    }

    /// The stage after the commands, performed in order, or `None` where
    /// one of them is refused.
    pub open spec fn perform_all(self, commands: Seq<Command>) -> Option<Stage>
        decreases commands.len(),
    {
        if commands.len() == 0 {
            Some(self)
        } else {
            match self.perform_all(commands.drop_last()) {
                Some(stage) => stage.perform(commands.last()),
                None => None,
            }
        }
    }

    /// Performing one command more.
    pub proof fn lemma_perform_push(self, commands: Seq<Command>, command: Command)
        ensures
            self.perform_all(commands.push(command)) == match self.perform_all(commands) {
                Some(stage) => stage.perform(command),
                None => None,
            },
    {
        assert(commands.push(command).drop_last() =~= commands);
    }

    /// Performing two runs of commands one after the other.
    pub proof fn lemma_perform_concat(self, first: Seq<Command>, second: Seq<Command>)
        ensures
            self.perform_all(first + second) == match self.perform_all(first) {
                Some(stage) => stage.perform_all(second),
                None => None,
            },
        decreases second.len(),
    {
        if second.len() == 0 {
            assert(first + second =~= first);
        } else {
            self.lemma_perform_concat(first, second.drop_last());
            assert((first + second).drop_last() =~= first + second.drop_last());
        }
    }
}

/// The commands of an attachment are performed without a refusal and
/// leave the stage as the manager describes it after the attachment: the
/// subgraph is a member again, in the run state of the graph, and fed
/// from the port; no unit was made or given up.
pub proof fn law_attach_performs(m: ManagerView, port: u32)
    requires
        m.wf(),
    ensures
        Stage::of(m).perform_all(m.attach_commands(port)) == Some(Stage::of(m.attached(port))),
{
    let start = Stage::of(m);
    let none = Seq::<Command>::empty();
    match m.source {
        None => {
            assert(m.attach_commands(port) =~= none);
        },
        Some(s) => {
            law_graph_wf(m);
            lemma_without_subgraph(s, s.attached);
            let sub = Unit { id: s.subgraph(), kind: UnitKind::Subgraph };
            let branches = fanout(m.display, s.subgraph()).with_state(s.branch_state);
            let take_out = Command::Remove { container: Container::Graph, unit: s.subgraph() };
            let put_back = Command::Insert { container: Container::Graph, member: sub };
            let sync = Command::SyncState { unit: s.subgraph() };
            let link = Command::Link(s.attachment(port));
            assert(m.attach_commands(port) =~= none.push(take_out).push(put_back).push(sync).push(
                link,
            ));
            start.lemma_perform_push(none, take_out);
            start.lemma_perform_push(none.push(take_out), put_back);
            start.lemma_perform_push(none.push(take_out).push(put_back), sync);
            start.lemma_perform_push(none.push(take_out).push(put_back).push(sync), link);

            let g0 = m.graph();
            g0.graph.lemma_member(2);
            let bare = GraphView { units: seq![s.source(), s.demux()], connections: seq![s.feed()] };
            assert(g0.graph.remove(s.subgraph()).units =~= bare.units);
            let taken = Stage {
                graph: PipelineView { graph: bare, subgraph: None, state: m.state },
                bench: Some(branches),
                live: start.live,
            };
            assert(start.perform(take_out) == Some(taken));

            let whole = GraphView { units: seq![s.source(), s.demux(), sub], ..bare };
            assert(bare.add(sub).units =~= whole.units);
            let back = Stage {
                graph: PipelineView { graph: whole, subgraph: Some(branches), state: m.state },
                bench: None,
                live: start.live,
            };
            assert(taken.perform(put_back) == Some(back));

            let synced = Stage {
                graph: PipelineView {
                    graph: whole,
                    subgraph: Some(branches.with_state(m.state)),
                    state: m.state,
                },
                ..back
            };
            assert(back.perform(sync) == Some(synced));

            whole.lemma_member(0);
            whole.lemma_member(1);
            whole.lemma_member(2);
            let c = s.attachment(port);
            assert(synced.graph.link_check(c.src, c.port, c.dst) is Ok);
            assert(whole.link(c).connections =~= seq![s.feed(), c]);
            let end = Stage::of(m.attached(port));
            assert(end.live =~= start.live);
            assert(end.graph.graph.connections =~= whole.link(c).connections);
            assert(synced.perform(link) == Some(end));
        },
    }
}

/// An empty top-level graph in run state `state`.
pub open spec fn vacant(state: RunState) -> PipelineView {
    PipelineView { graph: GraphView::empty(), subgraph: None, state }
}

/// The identifiers of `live` and the first `n` from `base` on.
pub open spec fn grown(live: Set<UnitId>, base: UnitId, n: int) -> Set<UnitId> {
    Set::new(|id: UnitId| live.contains(id) || base <= id < base + n)
}

/// The stage while the fan-out with identifier `base` is assembled beside
/// an empty graph: `bench` is what stands of it, and `made` of its
/// identifiers are in use.
pub open spec fn assembling(
    state: RunState,
    live: Set<UnitId>,
    base: UnitId,
    bench: SubgraphView,
    made: int,
) -> Stage {
    Stage { graph: vacant(state), bench: Some(bench), live: grown(live, base, made) }
}

/// What the assembly of a fan-out starts from: its identifiers fit and
/// are free, and the display sink exists, is no subgraph, can be linked
/// to, and has an identifier of its own.
pub open spec fn ready(display: Unit, base: UnitId, live: Set<UnitId>) -> bool {
    &&& fanout_check(display, base) is Ok
    &&& display.kind != UnitKind::Subgraph
    &&& live.contains(display.id)
    &&& forall|id: UnitId| base <= id <= base + 13 ==> !live.contains(id)
}

/// The units that are created for a fan-out are all but the display sink.
proof fn lemma_created_units(display: Unit, base: UnitId, i: int)
    requires
        fanout_check(display, base) is Ok,
        0 <= i <= 14,
    ensures
        fanout_units(display, base).take(i).filter(other_than(display.id)) == if i <= 4 {
            fanout_units(display, base).take(i)
        } else {
            fanout_units(display, base).take(i).remove(4)
        },
    decreases i,
{
    lemma_fanout_positions(display, base);
    let units = fanout_units(display, base);
    let keep = other_than(display.id);
    if i == 0 {
        units.take(0).lemma_filter_len(keep);
        assert(units.take(0).filter(keep) =~= units.take(0));
    } else {
        lemma_created_units(display, base, i - 1);
        let unit = units[i - 1];
        assert(units.take(i) =~= units.take(i - 1).push(unit));
        units.take(i - 1).lemma_filter_push(unit, keep);
        if i - 1 == 4 {
            assert(units.take(5).remove(4) =~= units.take(4));
        } else if i - 1 > 4 {
            assert(units.take(i - 1).remove(4).push(unit) =~= units.take(i).remove(4));
        }
    }
}

/// Creating the new units of a fan-out takes their identifiers into use.
proof fn lemma_creates_perform(
    display: Unit,
    base: UnitId,
    state: RunState,
    live: Set<UnitId>,
    i: int,
)
    requires
        ready(display, base, live),
        0 <= i <= 13,
    ensures
        assembling(state, live, base, SubgraphView::empty(base), 1).perform_all(
            fanout_units(display, base).filter(other_than(display.id)).map_values(create()).take(i),
        ) == Some(assembling(state, live, base, SubgraphView::empty(base), 1 + i)),
    decreases i,
{
    lemma_fanout_positions(display, base);
    lemma_created_units(display, base, 14);
    let units = fanout_units(display, base);
    assert(units.take(14) =~= units);
    let creates = units.filter(other_than(display.id)).map_values(create());
    let start = assembling(state, live, base, SubgraphView::empty(base), 1);
    if i == 0 {
        assert(creates.take(0) =~= Seq::<Command>::empty());
    } else {
        lemma_creates_perform(display, base, state, live, i - 1);
        let before = assembling(state, live, base, SubgraphView::empty(base), i);
        let after = assembling(state, live, base, SubgraphView::empty(base), 1 + i);
        let unit = units.remove(4)[i - 1];
        assert(unit == units[if i - 1 < 4 {
            i - 1
        } else {
            i
        }]);
        assert(unit.id == base + i);
        assert(creates[i - 1] == Command::Create(unit));
        assert(creates.take(i) =~= creates.take(i - 1).push(creates[i - 1]));
        start.lemma_perform_push(creates.take(i - 1), creates[i - 1]);
        assert(before.live.insert(unit.id) =~= after.live);
        assert(before.perform(creates[i - 1]) == Some(after));
    }
}

/// Putting the units of a fan-out into its container adds them one by one.
proof fn lemma_inserts_perform(
    display: Unit,
    base: UnitId,
    state: RunState,
    live: Set<UnitId>,
    i: int,
)
    requires
        ready(display, base, live),
        0 <= i <= 14,
    ensures
        assembling(state, live, base, partly_added(display, base, 0), 14).perform_all(
            fanout_units(display, base).map_values(insert_into(Container::Subgraph(base))).take(i),
        ) == Some(assembling(state, live, base, partly_added(display, base, i), 14)),
    decreases i,
{
    lemma_fanout_positions(display, base);
    let units = fanout_units(display, base);
    let inserts = units.map_values(insert_into(Container::Subgraph(base)));
    let start = assembling(state, live, base, partly_added(display, base, 0), 14);
    if i == 0 {
        assert(inserts.take(0) =~= Seq::<Command>::empty());
    } else {
        lemma_inserts_perform(display, base, state, live, i - 1);
        let bench = partly_added(display, base, i - 1);
        let before = assembling(state, live, base, bench, 14);
        let after = assembling(state, live, base, partly_added(display, base, i), 14);
        let unit = units[i - 1];
        assert(inserts[i - 1] == Command::Insert {
            container: Container::Subgraph(base),
            member: unit,
        });
        assert(inserts.take(i) =~= inserts.take(i - 1).push(inserts[i - 1]));
        start.lemma_perform_push(inserts.take(i - 1), inserts[i - 1]);
        assert(bench.wf()) by {
            lemma_partly_added_wf(display, base, i - 1);
        }
        assert(bench.add_check(unit) is Ok) by {
            if bench.add_check(unit) is Err {
                lemma_add_refused(display, base, i - 1);
            }
        }
        assert(bench.add(unit) == partly_added(display, base, i)) by {
            assert(units.take(i) =~= units.take(i - 1).push(unit));
        }
        assert(before.loose(unit.id)) by {
            assert(!GraphView::empty().contains(unit.id));
        }
        assert(unit.kind != UnitKind::Subgraph);
        assert(before.perform(inserts[i - 1]) == Some(after));
    }
}

/// Making the connections of a fan-out links its units one by one.
proof fn lemma_links_perform(
    display: Unit,
    base: UnitId,
    state: RunState,
    live: Set<UnitId>,
    k: int,
)
    requires
        ready(display, base, live),
        0 <= k <= 13,
    ensures
        assembling(state, live, base, partly_linked(display, base, 0), 14).perform_all(
            fanout_connections(display, base).map_values(link()).take(k),
        ) == Some(assembling(state, live, base, partly_linked(display, base, k), 14)),
    decreases k,
{
    lemma_fanout_positions(display, base);
    let connections = fanout_connections(display, base);
    let links = connections.map_values(link());
    let start = assembling(state, live, base, partly_linked(display, base, 0), 14);
    if k == 0 {
        assert(links.take(0) =~= Seq::<Command>::empty());
    } else {
        lemma_links_perform(display, base, state, live, k - 1);
        let bench = partly_linked(display, base, k - 1);
        let before = assembling(state, live, base, bench, 14);
        let after = assembling(state, live, base, partly_linked(display, base, k), 14);
        let c = connections[k - 1];
        assert(links[k - 1] == Command::Link(c));
        assert(links.take(k) =~= links.take(k - 1).push(links[k - 1]));
        start.lemma_perform_push(links.take(k - 1), links[k - 1]);
        assert(bench.wf()) by {
            lemma_partly_linked_wf(display, base, k - 1);
        }
        assert(bench.link_check(c.src, c.port, c.dst) is Ok) by {
            lemma_link_outcome(display, base, k - 1);
        }
        assert(bench.graph.contains(c.src));
        assert(bench.link(c) == partly_linked(display, base, k)) by {
            assert(connections.take(k) =~= connections.take(k - 1).push(c));
        }
        assert(before.perform(links[k - 1]) == Some(after));
    }
}

/// The commands that assemble a fan-out are performed without a refusal
/// beside an empty graph: they take the identifiers of the fan-out into
/// use and leave the whole fan-out on the bench.
pub proof fn lemma_assembly_performs(
    display: Unit,
    base: UnitId,
    state: RunState,
    live: Set<UnitId>,
)
    requires
        ready(display, base, live),
    ensures
        (Stage { graph: vacant(state), bench: None, live }).perform_all(
            fanout(display, base).assembly(display.id),
        ) == Some(assembling(state, live, base, fanout(display, base), 14)),
{
    let whole = fanout(display, base);
    let units = fanout_units(display, base);
    let connections = fanout_connections(display, base);
    let start = Stage { graph: vacant(state), bench: None, live };
    let none = Seq::<Command>::empty();
    let open = seq![Command::Create(whole.as_unit())];
    let creates = units.filter(other_than(display.id)).map_values(create());
    let inserts = units.map_values(insert_into(Container::Subgraph(base)));
    let links = connections.map_values(link());
    let exposes = whole.inputs.map_values(expose(base));
    assert(whole.assembly(display.id) == open + creates + inserts + links + exposes);
    lemma_fanout_positions(display, base);

    let opened = assembling(state, live, base, SubgraphView::empty(base), 1);
    assert(start.perform_all(open) == Some(opened)) by {
        assert(open =~= none.push(open[0]));
        start.lemma_perform_push(none, open[0]);
        assert(live.insert(base) =~= opened.live);
    }
    let created = assembling(state, live, base, SubgraphView::empty(base), 14);
    assert(opened.perform_all(creates) == Some(created)) by {
        lemma_created_units(display, base, 14);
        assert(units.take(14) =~= units);
        assert(creates.take(13) =~= creates);
        lemma_creates_perform(display, base, state, live, 13);
    }
    assert(partly_added(display, base, 0) == SubgraphView::empty(base)) by {
        assert(units.take(0) =~= Seq::<Unit>::empty());
    }
    let added = assembling(state, live, base, partly_added(display, base, 14), 14);
    assert(created.perform_all(inserts) == Some(added)) by {
        assert(inserts.take(14) =~= inserts);
        lemma_inserts_perform(display, base, state, live, 14);
    }
    assert(partly_linked(display, base, 0) == partly_added(display, base, 14)) by {
        lemma_partly_added_wf(display, base, 14);
        lemma_all_added(display, base);
    }
    let linked = assembling(state, live, base, partly_linked(display, base, 13), 14);
    assert(added.perform_all(links) == Some(linked)) by {
        assert(links.take(13) =~= links);
        lemma_links_perform(display, base, state, live, 13);
    }
    let end = assembling(state, live, base, whole, 14);
    assert(linked.perform_all(exposes) == Some(end)) by {
        lemma_partly_linked_wf(display, base, 13);
        lemma_all_linked(display, base);
        let port = Command::Expose { subgraph: base, target: splitter(base).id };
        assert(exposes =~= none.push(port));
        linked.lemma_perform_push(none, port);
    }
    start.lemma_perform_concat(open, creates);
    start.lemma_perform_concat(open + creates, inserts);
    start.lemma_perform_concat(open + creates + inserts, links);
    start.lemma_perform_concat(open + creates + inserts + links, exposes);
}

/// The region of a loaded source, taken out of the graph member by
/// member.
pub open spec fn removals(s: SourceView) -> Seq<Command> {
    seq![
        Command::Remove { container: Container::Graph, unit: s.base },
        Command::Remove { container: Container::Graph, unit: s.demux().id },
        Command::Remove { container: Container::Graph, unit: s.subgraph() },
    ]
}

/// The display sink taken out of the subgraph on the bench, and the
/// region given up.
pub open spec fn disposals(s: SourceView, display: UnitId) -> Seq<Command> {
    seq![
        Command::Remove { container: Container::Subgraph(s.subgraph()), unit: display },
        Command::Dispose { unit: s.base },
        Command::Dispose { unit: s.demux().id },
        Command::Dispose { unit: s.subgraph() },
    ]
}

/// The stage between the two halves of a teardown: the graph is empty,
/// the subgraph stands on the bench.
pub open spec fn cleared(m: ManagerView) -> Stage {
    Stage {
        graph: m.unloaded().graph(),
        bench: match m.source {
            Some(s) => Some(fanout(m.display, s.subgraph()).with_state(s.branch_state)),
            None => None,
        },
        live: Stage::of(m).live,
    }
}

/// Taking the three members out leaves the graph empty and the subgraph
/// on the bench.
proof fn lemma_removals_perform(m: ManagerView)
    requires
        m.wf(),
        m.source is Some,
    ensures
        Stage::of(m).perform_all(removals(m.source.unwrap())) == Some(cleared(m)),
{
    let s = m.source.unwrap();
    let start = Stage::of(m);
    let none = Seq::<Command>::empty();
    let r0 = Command::Remove { container: Container::Graph, unit: s.base };
    let r1 = Command::Remove { container: Container::Graph, unit: s.demux().id };
    let r2 = Command::Remove { container: Container::Graph, unit: s.subgraph() };
    assert(removals(s) =~= none.push(r0).push(r1).push(r2));
    start.lemma_perform_push(none, r0);
    start.lemma_perform_push(none.push(r0), r1);
    start.lemma_perform_push(none.push(r0).push(r1), r2);
    let g0 = m.graph();
    let g1 = g0.remove_unit(s.base);
    let g2 = g1.remove_unit(s.demux().id);
    let g3 = g2.remove_subgraph(s.subgraph());
    assert(g0.wf()) by {
        law_graph_wf(m);
    }
    assert(g1.wf() && g1.graph.units =~= seq![s.demux(), g0.graph.units[2]] && g1.subgraph
        == g0.subgraph && g1.state == g0.state) by {
        g0.graph.lemma_member(0);
        g0.lemma_remove_wf(s.base);
    }
    assert(g2.wf() && g2.graph.units =~= seq![g0.graph.units[2]] && g2.subgraph == g0.subgraph
        && g2.state == g0.state) by {
        g1.graph.lemma_member(0);
        g1.lemma_remove_wf(s.demux().id);
    }
    assert(g3 == cleared(m).graph) by {
        g2.graph.lemma_member(0);
        g2.lemma_remove_wf(s.subgraph());
        assert(g3.graph.units =~= Seq::<Unit>::empty());
        if g3.graph.connections.len() > 0 {
            assert(g3.graph.joins_members(g3.graph.connections[0]));
        }
        assert(g3.graph.connections =~= Seq::<Connection>::empty());
    }
    let st1 = Stage { graph: g1, ..start };
    let st2 = Stage { graph: g2, ..start };
    assert(start.perform(r0) == Some(st1)) by {
        assert(g0.graph.units[0].id == s.base);
    }
    assert(st1.perform(r1) == Some(st2)) by {
        assert(g1.graph.units[0].id == s.demux().id);
    }
    assert(st2.perform(r2) == Some(cleared(m)));
}

/// Freeing the display sink and giving the region up leaves the display
/// sink as the only unit.
proof fn lemma_disposals_perform(m: ManagerView)
    requires
        m.wf(),
        m.source is Some,
    ensures
        cleared(m).perform_all(disposals(m.source.unwrap(), m.display.id)) == Some(
            Stage::of(m.unloaded()),
        ),
{
    let s = m.source.unwrap();
    let d = m.display.id;
    let start = cleared(m);
    let end = Stage::of(m.unloaded());
    let none = Seq::<Command>::empty();
    let r3 = Command::Remove { container: Container::Subgraph(s.subgraph()), unit: d };
    let d0 = Command::Dispose { unit: s.base };
    let d1 = Command::Dispose { unit: s.demux().id };
    let d2 = Command::Dispose { unit: s.subgraph() };
    assert(disposals(s, d) =~= none.push(r3).push(d0).push(d1).push(d2));
    start.lemma_perform_push(none, r3);
    start.lemma_perform_push(none.push(r3), d0);
    start.lemma_perform_push(none.push(r3).push(d0), d1);
    start.lemma_perform_push(none.push(r3).push(d0).push(d1), d2);
    let branches = start.bench.unwrap();
    let rest = branches.without(d);
    assert forall|id: UnitId| rest.graph.contains(id) <==> s.subgraph() + 1 <= id <= s.subgraph()
        + 13 by {
        let whole = fanout(m.display, s.subgraph()).graph;
        assert(branches.graph == whole);
        assert(rest.graph == whole.remove(d));
        lemma_fanout_members(m.display, s.subgraph());
        lemma_fanout_wf(m.display, s.subgraph());
        whole.lemma_remove_wf(d);
        if id != d {
            assert(whole.remove(d).contains(id) <==> whole.contains(id));
        }
    }
    assert(branches.graph.contains(d)) by {
        lemma_fanout_members(m.display, s.subgraph());
    }
    assert(!GraphView::empty().contains(s.base) && !GraphView::empty().contains(s.demux().id));
    let st4 = Stage { bench: Some(rest), ..start };
    let st5 = Stage { live: start.live.remove(s.base), ..st4 };
    let st6 = Stage { live: st5.live.remove(s.demux().id), ..st5 };
    assert(start.perform(r3) == Some(st4));
    assert(st4.perform(d0) == Some(st5));
    assert(st5.perform(d1) == Some(st6));
    assert(st6.perform(d2).unwrap().live =~= end.live);
    assert(st6.perform(d2) == Some(end));
}

/// The commands of a teardown are performed without a refusal and leave
/// the stage as the manager describes it without a source: the graph is
/// empty, nothing stands beside it, and of all units only the display
/// sink is left, loose, for the next source.
pub proof fn law_teardown_performs(m: ManagerView)
    requires
        m.wf(),
    ensures
        Stage::of(m).perform_all(m.teardown_commands()) == Some(Stage::of(m.unloaded())),
        Stage::of(m.unloaded()).loose(m.display.id),
{
    assert(!GraphView::empty().contains(m.display.id));
    match m.source {
        None => {
            assert(m.teardown_commands() =~= Seq::<Command>::empty());
            assert(m.unloaded() == m);
        },
        Some(s) => {
            lemma_removals_perform(m);
            lemma_disposals_perform(m);
            assert(m.teardown_commands() =~= removals(s) + disposals(s, m.display.id));
            Stage::of(m).lemma_perform_concat(removals(s), disposals(s, m.display.id));
        },
    }
}

/// The commands that create the file source and the demultiplexer.
pub open spec fn opening(s: SourceView) -> Seq<Command> {
    seq![Command::Create(s.source()), Command::Create(s.demux())]
}

/// The commands that put the region into the graph, link the file source
/// to the demultiplexer and install the callback.
pub open spec fn closing(s: SourceView) -> Seq<Command> {
    seq![
        Command::Insert { container: Container::Graph, member: s.source() },
        Command::Insert { container: Container::Graph, member: s.demux() },
        Command::Insert {
            container: Container::Graph,
            member: Unit { id: s.subgraph(), kind: UnitKind::Subgraph },
        },
        Command::Link(s.feed()),
        Command::Watch { unit: s.demux().id },
    ]
}

/// The identifiers in use once file source and demultiplexer are created.
pub open spec fn opened(m: ManagerView) -> Set<UnitId> {
    grown(Stage::of(m.unloaded()).live, m.next_id, 2)
}

/// With the fan-out on the bench, the last commands of a build put the
/// region into the graph and leave nothing beside it.
proof fn lemma_closing_performs(m: ManagerView, location: Option<Seq<char>>)
    requires
        m.wf(),
        m.has_room(),
    ensures
        ({
            let s = m.loaded(location).source.unwrap();
            assembling(
                m.state,
                opened(m),
                s.subgraph(),
                fanout(m.display, s.subgraph()),
                14,
            ).perform_all(closing(s)) == Some(Stage::of(m.loaded(location)))
        }),
{
    let after = m.loaded(location);
    let s = after.source.unwrap();
    let whole = fanout(m.display, s.subgraph());
    let start = assembling(m.state, opened(m), s.subgraph(), whole, 14);
    let end = Stage::of(after);
    let none = Seq::<Command>::empty();
    let sub = Unit { id: s.subgraph(), kind: UnitKind::Subgraph };
    let c0 = Command::Insert { container: Container::Graph, member: s.source() };
    let c1 = Command::Insert { container: Container::Graph, member: s.demux() };
    let c2 = Command::Insert { container: Container::Graph, member: sub };
    let c3 = Command::Link(s.feed());
    let c4 = Command::Watch { unit: s.demux().id };
    assert(closing(s) =~= none.push(c0).push(c1).push(c2).push(c3).push(c4));
    start.lemma_perform_push(none, c0);
    start.lemma_perform_push(none.push(c0), c1);
    start.lemma_perform_push(none.push(c0).push(c1), c2);
    start.lemma_perform_push(none.push(c0).push(c1).push(c2), c3);
    start.lemma_perform_push(none.push(c0).push(c1).push(c2).push(c3), c4);
    assert(start.live =~= end.live);
    assert(!whole.graph.contains(s.base) && !whole.graph.contains(s.demux().id)) by {
        lemma_fanout_members(m.display, s.subgraph());
    }
    let g0 = vacant(m.state);
    let g1 = g0.add_unit(s.source());
    let g2 = g1.add_unit(s.demux());
    let g3 = g2.add_subgraph(whole);
    let g4 = g3.link(s.feed());
    assert(g1.graph.units =~= seq![s.source()]);
    assert(g2.graph.units =~= seq![s.source(), s.demux()]);
    assert(g3.graph.units =~= seq![s.source(), s.demux(), sub]);
    assert(g4.graph.connections =~= seq![s.feed()]);
    assert(g4 == end.graph);
    let st1 = Stage { graph: g1, ..start };
    let st2 = Stage { graph: g2, ..start };
    let st3 = Stage { graph: g3, bench: None, ..start };
    assert(start.perform(c0) == Some(st1)) by {
        assert(!g0.graph.contains(s.base));
    }
    assert(st1.perform(c1) == Some(st2)) by {
        assert(!g1.graph.contains(s.demux().id));
    }
    assert(st2.perform(c2) == Some(st3)) by {
        assert(!g2.graph.contains(s.subgraph()));
    }
    assert(st3.perform(c3) == Some(end)) by {
        g3.graph.lemma_member(0);
        g3.graph.lemma_member(1);
        g3.graph.lemma_member(2);
        assert(g3.link_check(s.base, 0, s.demux().id) is Ok);
    }
    assert(end.perform(c4) == Some(end)) by {
        end.graph.graph.lemma_member(1);
    }
}

/// The commands of a build are performed without a refusal on a stage
/// without a source, and leave it as the manager describes it with the
/// new source: every unit that was created is a member of the graph or
/// of its subgraph, the display sink is a member of the new subgraph,
/// and the bench is free.
pub proof fn law_build_performs(m: ManagerView, location: Option<Seq<char>>)
    requires
        m.wf(),
        m.has_room(),
    ensures
        Stage::of(m.unloaded()).perform_all(m.loaded(location).build_commands()) == Some(
            Stage::of(m.loaded(location)),
        ),
{
    let after = m.loaded(location);
    let s = after.source.unwrap();
    let whole = fanout(m.display, s.subgraph());
    let start = Stage::of(m.unloaded());
    let none = Seq::<Command>::empty();
    assert(after.build_commands() == opening(s) + whole.assembly(m.display.id) + closing(s));
    let bare = Stage { graph: vacant(m.state), bench: None, live: opened(m) };
    assert(start.perform_all(opening(s)) == Some(bare)) by {
        let c0 = Command::Create(s.source());
        let c1 = Command::Create(s.demux());
        assert(opening(s) =~= none.push(c0).push(c1));
        start.lemma_perform_push(none, c0);
        start.lemma_perform_push(none.push(c0), c1);
        let half = Stage { live: start.live.insert(s.base), ..start };
        assert(start.perform(c0) == Some(half));
        assert(half.live.insert(s.demux().id) =~= bare.live);
        assert(half.perform(c1) == Some(bare));
    }
    assert(ready(m.display, s.subgraph(), opened(m)));
    lemma_assembly_performs(m.display, s.subgraph(), m.state, opened(m));
    lemma_closing_performs(m, location);
    start.lemma_perform_concat(opening(s), whole.assembly(m.display.id));
    start.lemma_perform_concat(opening(s) + whole.assembly(m.display.id), closing(s));
}

/// The plan of a load is performed without a refusal and leaves the stage
/// as the manager describes it after the load. No unit is left over from
/// the source of before, none of the new source is missing, and the
/// display sink has moved from the old subgraph to the new one.
pub proof fn law_load_performs(m: ManagerView, location: Option<Seq<char>>)
    requires
        m.wf(),
        m.has_room(),
    ensures
        Stage::of(m).perform_all(m.teardown_commands() + m.loaded(location).build_commands())
            == Some(Stage::of(m.loaded(location))),
{
    law_teardown_performs(m);
    law_build_performs(m, location);
    Stage::of(m).lemma_perform_concat(
        m.teardown_commands(),
        m.loaded(location).build_commands(),
    );
}

} // verus!
