//! What holds of the manager, of the fan-out and of the callback whatever
//! the calls and their order.

use crate::attach::{AttachCallback, CallbackState};
use crate::fanout::{
    datagram_branch, display_branch, fanout, fanout_check, lemma_fanout_positions,
    lemma_fanout_wf, splitter, stream_branch,
};
use crate::manager::ManagerView;
use crate::unit::{Connection, RunState, Unit, UnitId, UnitKind};
use vstd::prelude::*;

verus! {

/// Every transition of a manager keeps its invariant.
pub proof fn law_invariant_kept(
    m: ManagerView,
    location: Option<Seq<char>>,
    accepted: bool,
    port: u32,
)
    requires
        m.wf(),
    ensures
        ManagerView::initial().wf(),
        m.loaded(location).wf(),
        m.unloaded().wf(),
        m.played(accepted).wf(),
        m.stopped(accepted).wf(),
        m.attached(port).wf(),
        m.detached().wf(),
{
}

/// Loading a source with a path and then playing brings the graph to the
/// playing state without an error, the new subgraph with it, where the
/// real graph accepts and the manager has identifiers left.
pub proof fn law_load_then_play(m: ManagerView, path: Seq<char>)
    requires
        m.wf(),
        m.has_room(),
    ensures
        m.load_outcome() is Ok,
        m.loaded(Some(path)).play_outcome(true) is Ok,
        m.loaded(Some(path)).played(true).state == RunState::Playing,
        m.loaded(Some(path)).played(true).source matches Some(s) && s.location == Some(path)
            && s.branch_state == RunState::Playing,
{
}

/// Stopping twice in a row leaves the manager as stopping once does. After
/// a stop that the real graph accepted, a further stop changes nothing and
/// is no error, whatever the real graph answers to it.
pub proof fn law_stop_idempotent(m: ManagerView, accepted: bool, again: bool)
    requires
        m.wf(),
    ensures
        m.stopped(accepted).stopped(accepted) == m.stopped(accepted),
        m.stopped(true).stopped(again) == m.stopped(true),
        m.stopped(true).stop_outcome(again) is Ok,
        m.stopped(true).state == RunState::Stopped,
{
}

/// Playing and stopping change run states only: the units, the
/// connections and the ports of the graph and of its subgraph stay.
pub proof fn law_state_keeps_topology(m: ManagerView, accepted: bool)
    requires
        m.wf(),
    ensures
        m.played(accepted).graph().graph == m.graph().graph,
        m.stopped(accepted).graph().graph == m.graph().graph,
        m.played(accepted).source is Some <==> m.source is Some,
        m.stopped(accepted).source is Some <==> m.source is Some,
        m.source is Some ==> {
            let before = m.graph().subgraph.unwrap();
            let played = m.played(accepted).graph().subgraph.unwrap();
            let stopped = m.stopped(accepted).graph().subgraph.unwrap();
            &&& played.graph == before.graph && played.inputs == before.inputs && played.id
                == before.id
            &&& stopped.graph == before.graph && stopped.inputs == before.inputs && stopped.id
                == before.id
        },
{
}

/// The callback of a source does not resolve once another source is
/// loaded: its firing then records that the graph is gone, attaches
/// nothing and issues no command, so that the subgraph of the later
/// source never gets an attachment meant for the earlier one.
pub proof fn law_stale_callback(
    m: ManagerView,
    first: Option<Seq<char>>,
    second: Option<Seq<char>>,
)
    requires
        m.wf(),
        m.has_room(),
    ensures
        ({
            let callback = AttachCallback::waiting_for((m.next_id + 2) as UnitId);
            let later = Some(m.loaded(first).loaded(second));
            &&& callback.resolves_in(Some(m.loaded(first)))
            &&& !callback.resolves_in(later)
            &&& !callback.attaches(later)
            &&& callback.fired(later).state == CallbackState::FiredGraphGone
        }),
{
}

/// The same of any number of later sources: the callback of a source
/// resolves in no manager that has loaded further sources since.
pub proof fn law_stale_forever(
    m: ManagerView,
    first: Option<Seq<char>>,
    later: Seq<Option<Seq<char>>>,
)
    requires
        m.wf(),
        m.has_room(),
        later.len() > 0,
    ensures
        !AttachCallback::waiting_for((m.next_id + 2) as UnitId).resolves_in(
            Some(m.loaded(first).loaded_all(later)),
        ),
        m.loaded(first).loaded_all(later).wf(),
        m.loaded(first).loaded_all(later).next_id >= m.loaded(first).next_id,
    decreases later.len(),
{
    let start = m.loaded(first);
    let before = start.loaded_all(later.drop_last());
    if later.len() == 1 {
        assert(later.drop_last().len() == 0);
        assert(before == start);
    } else {
        law_stale_forever(m, first, later.drop_last());
    }
}

/// A firing without a graph, or on a graph whose subgraph is another,
/// ends in the state that records it; a firing that resolves ends in
/// success; a callback that was never installed is left alone.
pub proof fn law_callback_states(callback: AttachCallback, graph: Option<ManagerView>)
    ensures
        callback.state == CallbackState::Unregistered ==> callback.fired(graph) == callback,
        callback.registered().state != CallbackState::Unregistered,
        callback.state != CallbackState::Unregistered && callback.resolves_in(graph)
            ==> callback.fired(graph).state == CallbackState::FiredSuccess,
        callback.state != CallbackState::Unregistered && !callback.resolves_in(graph)
            ==> callback.fired(graph).state == CallbackState::FiredGraphGone,
        callback.fired(None).state != CallbackState::FiredSuccess,
        callback.fired(graph).subgraph == callback.subgraph,
{
}

/// After an attachment the subgraph is in the run state of the graph: a
/// subgraph attached to a playing graph plays. The attachment feeds the
/// subgraph from the port given and leaves the rest of the manager alone.
pub proof fn law_attach_syncs(m: ManagerView, port: u32)
    requires
        m.wf(),
        m.source is Some,
    ensures
        m.attached(port).graph().in_step(),
        m.state == RunState::Playing ==> m.attached(port).graph().subgraph.unwrap().state
            == RunState::Playing,
        m.attached(port).source.unwrap().attached == Some(port),
        m.attached(port).state == m.state,
        m.attached(port).graph().graph.units == m.graph().graph.units,
        m.attached(port).graph().graph.connections == seq![
            m.source.unwrap().feed(),
            m.source.unwrap().attachment(port),
        ],
{
}

/// The handle of the display surface is the same after every transition
/// of the manager.
pub proof fn law_paintable_stable(
    m: ManagerView,
    location: Option<Seq<char>>,
    accepted: bool,
    port: u32,
)
    ensures
        m.loaded(location).paintable() == m.paintable(),
        m.unloaded().paintable() == m.paintable(),
        m.played(accepted).paintable() == m.paintable(),
        m.stopped(accepted).paintable() == m.paintable(),
        m.attached(port).paintable() == m.paintable(),
        m.detached().paintable() == m.paintable(),
{
}

/// The handle of the display surface, and the display sink behind it, are
/// the same after any number of sources.
pub proof fn law_paintable_outlives_sources(m: ManagerView, locations: Seq<Option<Seq<char>>>)
    ensures
        m.loaded_all(locations).paintable() == m.paintable(),
        m.loaded_all(locations).display == m.display,
    decreases locations.len(),
{
    if locations.len() > 0 {
        law_paintable_outlives_sources(m, locations.drop_last());
    }
}

/// The fan-out shows exactly one input port, which forwards to the
/// splitter, and as a unit it has no output port. Each of its three
/// branches starts at an output port of the splitter of its own with a
/// queue, and they end in the display sink, the UDP sink and the TCP
/// server sink.
pub proof fn law_fanout_shape(display: Unit, base: UnitId)
    requires
        base <= u64::MAX - 13,
    ensures
        fanout(display, base).inputs.len() == 1,
        fanout(display, base).inputs[0] == splitter(base).id,
        fanout(display, base).as_unit().kind.is_terminal(),
        fanout(display, base).graph.units[0] == splitter(base),
        display_branch(display, base).first().kind == UnitKind::Queue,
        datagram_branch(base).first().kind == UnitKind::Queue,
        stream_branch(base).first().kind == UnitKind::Queue,
        display_branch(display, base).last() == display,
        datagram_branch(base).last().kind == UnitKind::UdpSink,
        stream_branch(base).last().kind == UnitKind::TcpServerSink,
        fanout(display, base).graph.connections[0] == (Connection {
            src: splitter(base).id,
            port: 0,
            dst: display_branch(display, base).first().id,
        }),
        fanout(display, base).graph.connections[4] == (Connection {
            src: splitter(base).id,
            port: 1,
            dst: datagram_branch(base).first().id,
        }),
        fanout(display, base).graph.connections[9] == (Connection {
            src: splitter(base).id,
            port: 2,
            dst: stream_branch(base).first().id,
        }),
{
    lemma_fanout_positions(display, base);
    let units = crate::fanout::fanout_units(display, base);
    assert(units[1] == display_branch(display, base)[0]);
    assert(units[5] == datagram_branch(base)[0]);
    assert(units[10] == stream_branch(base)[0]);
}

/// The manager builds its fan-out without fail: the display sink has an
/// input port, and its identifier lies below those of every source.
pub proof fn law_fanout_builds(m: ManagerView)
    requires
        m.wf(),
        m.has_room(),
    ensures
        fanout_check(m.display, (m.next_id + 2) as UnitId) is Ok,
{
}

/// The top-level graph of a manager is well formed in every state: each
/// connection joins two members of the graph that holds it, the top-level
/// graph as well as the subgraph, no port carries two connections, and
/// the one subgraph stands in the graph as a unit.
pub proof fn law_graph_wf(m: ManagerView)
    requires
        m.wf(),
    ensures
        m.graph().wf(),
{
    let p = m.graph();
    match m.source {
        Some(s) => {
            lemma_fanout_wf(m.display, s.subgraph());
            let g = p.graph;
            g.lemma_member(0);
            g.lemma_member(1);
            g.lemma_member(2);
            assert forall|k: int| 0 <= k < g.connections.len() implies g.joins_members(
                #[trigger] g.connections[k],
            ) by {
                if k == 0 {
                } else {
                }
            }
        },
        None => {},
    }
}

} // verus!
