//! The fan-out subgraph: a splitter that feeds three branches at once.
//!
//! The display branch renders locally, the datagram branch sends RTP over
//! UDP, the stream branch serves TCP. Each branch begins with a queue
//! directly behind the splitter, so that a slow branch stalls neither the
//! other two nor the stage in front of the splitter.

use crate::command::Command;
use crate::graph::{GraphError, GraphView};
use crate::subgraph::{Subgraph, SubgraphView};
use crate::unit::{Connection, RunState, Unit, UnitId, UnitKind};
use vstd::prelude::*;

verus! {

/// Why a source could not be built.
#[derive(Clone, Copy, Debug, PartialEq, Eq, Structural)]
pub enum BuildError {
    /// The identifiers that the new units need are used up.
    Exhausted,
    /// The unit could not be created, or not be put into its container.
    Construction(Unit),
    /// The static link could not be made.
    Linking(Connection),
    /// The real graph refused another step of the build.
    Refused(Command),
}

/// Number of identifiers that a fan-out subgraph takes, from its own on.
pub const FANOUT_IDS: u64 = 14;

/// The new unit of kind `kind` at `offset` from the subgraph's identifier.
pub open spec fn fresh(base: UnitId, offset: int, kind: UnitKind) -> Unit {
    Unit { id: (base + offset) as UnitId, kind }
}

/// The splitter: the one unit that every branch starts from.
pub open spec fn splitter(base: UnitId) -> Unit {
    fresh(base, 1, UnitKind::Splitter)
}

/// Queue, colorspace conversion, scaling, and the display sink handed in.
pub open spec fn display_branch(display: Unit, base: UnitId) -> Seq<Unit> {
    seq![
        fresh(base, 2, UnitKind::Queue),
        fresh(base, 3, UnitKind::ColorConvert),
        fresh(base, 4, UnitKind::Scale),
        display,
    ]
}

/// Queue, encoder, transport-stream multiplexer, RTP payloader, UDP sink.
pub open spec fn datagram_branch(base: UnitId) -> Seq<Unit> {
    seq![
        fresh(base, 5, UnitKind::Queue),
        fresh(base, 6, UnitKind::DatagramEncoder),
        fresh(base, 7, UnitKind::TransportMux),
        fresh(base, 8, UnitKind::RtpPayloader),
        fresh(base, 9, UnitKind::UdpSink),
    ]
}

/// Queue, the other encoder, container multiplexer, TCP server sink.
pub open spec fn stream_branch(base: UnitId) -> Seq<Unit> {
    seq![
        fresh(base, 10, UnitKind::Queue),
        fresh(base, 11, UnitKind::StreamEncoder),
        fresh(base, 12, UnitKind::ContainerMux),
        fresh(base, 13, UnitKind::TcpServerSink),
    ]
}

/// The connections of one branch: from output port `port` of `head` to the
/// first unit, and from each unit to the next.
pub open spec fn chain(head: UnitId, port: u32, branch: Seq<Unit>) -> Seq<Connection> {
    Seq::new(
        branch.len(),
        |i: int|
            if i == 0 {
                Connection { src: head, port, dst: branch[0].id }
            } else {
                Connection { src: branch[i - 1].id, port: 0, dst: branch[i].id }
            },
    )
}

/// The units of the fan-out in the order in which they are added: the
/// splitter, then the three branches.
pub open spec fn fanout_units(display: Unit, base: UnitId) -> Seq<Unit> {
    seq![splitter(base)] + display_branch(display, base) + datagram_branch(base) + stream_branch(
        base,
    )
}

/// The connections of the fan-out, branch by branch; branch `n` leaves the
/// splitter at output port `n`.
pub open spec fn fanout_connections(display: Unit, base: UnitId) -> Seq<Connection> {
    chain(splitter(base).id, 0, display_branch(display, base)) + chain(
        splitter(base).id,
        1,
        datagram_branch(base),
    ) + chain(splitter(base).id, 2, stream_branch(base))
}

/// The fan-out subgraph around `display` whose identifiers start at
/// `base`: stopped, and showing the splitter's input port as its only port.
pub open spec fn fanout(display: Unit, base: UnitId) -> SubgraphView {
    SubgraphView {
        id: base,
        graph: GraphView {
            units: fanout_units(display, base),
            connections: fanout_connections(display, base),
        },
        inputs: seq![splitter(base).id],
        state: RunState::Stopped,
    }
}

/// What building the fan-out answers. It fails where the identifiers from
/// `base` on do not fit, where the identifier of `display` is one of them
/// (the error names the unit that could not be added: `display` itself
/// where its identifier was taken before, else the new unit that came
/// upon it), and where `display` has no input port to link to.
pub open spec fn fanout_check(display: Unit, base: UnitId) -> Result<(), BuildError> {
    if base > u64::MAX - 13 {
        Err(BuildError::Exhausted)
    } else if base <= display.id <= base + 13 {
        Err(
            BuildError::Construction(
                if display.id <= base + 4 {
                    display
                } else {
                    fanout_units(display, base)[display.id - base]
                },
            ),
        )
    } else if !display.kind.has_input() {
        Err(BuildError::Linking(fanout_connections(display, base)[3]))
    } else {
        Ok(())
    }
}

/// Position in `fanout_units` of the unit that connection `k` leaves.
pub open spec fn source_of(k: int) -> int {
    if k == 0 || k == 4 || k == 9 {
        0
    } else {
        k
    }
}

/// Output port that connection `k` leaves.
pub open spec fn port_of(k: int) -> u32 {
    if k == 4 {
        1
    } else if k == 9 {
        2
    } else {
        0
    }
}

/// The fan-out written out position by position: unit `i` has identifier
/// `base + i`, but the splitter, the first, has `base + 1`, the units of the
/// display branch up to the display sink one more than their position,
/// and the display sink, at position 4, its own; connection `k` enters
/// unit `k + 1`.
pub proof fn lemma_fanout_positions(display: Unit, base: UnitId)
    requires
        base <= u64::MAX - 13,
    ensures
        fanout_units(display, base).len() == 14,
        fanout_connections(display, base).len() == 13,
        fanout_units(display, base)[4] == display,
        forall|i: int|
            0 <= i < 14 && i != 4 ==> (#[trigger] fanout_units(display, base)[i]).id == base + (
            if i < 4 {
                i + 1
            } else {
                i
            }),
        forall|i: int|
            0 <= i < 14 && i != 4 ==> ((#[trigger] fanout_units(display, base)[i]).kind.has_input()
                && fanout_units(display, base)[i].kind != UnitKind::Subgraph),
        forall|k: int|
            0 <= k < 13 ==> #[trigger] fanout_connections(display, base)[k] == (Connection {
                src: fanout_units(display, base)[source_of(k)].id,
                port: port_of(k),
                dst: fanout_units(display, base)[k + 1].id,
            }),
        forall|k: int|
            0 <= k < 13 ==> (#[trigger] fanout_units(display, base)[source_of(k)]).kind.has_output(
                port_of(k),
            ),
{
    let units = fanout_units(display, base);
    let b1 = display_branch(display, base);
    let b2 = datagram_branch(base);
    let b3 = stream_branch(base);
    assert(units =~= seq![
        splitter(base),
        b1[0],
        b1[1],
        b1[2],
        b1[3],
        b2[0],
        b2[1],
        b2[2],
        b2[3],
        b2[4],
        b3[0],
        b3[1],
        b3[2],
        b3[3],
    ]);
    let c1 = chain(splitter(base).id, 0, b1);
    let c2 = chain(splitter(base).id, 1, b2);
    let c3 = chain(splitter(base).id, 2, b3);
    let connections = fanout_connections(display, base);
    assert(connections =~= seq![
        c1[0],
        c1[1],
        c1[2],
        c1[3],
        c2[0],
        c2[1],
        c2[2],
        c2[3],
        c2[4],
        c3[0],
        c3[1],
        c3[2],
        c3[3],
    ]);
    assert forall|k: int| 0 <= k < 13 implies #[trigger] connections[k] == (Connection {
        src: units[source_of(k)].id,
        port: port_of(k),
        dst: units[k + 1].id,
    }) && units[source_of(k)].kind.has_output(port_of(k)) by {
        if k == 0 {
        } else if k == 1 {
        } else if k == 2 {
        } else if k == 3 {
        } else if k == 4 {
        } else if k == 5 {
        } else if k == 6 {
        } else if k == 7 {
        } else if k == 8 {
        } else if k == 9 {
        } else if k == 10 {
        } else if k == 11 {
        } else {
        }
    }
}

/// The subgraph after the first `i` units were added.
pub open spec fn partly_added(display: Unit, base: UnitId, i: int) -> SubgraphView {
    SubgraphView {
        graph: GraphView {
            units: fanout_units(display, base).take(i),
            connections: Seq::empty(),
        },
        ..SubgraphView::empty(base)
    }
}

/// The subgraph after all units were added and the first `k` connections
/// made.
pub open spec fn partly_linked(display: Unit, base: UnitId, k: int) -> SubgraphView {
    SubgraphView {
        graph: GraphView {
            units: fanout_units(display, base),
            connections: fanout_connections(display, base).take(k),
        },
        ..SubgraphView::empty(base)
    }
}

/// Where adding unit `i` is refused, the identifier of the display sink is
/// among those of the fan-out, and unit `i` is the one that the check
/// names.
pub proof fn lemma_add_refused(display: Unit, base: UnitId, i: int)
    requires
        base <= u64::MAX - 13,
        0 <= i < 14,
        partly_added(display, base, i).wf(),
        partly_added(display, base, i).add_check(fanout_units(display, base)[i]) is Err,
    ensures
        fanout_check(display, base) == Err::<(), BuildError>(
            BuildError::Construction(fanout_units(display, base)[i]),
        ),
{
    lemma_fanout_positions(display, base);
    let units = fanout_units(display, base);
    let g = partly_added(display, base, i).graph;
    if units[i].id != base {
        let j = g.index_of(units[i].id);
        assert(0 <= j < i && g.units[j].id == units[i].id);
        assert(g.units[j] == units[j]);
    }
}

/// Where all units were added, the identifier of the display sink is none
/// of those of the fan-out.
pub proof fn lemma_all_added(display: Unit, base: UnitId)
    requires
        base <= u64::MAX - 13,
        partly_added(display, base, 14).wf(),
    ensures
        !(base <= display.id <= base + 13),
        partly_linked(display, base, 0) == partly_added(display, base, 14),
{
    lemma_fanout_positions(display, base);
    let units = fanout_units(display, base);
    let g = partly_added(display, base, 14).graph;
    assert(g.units =~= units);
    assert(fanout_connections(display, base).take(0) =~= Seq::<Connection>::empty());
    if base <= display.id <= base + 13 {
        if display.id == base {
            g.lemma_member(4);
        } else {
            let d = display.id - base;
            let i = if d <= 4 {
                d - 1
            } else {
                d
            };
            assert(units[i].id == units[4].id);
            if i < 4 {
                assert(g.units[i].id != g.units[4].id);
            } else {
                assert(g.units[4].id != g.units[i].id);
            }
        }
    }
}

/// Making connection `k` is refused only where it enters a display sink
/// without an input port.
pub proof fn lemma_link_outcome(display: Unit, base: UnitId, k: int)
    requires
        base <= u64::MAX - 13,
        0 <= k < 13,
        partly_linked(display, base, k).wf(),
        k > 3 ==> display.kind.has_input(),
    ensures
        ({
            let c = fanout_connections(display, base)[k];
            partly_linked(display, base, k).link_check(c.src, c.port, c.dst) == if k == 3
                && !display.kind.has_input() {
                Err::<(), GraphError>(GraphError::NoInput(display.id))
            } else {
                Ok::<(), GraphError>(())
            }
        }),
        k == 3 && !display.kind.has_input() ==> fanout_check(display, base) == Err::<
            (),
            BuildError,
        >(BuildError::Linking(fanout_connections(display, base)[3])),
{
    lemma_fanout_positions(display, base);
    let units = fanout_units(display, base);
    let connections = fanout_connections(display, base);
    let sub = partly_linked(display, base, k);
    let g = sub.graph;
    let c = connections[k];
    g.lemma_member(source_of(k));
    g.lemma_member(k + 1);
    g.lemma_member(4);
    assert(sub.inputs =~= Seq::<UnitId>::empty());
    assert(!g.output_busy(c.src, c.port)) by {
        if g.output_busy(c.src, c.port) {
            let j = choose|j: int|
                0 <= j < g.connections.len() && (#[trigger] g.connections[j]).src == c.src
                    && g.connections[j].port == c.port;
            assert(g.connections[j] == connections[j]);
            let a = source_of(j);
            let b = source_of(k);
            if a < b {
                assert(g.units[a].id != g.units[b].id);
            } else if b < a {
                assert(g.units[b].id != g.units[a].id);
            }
        }
    }
    assert(!g.input_busy(c.dst)) by {
        if g.input_busy(c.dst) {
            let j = choose|j: int|
                0 <= j < g.connections.len() && (#[trigger] g.connections[j]).dst == c.dst;
            assert(g.connections[j] == connections[j]);
            assert(g.units[j + 1].id != g.units[k + 1].id);
        }
    }
    if base <= display.id <= base + 13 {
        // The subgraph is well formed, so the display sink shares its
        // identifier neither with the subgraph nor with another unit.
        if display.id == base {
            assert(g.contains(base));
        } else {
            let d = display.id - base;
            let i = if d <= 4 {
                d - 1
            } else {
                d
            };
            assert(units[i].id == units[4].id);
            if i < 4 {
                assert(g.units[i].id != g.units[4].id);
            } else {
                assert(g.units[4].id != g.units[i].id);
            }
        }
    }
}

/// Once all connections are made, the splitter's input port is free to be
/// exposed, and the subgraph is then the fan-out.
pub proof fn lemma_all_linked(display: Unit, base: UnitId)
    requires
        base <= u64::MAX - 13,
        partly_linked(display, base, 13).wf(),
    ensures
        partly_linked(display, base, 13).expose_check(splitter(base).id) is Ok,
        partly_linked(display, base, 13).expose(splitter(base).id) == fanout(display, base),
{
    lemma_fanout_positions(display, base);
    let connections = fanout_connections(display, base);
    let sub = partly_linked(display, base, 13);
    let g = sub.graph;
    assert(connections.take(13) =~= connections);
    g.lemma_member(0);
    assert(sub.inputs =~= Seq::<UnitId>::empty());
    assert(!g.input_busy(splitter(base).id)) by {
        if g.input_busy(splitter(base).id) {
            let j = choose|j: int|
                0 <= j < g.connections.len() && (#[trigger] g.connections[j]).dst == splitter(
                    base,
                ).id;
            assert(g.units[0].id != g.units[j + 1].id);
        }
    }
    assert(sub.expose(splitter(base).id).inputs =~= seq![splitter(base).id]);
}

/// With the identifier of the display sink apart from those of the
/// fan-out, the subgraph is well formed after each unit added.
pub proof fn lemma_partly_added_wf(display: Unit, base: UnitId, i: int)
    requires
        base <= u64::MAX - 13,
        !(base <= display.id <= base + 13),
        0 <= i <= 14,
    ensures
        partly_added(display, base, i).wf(),
    decreases i,
{
    lemma_fanout_positions(display, base);
    let units = fanout_units(display, base);
    if i == 0 {
        assert(units.take(0) =~= Seq::<Unit>::empty());
    } else {
        lemma_partly_added_wf(display, base, i - 1);
        let before = partly_added(display, base, i - 1);
        let unit = units[i - 1];
        assert(!before.graph.contains(unit.id)) by {
            if before.graph.contains(unit.id) {
                let j = before.graph.index_of(unit.id);
                assert(before.graph.units[j] == units[j]);
            }
        }
        before.graph.lemma_add_wf(unit);
        assert(units.take(i) =~= units.take(i - 1).push(unit));
        assert(partly_added(display, base, i).graph == before.graph.add(unit));
    }
}

/// With a display sink that can be linked to, the subgraph is well formed
/// after each connection made.
pub proof fn lemma_partly_linked_wf(display: Unit, base: UnitId, k: int)
    requires
        fanout_check(display, base) is Ok,
        0 <= k <= 13,
    ensures
        partly_linked(display, base, k).wf(),
    decreases k,
{
    lemma_fanout_positions(display, base);
    let connections = fanout_connections(display, base);
    if k == 0 {
        lemma_partly_added_wf(display, base, 14);
        lemma_all_added(display, base);
    } else {
        lemma_partly_linked_wf(display, base, k - 1);
        lemma_link_outcome(display, base, k - 1);
        let before = partly_linked(display, base, k - 1);
        let c = connections[k - 1];
        before.graph.lemma_link_wf(c);
        assert(connections.take(k) =~= connections.take(k - 1).push(c));
        assert(partly_linked(display, base, k).graph == before.graph.link(c));
        assert(partly_linked(display, base, k).inputs =~= Seq::<UnitId>::empty());
    }
}

/// The fan-out is a well-formed subgraph wherever it can be built: every
/// connection joins two of its own units, no port carries two connections,
/// and the exposed port forwards to the free input port of the splitter.
pub proof fn lemma_fanout_wf(display: Unit, base: UnitId)
    requires
        fanout_check(display, base) is Ok,
    ensures
        fanout(display, base).wf(),
{
    lemma_partly_linked_wf(display, base, 13);
    lemma_all_linked(display, base);
    let before = partly_linked(display, base, 13);
    let sub = fanout(display, base);
    assert(before.inputs =~= Seq::<UnitId>::empty());
    assert(sub.graph == before.graph);
}

/// The members of the fan-out are the display sink and the thirteen new
/// units, whose identifiers follow that of the subgraph.
pub proof fn lemma_fanout_members(display: Unit, base: UnitId)
    requires
        base <= u64::MAX - 13,
    ensures
        forall|id: UnitId|
            fanout(display, base).graph.contains(id) <==> (id == display.id || base + 1 <= id
                <= base + 13),
{
    lemma_fanout_positions(display, base);
    let g = fanout(display, base).graph;
    assert forall|id: UnitId| g.contains(id) implies (id == display.id || base + 1 <= id <= base
        + 13) by {
        let i = g.index_of(id);
        assert(g.units[i].id == id);
    }
    assert forall|id: UnitId| (id == display.id || base + 1 <= id <= base + 13) implies g.contains(
        id,
    ) by {
        if id == display.id {
            assert(g.units[4].id == id);
        } else {
            let d = id - base;
            let i = if d <= 4 {
                d - 1
            } else {
                d
            };
            assert(g.units[i].id == id);
        }
    }
}

/// Appends the units of `branch` to `units`.
fn push_branch(units: &mut Vec<Unit>, branch: &Vec<Unit>)
    ensures
        final(units)@ == old(units)@ + branch@,
{
    let ghost before = units@;
    let mut i: usize = 0;
    while i < branch.len()
        invariant
            i <= branch.len(),
            units@ =~= before + branch@.take(i as int),
        decreases branch.len() - i,
    {
        units.push(branch[i]);
        i = i + 1;
    }
    assert(branch@.take(i as int) =~= branch@);
}

/// Appends the connections of one branch to `connections`.
fn push_chain(connections: &mut Vec<Connection>, head: UnitId, port: u32, branch: &Vec<Unit>)
    ensures
        final(connections)@ == old(connections)@ + chain(head, port, branch@),
{
    let ghost before = connections@;
    let mut i: usize = 0;
    while i < branch.len()
        invariant
            i <= branch.len(),
            connections@ =~= before + chain(head, port, branch@).take(i as int),
        decreases branch.len() - i,
    {
        let c = if i == 0 {
            Connection { src: head, port, dst: branch[0].id }
        } else {
            Connection { src: branch[i - 1].id, port: 0, dst: branch[i].id }
        };
        connections.push(c);
        i = i + 1;
    }
    assert(chain(head, port, branch@).take(i as int) =~= chain(head, port, branch@));
}

/// Builds the fan-out subgraph around the display sink `display`, with
/// `base` as its identifier and the thirteen identifiers behind `base` for
/// the splitter and the units of its branches.
pub fn build_fanout(display: Unit, base: UnitId) -> (r: Result<Subgraph, BuildError>)
    ensures
        match r {
            Ok(sub) => fanout_check(display, base) is Ok && sub@ == fanout(display, base)
                && sub.wf(),
            Err(e) => fanout_check(display, base) == Err::<(), BuildError>(e),
        },
        r matches Ok(sub) ==> sub@.inputs == seq![splitter(base).id] && sub@.state
            == RunState::Stopped,
{
    if base > u64::MAX - (FANOUT_IDS - 1) {
        return Err(BuildError::Exhausted);
    }
    let tee = Unit { id: base + 1, kind: UnitKind::Splitter };
    let mut display_branch: Vec<Unit> = Vec::new();
    display_branch.push(Unit { id: base + 2, kind: UnitKind::Queue });
    display_branch.push(Unit { id: base + 3, kind: UnitKind::ColorConvert });
    display_branch.push(Unit { id: base + 4, kind: UnitKind::Scale });
    display_branch.push(display);
    let mut datagram_branch: Vec<Unit> = Vec::new();
    datagram_branch.push(Unit { id: base + 5, kind: UnitKind::Queue });
    datagram_branch.push(Unit { id: base + 6, kind: UnitKind::DatagramEncoder });
    datagram_branch.push(Unit { id: base + 7, kind: UnitKind::TransportMux });
    datagram_branch.push(Unit { id: base + 8, kind: UnitKind::RtpPayloader });
    datagram_branch.push(Unit { id: base + 9, kind: UnitKind::UdpSink });
    let mut stream_branch: Vec<Unit> = Vec::new();
    stream_branch.push(Unit { id: base + 10, kind: UnitKind::Queue });
    stream_branch.push(Unit { id: base + 11, kind: UnitKind::StreamEncoder });
    stream_branch.push(Unit { id: base + 12, kind: UnitKind::ContainerMux });
    stream_branch.push(Unit { id: base + 13, kind: UnitKind::TcpServerSink });
    assert(display_branch@ =~= self::display_branch(display, base));
    assert(datagram_branch@ =~= self::datagram_branch(base));
    assert(stream_branch@ =~= self::stream_branch(base));

    let mut units: Vec<Unit> = Vec::new();
    units.push(tee);
    push_branch(&mut units, &display_branch);
    push_branch(&mut units, &datagram_branch);
    push_branch(&mut units, &stream_branch);
    assert(units@ =~= fanout_units(display, base));
    let mut connections: Vec<Connection> = Vec::new();
    push_chain(&mut connections, tee.id, 0, &display_branch);
    push_chain(&mut connections, tee.id, 1, &datagram_branch);
    push_chain(&mut connections, tee.id, 2, &stream_branch);
    assert(connections@ =~= fanout_connections(display, base));
    proof {
        lemma_fanout_positions(display, base);
    }

    let mut sub = Subgraph::new(base);
    assert(units@.take(0) =~= Seq::<Unit>::empty());
    let mut i: usize = 0;
    while i < units.len()
        invariant
            base <= u64::MAX - 13,
            i <= units.len() == 14,
            units@ == fanout_units(display, base),
            sub.wf(),
            sub@ == partly_added(display, base, i as int),
        decreases units.len() - i,
    {
        let unit = units[i];
        proof {
            assert(units@.take(i + 1) =~= units@.take(i as int).push(unit));
        }
        match sub.add(unit) {
            Ok(()) => {},
            Err(_) => {
                proof {
                    lemma_add_refused(display, base, i as int);
                }
                return Err(BuildError::Construction(unit));
            },
        }
        i = i + 1;
    }
    proof {
        lemma_all_added(display, base);
    }
    let mut k: usize = 0;
    while k < connections.len()
        invariant
            base <= u64::MAX - 13,
            k <= connections.len() == 13,
            connections@ == fanout_connections(display, base),
            sub.wf(),
            sub@ == partly_linked(display, base, k as int),
            k > 3 ==> display.kind.has_input(),
        decreases connections.len() - k,
    {
        let c = connections[k];
        proof {
            lemma_link_outcome(display, base, k as int);
            assert(connections@.take(k + 1) =~= connections@.take(k as int).push(c));
        }
        match sub.link(c.src, c.port, c.dst) {
            Ok(()) => {},
            Err(_) => {
                return Err(BuildError::Linking(c));
            },
        }
        k = k + 1;
    }
    proof {
        lemma_all_linked(display, base);
    }
    match sub.expose_input(tee.id) {
        Ok(()) => Ok(sub),
        Err(_) => Err(BuildError::Linking(Connection { src: base, port: 0, dst: tee.id })),
    }
}

} // verus!
