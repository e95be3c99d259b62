//! A graph: processing units and the connections between their ports.

use crate::unit::{Connection, Unit, UnitId};
use vstd::prelude::*;

verus! {

/// Why a graph refused an operation.
#[derive(Clone, Copy, Debug, PartialEq, Eq, Structural)]
pub enum GraphError {
    /// A unit with this identifier is a member already.
    Duplicate(UnitId),
    /// No member has this identifier.
    NotMember(UnitId),
    /// The unit has no output port of that number.
    NoOutput { unit: UnitId, port: u32 },
    /// The unit has no input port.
    NoInput(UnitId),
    /// The output port is connected already.
    OutputBusy { unit: UnitId, port: u32 },
    /// The unit's input port is connected already.
    InputBusy(UnitId),
    /// The graph holds a subgraph already.
    Occupied,
    /// A subgraph is added whole, not as a plain unit.
    Composite(UnitId),
}

/// Mathematical value of a [`Graph`]: its units in the order in which they
/// were added, and its connections in the order in which they were made.
pub struct GraphView {
    pub units: Seq<Unit>,
    pub connections: Seq<Connection>,
}

/// Holds of the connections that do not touch unit `id`.
pub open spec fn clear_of(id: UnitId) -> spec_fn(Connection) -> bool {
    |c: Connection| c.src != id && c.dst != id
}

/// No port carries two of the connections.
pub open spec fn exclusive(connections: Seq<Connection>) -> bool {
    forall|k: int, l: int|
        0 <= k < l < connections.len() ==> {
            let a = #[trigger] connections[k];
            let b = #[trigger] connections[l];
            !(a.src == b.src && a.port == b.port) && a.dst != b.dst
        }
}

/// The connections that stay when unit `id` leaves are connections of
/// before, none of them touches `id`, and no port carries two of them if
/// none did before.
pub proof fn lemma_clear_of(connections: Seq<Connection>, id: UnitId)
    ensures
        forall|k: int|
            0 <= k < connections.filter(clear_of(id)).len() ==> {
                let c = #[trigger] connections.filter(clear_of(id))[k];
                c.src != id && c.dst != id && connections.contains(c)
            },
        exclusive(connections) ==> exclusive(connections.filter(clear_of(id))),
    decreases connections.len(),
{
    let kept = connections.filter(clear_of(id));
    if connections.len() == 0 {
        connections.lemma_filter_len(clear_of(id));
    } else {
        let front = connections.drop_last();
        let last = connections.last();
        let n = front.len() as int;
        assert(front.push(last) =~= connections);
        front.lemma_filter_push(last, clear_of(id));
        lemma_clear_of(front, id);
        let kept_front = front.filter(clear_of(id));
        assert forall|k: int| 0 <= k < kept.len() implies {
            let c = #[trigger] kept[k];
            c.src != id && c.dst != id && connections.contains(c)
        } by {
            if k < kept_front.len() {
                let c = kept_front[k];
                assert(kept[k] == c);
                let j = choose|j: int| 0 <= j < front.len() && front[j] == c;
                assert(connections[j] == c);
            } else {
                assert(kept[k] == last);
                assert(connections[n] == last);
            }
        }
        if exclusive(connections) {
            assert(exclusive(front)) by {
                assert forall|k: int, l: int| 0 <= k < l < front.len() implies {
                    let a = #[trigger] front[k];
                    let b = #[trigger] front[l];
                    !(a.src == b.src && a.port == b.port) && a.dst != b.dst
                } by {
                    assert(front[k] == connections[k]);
                    assert(front[l] == connections[l]);
                }
            }
            assert forall|k: int, l: int| 0 <= k < l < kept.len() implies {
                let a = #[trigger] kept[k];
                let b = #[trigger] kept[l];
                !(a.src == b.src && a.port == b.port) && a.dst != b.dst
            } by {
                if l < kept_front.len() {
                    assert(kept[k] == kept_front[k]);
                    assert(kept[l] == kept_front[l]);
                } else {
                    let a = kept_front[k];
                    assert(kept[k] == a);
                    assert(kept[l] == last);
                    let j = choose|j: int| 0 <= j < front.len() && front[j] == a;
                    assert(connections[j] == a);
                    assert(connections[n] == last);
                }
            }
        }
    }
}

impl GraphView {
    pub open spec fn empty() -> GraphView {
        GraphView { units: Seq::empty(), connections: Seq::empty() }
    }

    /// Whether a unit with identifier `id` is a member.
    pub open spec fn contains(self, id: UnitId) -> bool {
        exists|i: int| 0 <= i < self.units.len() && (#[trigger] self.units[i]).id == id
    }

    /// Position of the member with identifier `id`.
    pub open spec fn index_of(self, id: UnitId) -> int {
        choose|i: int| 0 <= i < self.units.len() && (#[trigger] self.units[i]).id == id
    }

    /// The member with identifier `id`.
    pub open spec fn unit(self, id: UnitId) -> Unit {
        self.units[self.index_of(id)]
    }

    /// Whether output port `port` of unit `src` is connected.
    pub open spec fn output_busy(self, src: UnitId, port: u32) -> bool {
        exists|k: int|
            0 <= k < self.connections.len() && (#[trigger] self.connections[k]).src == src
                && self.connections[k].port == port
    }

    /// Whether the input port of unit `dst` is connected.
    pub open spec fn input_busy(self, dst: UnitId) -> bool {
        exists|k: int|
            0 <= k < self.connections.len() && (#[trigger] self.connections[k]).dst == dst
    }

    /// Both ends of `c` are ports of members of this graph.
    pub open spec fn joins_members(self, c: Connection) -> bool {
        &&& self.contains(c.src)
        &&& self.unit(c.src).kind.has_output(c.port)
        &&& self.contains(c.dst)
        &&& self.unit(c.dst).kind.has_input()
    }

    /// No two members share an identifier.
    pub open spec fn distinct_units(self) -> bool {
        forall|i: int, j: int|
            0 <= i < j < self.units.len() ==> (#[trigger] self.units[i]).id != (
            #[trigger] self.units[j]).id
    }

    /// No port carries two connections.
    pub open spec fn exclusive_ports(self) -> bool {
        exclusive(self.connections)
    }

    /// The invariant of a graph: members are told apart by their
    /// identifiers, every connection joins two members of this same graph,
    /// and every port carries at most one connection.
    pub open spec fn wf(self) -> bool {
        &&& self.distinct_units()
        &&& forall|k: int|
            0 <= k < self.connections.len() ==> self.joins_members(#[trigger] self.connections[k])
        &&& self.exclusive_ports()
    }

    /// The graph with `unit` added behind its members.
    pub open spec fn add(self, unit: Unit) -> GraphView {
        GraphView { units: self.units.push(unit), ..self }
    }

    /// What linking output port `port` of `src` to the input port of `dst`
    /// answers: the first of the reasons to refuse that applies, or `Ok`.
    pub open spec fn link_check(self, src: UnitId, port: u32, dst: UnitId) -> Result<
        (),
        GraphError,
    > {
        if !self.contains(src) {
            Err(GraphError::NotMember(src))
        } else if !self.contains(dst) {
            Err(GraphError::NotMember(dst))
        } else if !self.unit(src).kind.has_output(port) {
            Err(GraphError::NoOutput { unit: src, port })
        } else if !self.unit(dst).kind.has_input() {
            Err(GraphError::NoInput(dst))
        } else if self.output_busy(src, port) {
            Err(GraphError::OutputBusy { unit: src, port })
        } else if self.input_busy(dst) {
            Err(GraphError::InputBusy(dst))
        } else {
            Ok(())
        }
    }

    /// The graph with connection `c` added behind its connections.
    pub open spec fn link(self, c: Connection) -> GraphView {
        GraphView { connections: self.connections.push(c), ..self }
    }

    /// The graph without the member `id` and without the connections that
    /// touch it; the graph itself where `id` is no member.
    pub open spec fn remove(self, id: UnitId) -> GraphView {
        if self.contains(id) {
            GraphView {
                units: self.units.remove(self.index_of(id)),
                connections: self.connections.filter(clear_of(id)),
            }
        } else {
            self
        }
    }

    /// In a graph with distinct units the member at position `i` is the one
    /// that its identifier names.
    pub proof fn lemma_member(self, i: int)
        requires
            self.distinct_units(),
            0 <= i < self.units.len(),
        ensures
            self.contains(self.units[i].id),
            self.index_of(self.units[i].id) == i,
            self.unit(self.units[i].id) == self.units[i],
    {
        let id = self.units[i].id;
        let j = self.index_of(id);
        assert(0 <= j < self.units.len() && self.units[j].id == id);
        if j < i {
            assert(self.units[j].id != self.units[i].id);
        } else if i < j {
            assert(self.units[i].id != self.units[j].id);
        }
    }

    /// Adding a unit whose identifier is new keeps the invariant.
    pub proof fn lemma_add_wf(self, unit: Unit)
        requires
            self.wf(),
            !self.contains(unit.id),
        ensures
            self.add(unit).wf(),
            forall|id: UnitId| self.contains(id) ==> self.add(unit).unit(id) == self.unit(id),
            forall|id: UnitId|
                self.add(unit).contains(id) <==> (self.contains(id) || id == unit.id),
            self.add(unit).unit(unit.id) == unit,
    {
        let g = self.add(unit);
        let n = self.units.len() as int;
        assert(g.distinct_units()) by {
            assert forall|i: int, j: int| 0 <= i < j < g.units.len() implies (
            #[trigger] g.units[i]).id != (#[trigger] g.units[j]).id by {
                if j == n {
                    assert(self.units[i].id != unit.id);
                } else {
                    assert(self.units[i].id != self.units[j].id);
                }
            }
        }
        assert forall|id: UnitId| self.contains(id) implies g.contains(id) && g.unit(id)
            == self.unit(id) by {
            let i = self.index_of(id);
            assert(g.units[i] == self.units[i]);
            self.lemma_member(i);
            g.lemma_member(i);
        }
        assert(g.units[n] == unit);
        g.lemma_member(n);
        assert forall|id: UnitId| g.contains(id) implies self.contains(id) || id == unit.id by {
            let i = g.index_of(id);
            if i < n {
                assert(self.units[i].id == id);
            }
        }
        assert forall|k: int| 0 <= k < g.connections.len() implies g.joins_members(
            #[trigger] g.connections[k],
        ) by {
            assert(self.joins_members(self.connections[k]));
        }
    }

    /// Making a connection that `link_check` accepts keeps the invariant.
    pub proof fn lemma_link_wf(self, c: Connection)
        requires
            self.wf(),
            self.link_check(c.src, c.port, c.dst) is Ok,
        ensures
            self.link(c).wf(),
    {
        let g = self.link(c);
        let n = self.connections.len() as int;
        assert forall|k: int| 0 <= k < g.connections.len() implies g.joins_members(
            #[trigger] g.connections[k],
        ) by {
            if k < n {
                assert(self.joins_members(self.connections[k]));
            }
        }
        assert(g.exclusive_ports()) by {
            assert forall|k: int, l: int| 0 <= k < l < g.connections.len() implies {
                let a = #[trigger] g.connections[k];
                let b = #[trigger] g.connections[l];
                !(a.src == b.src && a.port == b.port) && a.dst != b.dst
            } by {
                if l == n {
                    assert(self.connections[k] == g.connections[k]);
                } else {
                    assert(self.connections[k] == g.connections[k]);
                    assert(self.connections[l] == g.connections[l]);
                }
            }
        }
    }

    /// Removing a member keeps the invariant, and every other member.
    pub proof fn lemma_remove_wf(self, id: UnitId)
        requires
            self.wf(),
            self.contains(id),
        ensures
            self.remove(id).wf(),
            !self.remove(id).contains(id),
            forall|other: UnitId|
                other != id ==> (self.remove(id).contains(other) <==> self.contains(other)),
            forall|other: UnitId|
                other != id && self.contains(other) ==> self.remove(id).unit(other) == self.unit(
                    other,
                ),
    {
        let g = self.remove(id);
        let at = self.index_of(id);
        assert(0 <= at < self.units.len() && self.units[at].id == id);
        self.lemma_member(at);
        assert(g.units.len() == self.units.len() - 1);
        assert forall|i: int| 0 <= i < g.units.len() implies #[trigger] g.units[i] == self.units[if i
            < at {
            i
        } else {
            i + 1
        }] by {}
        assert(g.distinct_units()) by {
            assert forall|i: int, j: int| 0 <= i < j < g.units.len() implies (
            #[trigger] g.units[i]).id != (#[trigger] g.units[j]).id by {
                let a = if i < at {
                    i
                } else {
                    i + 1
                };
                let b = if j < at {
                    j
                } else {
                    j + 1
                };
                assert(g.units[i] == self.units[a]);
                assert(g.units[j] == self.units[b]);
                assert(self.units[a].id != self.units[b].id);
            }
        }
        assert(!g.contains(id)) by {
            if g.contains(id) {
                let i = g.index_of(id);
                let a = if i < at {
                    i
                } else {
                    i + 1
                };
                assert(g.units[i] == self.units[a]);
                self.lemma_member(a);
            }
        }
        assert forall|other: UnitId| other != id && self.contains(other) implies g.contains(other)
            && g.unit(other) == self.unit(other) by {
            let a = self.index_of(other);
            self.lemma_member(a);
            let i = if a < at {
                a
            } else {
                a - 1
            };
            assert(g.units[i] == self.units[a]);
            g.lemma_member(i);
        }
        assert forall|other: UnitId| other != id && g.contains(other) implies self.contains(
            other,
        ) by {
            let i = g.index_of(other);
            let a = if i < at {
                i
            } else {
                i + 1
            };
            assert(g.units[i] == self.units[a]);
        }
        lemma_clear_of(self.connections, id);
        assert forall|k: int| 0 <= k < g.connections.len() implies g.joins_members(
            #[trigger] g.connections[k],
        ) by {
            let c = g.connections[k];
            let j = choose|j: int| 0 <= j < self.connections.len() && self.connections[j] == c;
            assert(self.joins_members(self.connections[j]));
        }
    }
}

/// A mutable collection of processing units and of the connections between
/// their ports.
#[derive(Debug)]
pub struct Graph {
    units: Vec<Unit>,
    connections: Vec<Connection>,
}

impl View for Graph {
    type V = GraphView;

    closed spec fn view(&self) -> GraphView {
        GraphView { units: self.units@, connections: self.connections@ }
    }
}

impl Graph {
    /// The invariant that every graph handed out by this module meets.
    pub open spec fn wf(&self) -> bool {
        self@.wf()
    }

    pub fn new() -> (g: Graph)
        ensures
            g@ == GraphView::empty(),
            g.wf(),
    {
        Graph { units: Vec::new(), connections: Vec::new() }
    }

    pub fn units(&self) -> (r: &Vec<Unit>)
        ensures
            r@ == self@.units,
    {
        &self.units
    }

    pub fn connections(&self) -> (r: &Vec<Connection>)
        ensures
            r@ == self@.connections,
    {
        &self.connections
    }

    fn position(&self, id: UnitId) -> (r: Option<usize>)
        ensures
            match r {
                Some(i) => i < self@.units.len() && self@.units[i as int].id == id,
                None => !self@.contains(id),
            },
    {
        let mut i: usize = 0;
        while i < self.units.len()
            invariant
                i <= self.units.len(),
                forall|j: int| 0 <= j < i ==> (#[trigger] self.units@[j]).id != id,
            decreases self.units.len() - i,
        {
            if self.units[i].id == id {
                return Some(i);
            }
            i = i + 1;
        }
        None
    }

    /// Whether a unit with identifier `id` is a member.
    pub fn contains(&self, id: UnitId) -> (r: bool)
        ensures
            r == self@.contains(id),
    {
        self.position(id).is_some()
    }

    /// The member with identifier `id`, if there is one.
    pub fn find(&self, id: UnitId) -> (r: Option<Unit>)
        requires
            self.wf(),
        ensures
            r == if self@.contains(id) {
                Some(self@.unit(id))
            } else {
                None::<Unit>
            },
    {
        match self.position(id) {
            Some(i) => {
                proof {
                    self@.lemma_member(i as int);
                }
                Some(self.units[i])
            },
            None => None,
        }
    }

    /// Whether output port `port` of unit `src` is connected.
    pub fn output_busy(&self, src: UnitId, port: u32) -> (r: bool)
        ensures
            r == self@.output_busy(src, port),
    {
        let mut k: usize = 0;
        while k < self.connections.len()
            invariant
                k <= self.connections.len(),
                forall|j: int|
                    0 <= j < k ==> !((#[trigger] self.connections@[j]).src == src
                        && self.connections@[j].port == port),
            decreases self.connections.len() - k,
        {
            if self.connections[k].src == src && self.connections[k].port == port {
                assert(self@.connections[k as int].src == src);
                return true;
            }
            k = k + 1;
        }
        false
    }

    /// Whether the input port of unit `dst` is connected.
    pub fn input_busy(&self, dst: UnitId) -> (r: bool)
        ensures
            r == self@.input_busy(dst),
    {
        let mut k: usize = 0;
        while k < self.connections.len()
            invariant
                k <= self.connections.len(),
                forall|j: int| 0 <= j < k ==> (#[trigger] self.connections@[j]).dst != dst,
            decreases self.connections.len() - k,
        {
            if self.connections[k].dst == dst {
                assert(self@.connections[k as int].dst == dst);
                return true;
            }
            k = k + 1;
        }
        false
    }

    /// Adds `unit` behind the members. Refused, with the graph unchanged,
    /// where a member has its identifier already.
    pub fn add(&mut self, unit: Unit) -> (r: Result<(), GraphError>)
        requires
            old(self).wf(),
        ensures
            final(self).wf(),
            old(self)@.contains(unit.id) ==> r == Err::<(), GraphError>(
                GraphError::Duplicate(unit.id),
            ) && final(self)@ == old(self)@,
            !old(self)@.contains(unit.id) ==> r == Ok::<(), GraphError>(()) && final(self)@ == old(
                self,
            )@.add(unit),
    {
        if self.contains(unit.id) {
            return Err(GraphError::Duplicate(unit.id));
        }
        proof {
            self@.lemma_add_wf(unit);
        }
        self.units.push(unit);
        Ok(())
    }

    /// What linking output port `port` of `src` to the input port of `dst`
    /// would answer; the graph is left as it is.
    pub fn link_check(&self, src: UnitId, port: u32, dst: UnitId) -> (r: Result<(), GraphError>)
        requires
            self.wf(),
        ensures
            r == self@.link_check(src, port, dst),
    {
        let from = match self.find(src) {
            Some(unit) => unit,
            None => {
                return Err(GraphError::NotMember(src));
            },
        };
        let to = match self.find(dst) {
            Some(unit) => unit,
            None => {
                return Err(GraphError::NotMember(dst));
            },
        };
        if !from.kind.offers_output(port) {
            return Err(GraphError::NoOutput { unit: src, port });
        }
        if !to.kind.accepts_input() {
            return Err(GraphError::NoInput(dst));
        }
        if self.output_busy(src, port) {
            return Err(GraphError::OutputBusy { unit: src, port });
        }
        if self.input_busy(dst) {
            return Err(GraphError::InputBusy(dst));
        }
        Ok(())
    }

    /// Connects output port `port` of `src` to the input port of `dst`.
    /// Refused, with the graph unchanged, where either is no member, lacks
    /// the port, or has it connected already.
    pub fn link(&mut self, src: UnitId, port: u32, dst: UnitId) -> (r: Result<(), GraphError>)
        requires
            old(self).wf(),
        ensures
            final(self).wf(),
            r == old(self)@.link_check(src, port, dst),
            r is Ok ==> final(self)@ == old(self)@.link(Connection { src, port, dst }),
            r is Err ==> final(self)@ == old(self)@,
    {
        let r = self.link_check(src, port, dst);
        if r.is_ok() {
            proof {
                self@.lemma_link_wf(Connection { src, port, dst });
            }
            self.connections.push(Connection { src, port, dst });
        }
        r
    }

    /// Takes the member with identifier `id` out of the graph, together
    /// with the connections that touch it, and hands the unit back.
    pub fn remove(&mut self, id: UnitId) -> (r: Option<Unit>)
        requires
            old(self).wf(),
        ensures
            final(self).wf(),
            r == if old(self)@.contains(id) {
                Some(old(self)@.unit(id))
            } else {
                None::<Unit>
            },
            final(self)@ == old(self)@.remove(id),
    {
        match self.position(id) {
            Some(i) => {
                proof {
                    self@.lemma_member(i as int);
                    self@.lemma_remove_wf(id);
                }
                self.connections = without(&self.connections, id);
                let unit = self.units.remove(i);
                Some(unit)
            },
            None => None,
        }
    }
}

/// The connections among `connections` that do not touch unit `id`.
fn without(connections: &Vec<Connection>, id: UnitId) -> (r: Vec<Connection>)
    ensures
        r@ == connections@.filter(clear_of(id)),
{
    let mut kept: Vec<Connection> = Vec::new();
    let mut k: usize = 0;
    proof {
        connections@.take(0).lemma_filter_len(clear_of(id));
    }
    while k < connections.len()
        invariant
            k <= connections.len(),
            kept@ =~= connections@.take(k as int).filter(clear_of(id)),
        decreases connections.len() - k,
    {
        let c = connections[k];
        proof {
            connections@.take(k as int).lemma_filter_push(c, clear_of(id));
            assert(connections@.take(k + 1) =~= connections@.take(k as int).push(c));
        }
        if c.src != id && c.dst != id {
            kept.push(c);
        }
        k = k + 1;
    }
    assert(connections@.take(k as int) =~= connections@);
    kept
}

} // verus!
