//! Commands: what the manager has its driver do on the real graph.
//!
//! The manager decides on a model of the graph. Each decision comes with
//! the commands that bring the real graph to the same shape, in the order
//! in which the driver performs them.

use crate::subgraph::{Subgraph, SubgraphView};
use crate::unit::{Connection, Unit, UnitId};
use vstd::prelude::*;

verus! {

/// The container that a command works on.
#[derive(Clone, Copy, Debug, PartialEq, Eq, Structural)]
pub enum Container {
    /// The top-level graph.
    Graph,
    /// The subgraph with this identifier.
    Subgraph(UnitId),
}

/// One step for the driver.
#[derive(Clone, Copy, Debug, PartialEq, Eq, Structural)]
pub enum Command {
    /// Have the factory make the unit, with the options of its kind; for a
    /// unit of kind subgraph, make the empty container.
    Create(Unit),
    /// Put the unit into the container.
    Insert { container: Container, member: Unit },
    /// Take the unit out of the container.
    Remove { container: Container, unit: UnitId },
    /// Connect an output port to an input port.
    Link(Connection),
    /// Show the input port of `target` as an input port of the subgraph.
    Expose { subgraph: UnitId, target: UnitId },
    /// Have the unit announce each output port that it discovers.
    Watch { unit: UnitId },
    /// Bring the unit to the run state of the graph that holds it.
    SyncState { unit: UnitId },
    /// Stop the unit and give it up.
    Dispose { unit: UnitId },
}

/// Holds of the units whose identifier is not `id`.
pub open spec fn other_than(id: UnitId) -> spec_fn(Unit) -> bool {
    |u: Unit| u.id != id
}

/// The command that creates a unit.
pub open spec fn create() -> spec_fn(Unit) -> Command {
    |u: Unit| Command::Create(u)
}

/// The command that puts a unit into `container`.
pub open spec fn insert_into(container: Container) -> spec_fn(Unit) -> Command {
    |u: Unit| Command::Insert { container, member: u }
}

/// The command that makes a connection.
pub open spec fn link() -> spec_fn(Connection) -> Command {
    |c: Connection| Command::Link(c)
}

/// The command that exposes an input port of `subgraph`.
pub open spec fn expose(subgraph: UnitId) -> spec_fn(UnitId) -> Command {
    |target: UnitId| Command::Expose { subgraph, target }
}

impl SubgraphView {
    /// The commands that assemble the subgraph: create the container and
    /// every unit but the one that exists already, `reused`; put all units
    /// into the container; make the connections; expose the input ports.
    pub open spec fn assembly(self, reused: UnitId) -> Seq<Command> {
        seq![Command::Create(self.as_unit())] + self.graph.units.filter(
            other_than(reused),
        ).map_values(create()) + self.graph.units.map_values(
            insert_into(Container::Subgraph(self.id)),
        ) + self.graph.connections.map_values(link()) + self.inputs.map_values(expose(self.id))
    }
}

/// Appends to `commands` one command for each unit of `units`: with
/// `reused` given, the creation of each unit but that one; without it, the
/// insertion of each unit into `container`.
fn push_units(
    commands: &mut Vec<Command>,
    units: &Vec<Unit>,
    reused: Option<UnitId>,
    container: Container,
)
    ensures
        final(commands)@ == old(commands)@ + match reused {
            Some(id) => units@.filter(other_than(id)).map_values(create()),
            None => units@.map_values(insert_into(container)),
        },
{
    let ghost before = commands@;
    let mut i: usize = 0;
    proof {
        if let Some(id) = reused {
            units@.take(0).lemma_filter_len(other_than(id));
        }
    }
    while i < units.len()
        invariant
            i <= units.len(),
            commands@ =~= before + match reused {
                Some(id) => units@.take(i as int).filter(other_than(id)).map_values(create()),
                None => units@.take(i as int).map_values(insert_into(container)),
            },
        decreases units.len() - i,
    {
        let u = units[i];
        proof {
            assert(units@.take(i + 1) =~= units@.take(i as int).push(u));
            if let Some(id) = reused {
                units@.take(i as int).lemma_filter_push(u, other_than(id));
            }
        }
        match reused {
            Some(id) => {
                if u.id != id {
                    commands.push(Command::Create(u));
                }
            },
            None => {
                commands.push(Command::Insert { container, member: u });
            },
        }
        i = i + 1;
    }
    assert(units@.take(i as int) =~= units@);
}

/// Builds the commands that assemble `sub`, of whose units the one named
/// `reused` exists already.
pub fn assembly(sub: &Subgraph, reused: UnitId) -> (commands: Vec<Command>)
    ensures
        commands@ == sub@.assembly(reused),
{
    let mut commands: Vec<Command> = Vec::new();
    commands.push(Command::Create(sub.as_unit()));
    let units = sub.graph().units();
    push_units(&mut commands, units, Some(reused), Container::Graph);
    push_units(&mut commands, units, None, Container::Subgraph(sub.id()));
    let connections = sub.graph().connections();
    let ghost before = commands@;
    let mut k: usize = 0;
    while k < connections.len()
        invariant
            k <= connections.len(),
            commands@ =~= before + connections@.take(k as int).map_values(link()),
        decreases connections.len() - k,
    {
        proof {
            assert(connections@.take(k + 1) =~= connections@.take(k as int).push(
                connections@[k as int],
            ));
        }
        commands.push(Command::Link(connections[k]));
        k = k + 1;
    }
    assert(connections@.take(k as int) =~= connections@);
    let inputs = sub.inputs();
    let ghost before = commands@;
    let mut i: usize = 0;
    while i < inputs.len()
        invariant
            i <= inputs.len(),
            commands@ =~= before + inputs@.take(i as int).map_values(expose(sub@.id)),
        decreases inputs.len() - i,
    {
        proof {
            assert(inputs@.take(i + 1) =~= inputs@.take(i as int).push(inputs@[i as int]));
        }
        commands.push(Command::Expose { subgraph: sub.id(), target: inputs[i] });
        i = i + 1;
    }
    assert(inputs@.take(i as int) =~= inputs@);
    assert(commands@ =~= sub@.assembly(reused));
    commands
}

} // verus!
