//! The dynamic attachment callback.
//!
//! The demultiplexer discovers its output ports while the graph runs, and
//! announces each on the graph's own notification context. The callback
//! then moves the fan-out subgraph onto the new port. It holds the
//! subgraph by a weak reference only: where a later source has replaced
//! the subgraph, or the graph is gone, the callback does nothing.

use crate::command::Command;
use crate::manager::{GstManager, ManagerView};
use crate::unit::UnitId;
use vstd::prelude::*;

verus! {

/// How far a callback has come.
#[derive(Clone, Copy, Debug, PartialEq, Eq, Structural)]
pub enum CallbackState {
    /// Not installed on a demultiplexer.
    Unregistered,
    /// Installed; no attachment stands.
    RegisteredWaiting,
    /// The last firing attached the subgraph.
    FiredSuccess,
    /// A firing found the graph or the subgraph gone.
    FiredGraphGone,
}

/// An attachment did not come about: the real graph refused the step
/// named.
#[derive(Clone, Copy, Debug, PartialEq, Eq, Structural)]
pub enum AttachError {
    Rejected(Command),
}

/// The callback of one demultiplexer.
#[derive(Clone, Copy, Debug, PartialEq, Eq, Structural)]
pub struct AttachCallback {
    /// Weak reference to the fan-out subgraph: its identifier, which
    /// resolves as long as the subgraph is the one of the loaded source.
    pub subgraph: UnitId,
    pub state: CallbackState,
}

impl AttachCallback {
    /// A callback for `subgraph` that is installed and waits.
    pub open spec fn waiting_for(subgraph: UnitId) -> AttachCallback {
        AttachCallback { subgraph, state: CallbackState::RegisteredWaiting }
    }

    /// A callback for `subgraph`, not yet installed.
    pub fn new(subgraph: UnitId) -> (callback: AttachCallback)
        ensures
            callback == (AttachCallback { subgraph, state: CallbackState::Unregistered }),
    {
        AttachCallback { subgraph, state: CallbackState::Unregistered }
    }

    /// A callback for `subgraph` that is installed and waits.
    pub fn waiting(subgraph: UnitId) -> (callback: AttachCallback)
        ensures
            callback == AttachCallback::waiting_for(subgraph),
    {
        AttachCallback { subgraph, state: CallbackState::RegisteredWaiting }
    }

    /// Whether the weak references resolve: the graph is there, and the
    /// subgraph is the one of the source that is loaded.
    pub open spec fn resolves_in(self, graph: Option<ManagerView>) -> bool {
        graph matches Some(m) && m.resolves(self.subgraph)
    }

    /// Whether a firing attaches: the callback is installed and its
    /// references resolve.
    pub open spec fn attaches(self, graph: Option<ManagerView>) -> bool {
        self.state != CallbackState::Unregistered && self.resolves_in(graph)
    }

    /// The callback once installed.
    pub open spec fn registered(self) -> AttachCallback {
        if self.state == CallbackState::Unregistered {
            AttachCallback { state: CallbackState::RegisteredWaiting, ..self }
        } else {
            self
        }
    }

    /// The callback after a firing. One that is not installed stays as it
    /// is; one whose references resolve has attached; any other has found
    /// the graph gone.
    pub open spec fn fired(self, graph: Option<ManagerView>) -> AttachCallback {
        if self.state == CallbackState::Unregistered {
            self
        } else if self.resolves_in(graph) {
            AttachCallback { state: CallbackState::FiredSuccess, ..self }
        } else {
            AttachCallback { state: CallbackState::FiredGraphGone, ..self }
        }
    }

    /// The callback after the real graph refused its attachment: it waits
    /// again.
    pub open spec fn failed(self) -> AttachCallback {
        if self.state == CallbackState::FiredSuccess {
            AttachCallback { state: CallbackState::RegisteredWaiting, ..self }
        } else {
            self
        }
    }

    /// Installs the callback: from now on it waits for an output port.
    pub fn register(&mut self)
        ensures
            *final(self) == old(self).registered(),
    {
        match self.state {
            CallbackState::Unregistered => {
                self.state = CallbackState::RegisteredWaiting;
            },
            _ => {},
        }
    }

    /// Runs the callback for output port `port`, which the demultiplexer
    /// has discovered. `graph` is what the weak reference to the manager
    /// resolved to.
    ///
    /// Where the graph is gone, or the subgraph is no longer the one of
    /// the loaded source, the callback records that and touches nothing.
    /// Else the subgraph is taken out of the graph and put back, brought
    /// to the graph's run state and linked to the port; the commands that
    /// do the same to the real graph are handed back. A callback that was
    /// never installed does nothing.
    pub fn fire(&mut self, graph: Option<&mut GstManager>, port: u32) -> (commands: Vec<Command>)
        requires
            graph matches Some(m) ==> m.wf(),
        ensures
            *final(self) == old(self).fired(
                match graph {
                    Some(m) => Some(m@),
                    None => None,
                },
            ),
            match graph {
                Some(m) => {
                    &&& final(m).wf()
                    &&& final(m)@ == if old(self).attaches(Some(m@)) {
                        m@.attached(port)
                    } else {
                        m@
                    }
                    &&& commands@ == if old(self).attaches(Some(m@)) {
                        m@.attach_commands(port)
                    } else {
                        Seq::<Command>::empty()
                    }
                },
                None => commands@ == Seq::<Command>::empty(),
            },
    {
        match self.state {
            CallbackState::Unregistered => {
                return Vec::new();
            },
            _ => {},
        }
        match graph {
            Some(manager) => {
                if manager.resolves(self.subgraph) {
                    self.state = CallbackState::FiredSuccess;
                    manager.attach(port)
                } else {
                    self.state = CallbackState::FiredGraphGone;
                    Vec::new()
                }
            },
            None => {
                self.state = CallbackState::FiredGraphGone;
                Vec::new()
            },
        }
    }

    /// Records that the real graph refused step `failed` of the commands
    /// that the last firing gave. The attempt is over: the link is undone
    /// in the manager, where the subgraph is still the one of the loaded
    /// source, and the callback waits again. The rest of the graph stays
    /// as it is. Hands back the error to report.
    pub fn attach_failed(&mut self, graph: Option<&mut GstManager>, failed: Command) -> (e:
        AttachError)
        requires
            graph matches Some(m) ==> m.wf(),
        ensures
            *final(self) == old(self).failed(),
            e == AttachError::Rejected(failed),
            graph matches Some(m) ==> final(m).wf() && final(m)@ == if m@.resolves(
                old(self).subgraph,
            ) {
                m@.detached()
            } else {
                m@
            },
    {
        match self.state {
            CallbackState::FiredSuccess => {
                self.state = CallbackState::RegisteredWaiting;
            },
            _ => {},
        }
        match graph {
            Some(manager) => {
                if manager.resolves(self.subgraph) {
                    manager.detach();
                }
            },
            None => {},
        }
        AttachError::Rejected(failed)
    }
}

} // verus!
