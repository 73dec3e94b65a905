//! Binding a Unix socket: a file left over from an earlier run is removed, the socket is
//! bound, and its mode is set.

use crate::files::ReadFailure;
use vstd::prelude::*;

verus! {

/// What is to be done next to bind a socket.
#[derive(Debug, Clone, Copy, PartialEq, Eq, Structural)]
pub enum SocketStep {
    /// Remove what stands at the socket's path.
    RemoveStale,
    Bind,
    SetMode,
}

/// Why a socket could not be bound, with what the system said.
#[derive(Debug)]
pub enum SocketFault {
    /// What stood at the path could not be removed, or the socket could not be bound.
    Bind(String),
    /// The socket's mode could not be set.
    Mode(String),
}

/// The model of a `SocketFault`.
pub enum SocketFaultView {
    Bind(Seq<char>),
    Mode(Seq<char>),
}

impl View for SocketFault {
    type V = SocketFaultView;

    open spec fn view(&self) -> SocketFaultView {
        match *self {
            SocketFault::Bind(message) => SocketFaultView::Bind(message@),
            SocketFault::Mode(message) => SocketFaultView::Mode(message@),
        }
    }
}

/// How binding goes on.
#[derive(Debug)]
pub enum SocketTurn {
    Next(SocketStep),
    /// The socket is bound and has its mode.
    Ready,
    Failed(SocketFault),
}

/// The model of a `SocketTurn`.
pub enum SocketTurnView {
    Next(SocketStep),
    Ready,
    Failed(SocketFaultView),
}

impl View for SocketTurn {
    type V = SocketTurnView;

    open spec fn view(&self) -> SocketTurnView {
        match *self {
            SocketTurn::Next(step) => SocketTurnView::Next(step),
            SocketTurn::Ready => SocketTurnView::Ready,
            SocketTurn::Failed(fault) => SocketTurnView::Failed(fault@),
        }
    }
}

/// Where a step leads. There being nothing to remove is as good as having removed it.
pub open spec fn socket_turn(step: SocketStep, done: Result<(), ReadFailure>) -> SocketTurnView {
    match step {
        SocketStep::RemoveStale => match done {
            Ok(_) => SocketTurnView::Next(SocketStep::Bind),
            Err(failure) => if failure.missing {
                SocketTurnView::Next(SocketStep::Bind)
            } else {
                SocketTurnView::Failed(SocketFaultView::Bind(failure.message@))
            },
        },
        SocketStep::Bind => match done {
            Ok(_) => SocketTurnView::Next(SocketStep::SetMode),
            Err(failure) => SocketTurnView::Failed(SocketFaultView::Bind(failure.message@)),
        },
        SocketStep::SetMode => match done {
            Ok(_) => SocketTurnView::Ready,
            Err(failure) => SocketTurnView::Failed(SocketFaultView::Mode(failure.message@)),
        },
    }
}

impl SocketStep {
    /// The step that binding starts with.
    pub fn first() -> (r: SocketStep)
        ensures
            r == SocketStep::RemoveStale,
    {
        SocketStep::RemoveStale
    }

    /// Takes what came of this step and tells how to go on.
    pub fn advance(self, done: Result<(), ReadFailure>) -> (r: SocketTurn)
        ensures
            r@ == socket_turn(self, done),
    {
        match self {
            SocketStep::RemoveStale => match done {
                Ok(_) => SocketTurn::Next(SocketStep::Bind),
                Err(failure) => if failure.missing {
                    SocketTurn::Next(SocketStep::Bind)
                } else {
                    SocketTurn::Failed(SocketFault::Bind(failure.message))
                },
            },
            SocketStep::Bind => match done {
                Ok(_) => SocketTurn::Next(SocketStep::SetMode),
                Err(failure) => SocketTurn::Failed(SocketFault::Bind(failure.message)),
            },
            SocketStep::SetMode => match done {
                Ok(_) => SocketTurn::Ready,
                Err(failure) => SocketTurn::Failed(SocketFault::Mode(failure.message)),
            },
        }
    }
}

/// What the three steps of binding come to, one after the other.
pub open spec fn socket_outcome(
    removed: Result<(), ReadFailure>,
    bound: Result<(), ReadFailure>,
    mode: Result<(), ReadFailure>,
) -> SocketTurnView {
    match socket_turn(SocketStep::RemoveStale, removed) {
        SocketTurnView::Next(second) => match socket_turn(second, bound) {
            SocketTurnView::Next(third) => socket_turn(third, mode),
            over => over,
        },
        over => over,
    }
}

/// A socket is ready exactly when nothing stands in its way any more, it is bound and its
/// mode is set; a file left over from an earlier run, removed or not there, is no obstacle.
pub proof fn sockets_are_ready_after_three_steps(
    removed: Result<(), ReadFailure>,
    bound: Result<(), ReadFailure>,
    mode: Result<(), ReadFailure>,
)
    ensures
        !(socket_outcome(removed, bound, mode) is Next),
        socket_outcome(removed, bound, mode) is Ready <==> {
            &&& removed is Ok || removed->Err_0.missing
            &&& bound is Ok
            &&& mode is Ok
        },
{
}

/// Each step of binding leads to the next where it was done, and there being nothing to remove is
/// as good as having removed it; one that could not be done ends binding with what the system
/// said, as a fault of binding before the socket is bound and as one of its mode after.
pub proof fn sockets_are_bound_step_by_step(
    failure: ReadFailure,
    fault: SocketFault,
    turn: SocketTurn,
)
    ensures
        socket_turn(SocketStep::RemoveStale, Ok(())) == SocketTurnView::Next(SocketStep::Bind),
        failure.missing ==> socket_turn(SocketStep::RemoveStale, Err(failure))
            == SocketTurnView::Next(SocketStep::Bind),
        !failure.missing ==> socket_turn(SocketStep::RemoveStale, Err(failure))
            == SocketTurnView::Failed(SocketFaultView::Bind(failure.message@)),
        socket_turn(SocketStep::Bind, Ok(())) == SocketTurnView::Next(SocketStep::SetMode),
        socket_turn(SocketStep::Bind, Err(failure)) == SocketTurnView::Failed(
            SocketFaultView::Bind(failure.message@),
        ),
        socket_turn(SocketStep::SetMode, Ok(())) == SocketTurnView::Ready,
        socket_turn(SocketStep::SetMode, Err(failure)) == SocketTurnView::Failed(
            SocketFaultView::Mode(failure.message@),
        ),
        match fault {
            SocketFault::Bind(message) => fault@ == SocketFaultView::Bind(message@),
            SocketFault::Mode(message) => fault@ == SocketFaultView::Mode(message@),
        },
        match turn {
            SocketTurn::Next(step) => turn@ == SocketTurnView::Next(step),
            SocketTurn::Ready => turn@ == SocketTurnView::Ready,
            SocketTurn::Failed(fault) => turn@ == SocketTurnView::Failed(fault@),
        },
{
}

} // verus!
