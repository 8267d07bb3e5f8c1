//! The consumer's side of the event bus: what `recv` does at each step.
//!
//! `recv` pops without waiting, registers for the next wake-up, pops again,
//! and only then decides between finishing (no producer is left) and waiting,
//! bounded by [`WAKE_TIMEOUT_SECS`]. Registering before the second pop means a
//! push and wake-up that race the first pop are never missed.
use vstd::prelude::*;

verus! {

/// Longest wait, in seconds, before the consumer looks at the queue again.
pub const WAKE_TIMEOUT_SECS: u64 = 1;

/// How far one round of `recv` has come.
#[derive(Clone, Copy, PartialEq, Eq, Structural, Debug)]
pub enum RecvStage {
    /// Nothing registered yet: the first, non-blocking pop.
    Fresh,
    /// Registered for the next wake-up: the second pop.
    Armed,
}

/// What `recv` does next.
#[derive(Clone, Copy, PartialEq, Eq, Debug)]
pub enum RecvStep<E> {
    /// Hand the popped envelope to the caller.
    Deliver(E),
    /// Register for the next wake-up, then pop again.
    Arm,
    /// No producer is left and nothing is queued: report the end.
    Finish,
    /// Await the wake-up or the timeout, then start a new round.
    Wait,
}

/// The step that follows a pop that gave `popped`, at `stage`, when
/// `producers_remain` tells whether any producer handle is still alive.
pub open spec fn recv_next<E>(stage: RecvStage, popped: Option<E>, producers_remain: bool) -> RecvStep<
    E,
> {
    match popped {
        Some(e) => RecvStep::Deliver(e),
        None => match stage {
            RecvStage::Fresh => RecvStep::Arm,
            RecvStage::Armed => if producers_remain {
                RecvStep::Wait
            } else {
                RecvStep::Finish
            },
        },
    }
}

/// Whether any producer is alive, given how many handles share the bus; the
/// consumer holds one of them itself.
pub fn producers_remain(handles: usize) -> (r: bool)
    ensures
        r == (handles > 1),
{
    handles > 1
}

/// Decides the next step of `recv` after a pop.
pub fn recv_step<E>(stage: RecvStage, popped: Option<E>, producers_remain: bool) -> (r: RecvStep<E>)
    ensures
        r == recv_next(stage, popped, producers_remain),
{
    match popped {
        Some(e) => RecvStep::Deliver(e),
        None => match stage {
            RecvStage::Fresh => RecvStep::Arm,
            RecvStage::Armed => {
                if producers_remain {
                    RecvStep::Wait
                } else {
                    RecvStep::Finish
                }
            },
        },
    }
}

/// A popped envelope is always delivered, whatever the stage and whether or
/// not producers remain; `recv` ends only after a pop made once registered for
/// wake-ups came back empty with no producer left.
pub proof fn lemma_recv_never_drops<E>(stage: RecvStage, popped: Option<E>, producers_remain: bool)
    ensures
        popped.is_some() ==> recv_next(stage, popped, producers_remain) == RecvStep::Deliver(
            popped.unwrap(),
        ),
        recv_next(stage, popped, producers_remain) == RecvStep::<E>::Finish ==> popped.is_none()
            && stage == RecvStage::Armed && !producers_remain,
        recv_next(stage, popped, producers_remain) == RecvStep::<E>::Wait ==> popped.is_none()
            && stage == RecvStage::Armed && producers_remain,
{
}

} // verus!
