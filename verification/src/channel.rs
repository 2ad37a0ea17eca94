//! The producer side of the bounded byte channel that carries SSE frames
//! from the pipeline to the HTTP response writer. Sends never block: a
//! full channel drops the frame (freshness over completeness), a closed
//! channel — the consumer is gone — ends the producer within that one
//! call.
use vstd::prelude::*;
use crate::sse::Event;
use crate::sse::frame;
use crate::sse::frame_bytes;

verus! {

#[verifier::external_type_specification]
#[verifier::external_body]
#[verifier::reject_recursive_types(T)]
pub struct ExSender<T>(tokio::sync::mpsc::Sender<T>);

/// How one non-blocking send ended. On `Full` and `Closed` the frame
/// came back undelivered.
pub enum SendOutcome {
    Sent,
    Full(Vec<u8>),
    Closed(Vec<u8>),
}

/// Relies on `tokio::sync::mpsc::Sender::try_send`: it never waits, and
/// on failure it returns the message inside the error — `Full` when the
/// channel is at capacity, `Closed` when the receiver half was dropped.
#[verifier::external_body]
fn try_send_bytes(tx: &tokio::sync::mpsc::Sender<Vec<u8>>, payload: Vec<u8>) -> (r: SendOutcome)
    ensures
        (r matches SendOutcome::Full(p) ==> p@ == payload@),
        (r matches SendOutcome::Closed(p) ==> p@ == payload@),
{
    match tx.try_send(payload) {
        Ok(()) => SendOutcome::Sent,
        Err(tokio::sync::mpsc::error::TrySendError::Full(p)) => SendOutcome::Full(p),
        Err(tokio::sync::mpsc::error::TrySendError::Closed(p)) => SendOutcome::Closed(p),
    }
}

/// Frames `e` and offers the frame to the channel without blocking.
/// Whatever the outcome, the bytes offered — delivered or returned —
/// are exactly the frame of `e`.
pub fn emit_event(tx: &tokio::sync::mpsc::Sender<Vec<u8>>, e: &Event) -> (r: SendOutcome)
    ensures
        (r matches SendOutcome::Full(p) ==> p@ == frame_bytes(e@)),
        (r matches SendOutcome::Closed(p) ==> p@ == frame_bytes(e@)),
{
    let b = frame(e);
    try_send_bytes(tx, b)
}

/// What the producer does after one send.
pub enum ProducerStep {
    Continue,
    Stop,
}

/// The producer's backpressure and disconnection policy: a dropped
/// frame (channel full) is not an error and the producer goes on; only
/// a closed channel stops it, so closure is detected within one send.
pub fn producer_step(r: &SendOutcome) -> (a: ProducerStep)
    ensures
        a is Stop <==> r is Closed,
{
    match r {
        SendOutcome::Closed(_) => ProducerStep::Stop,
        _ => ProducerStep::Continue,
    }
}

} // verus!
