//! The worker state machine: one backend connection, driven by transport
//! events.  The host loop performs the receives and sends; this module
//! decides, so that the decisions are verified: a worker waits for the
//! identity envelope, then for the request frame, replies with the identity
//! it was given — unchanged — and the reply frame, and stops, rather than
//! fails, the moment the transport reports its teardown.

use vstd::prelude::*;

use crate::hal::HostInfo;
use crate::handler::handle_request;
use crate::handler::reply_frame_ok;

verus! {

/// Where a worker stands between events.
#[derive(PartialEq, Eq, Debug)]
pub enum WorkerState {
    /// Waiting for the identity envelope of the next request.
    AwaitIdentity,
    /// Holding an identity envelope, waiting for the request frame.
    AwaitRequest(Vec<u8>),
    /// The transport was torn down; the worker takes no further work.
    Stopped,
}

/// Mathematical model of a worker state.
pub enum WorkerStateS {
    AwaitIdentity,
    AwaitRequest(Seq<u8>),
    Stopped,
}

impl View for WorkerState {
    type V = WorkerStateS;

    open spec fn view(&self) -> WorkerStateS {
        match self {
            WorkerState::AwaitIdentity => WorkerStateS::AwaitIdentity,
            WorkerState::AwaitRequest(id) => WorkerStateS::AwaitRequest(id@),
            WorkerState::Stopped => WorkerStateS::Stopped,
        }
    }
}

/// What the transport reported: one received frame, or its teardown.
#[derive(PartialEq, Eq, Debug)]
pub enum WorkerEvent {
    Frame(Vec<u8>),
    Closed,
}

/// What the host loop must do next: receive another frame, send the reply
/// (identity envelope first, then the reply frame), or leave the loop.
#[derive(PartialEq, Eq, Debug)]
pub enum WorkerAction {
    Receive,
    Reply(Vec<u8>, Vec<u8>),
    Halt,
}

/// Mathematical model of an action.
pub enum WorkerActionS {
    Receive,
    Reply(Seq<u8>, Seq<u8>),
    Halt,
}

impl View for WorkerAction {
    type V = WorkerActionS;

    open spec fn view(&self) -> WorkerActionS {
        match self {
            WorkerAction::Receive => WorkerActionS::Receive,
            WorkerAction::Reply(id, body) => WorkerActionS::Reply(id@, body@),
            WorkerAction::Halt => WorkerActionS::Halt,
        }
    }
}

/// One step of the worker loop.  A teardown event stops the worker from any
/// state; a stopped worker stays stopped; an identity is answered by waiting
/// for the request frame; a request frame is answered by a reply that
/// carries the stored identity unchanged and the frame `handle_request`
/// builds for it — a frame that does not decode yields a `Fail` reply, and
/// the worker returns to waiting, able to take the next request.
pub fn worker_step(state: WorkerState, event: WorkerEvent, host: &HostInfo) -> (r: (
    WorkerState,
    WorkerAction,
))
    ensures
        event is Closed ==> r.0@ is Stopped && r.1@ is Halt,
        state@ is Stopped ==> r.0@ is Stopped && r.1@ is Halt,
        state@ is AwaitIdentity ==> (event matches WorkerEvent::Frame(id) ==> r.0@
            == WorkerStateS::AwaitRequest(id@) && r.1@ is Receive),
        state@ matches WorkerStateS::AwaitRequest(id) ==> (event matches WorkerEvent::Frame(
            body,
        ) ==> r.0@ is AwaitIdentity && (r.1@ matches WorkerActionS::Reply(rid, rbody) && rid == id
            && reply_frame_ok(host@, body@, rbody))),
{
    match (state, event) {
        (_, WorkerEvent::Closed) => (WorkerState::Stopped, WorkerAction::Halt),
        (WorkerState::Stopped, _) => (WorkerState::Stopped, WorkerAction::Halt),
        (WorkerState::AwaitIdentity, WorkerEvent::Frame(id)) => (
            WorkerState::AwaitRequest(id),
            WorkerAction::Receive,
        ),
        (WorkerState::AwaitRequest(id), WorkerEvent::Frame(body)) => {
            let reply = handle_request(&body, host);
            (WorkerState::AwaitIdentity, WorkerAction::Reply(id, reply))
        },
    }
}

} // verus!
