//! The decisions of a connection's worker: what to do next, given what just happened.
use crate::iso8583::mli::MLIType;
use vstd::prelude::*;

verus! {

/// Where a connection stands.
#[derive(Clone, Copy, Debug, PartialEq, Eq, Structural)]
pub enum ConnState {
    /// Waiting for the length indicator of the next frame.
    ReadMli,
    /// Waiting for the body of a frame, of the length given.
    ReadBody(u32),
    /// Waiting for the handler's answer to a body.
    Handling,
    /// Done with: nothing more is read or written.
    Closed,
}

/// What just happened on a connection.
#[derive(Debug)]
pub enum ConnEvent {
    /// A length indicator was read; the payload length it declares.
    MliRead(u32),
    /// The body was read in full.
    BodyRead,
    /// The handler answered with these response bytes.
    Handled(Vec<u8>),
    /// The handler failed on the message.
    HandlerFailed,
    /// A read or a write failed, or the peer closed.
    IoFailed,
}

/// What the worker is to do next.
#[derive(Debug)]
pub enum ConnAction {
    /// Read a length indicator.
    ReadMli,
    /// Read exactly this many bytes.
    ReadBody(u32),
    /// Hand the body to the handler.
    Dispatch,
    /// Write this frame and flush, then read a length indicator.
    Send(Vec<u8>),
    /// Give the connection up.
    Close,
}

/// The state that follows `state` on `event`.
///
/// A failed read or write closes the connection. A frame of length zero is
/// skipped. A failed handler, or a response too long to frame, costs that
/// message only: the connection goes on with the next frame. An event that
/// the state does not wait for closes the connection.
pub open spec fn next_state(state: ConnState, event: ConnEvent) -> ConnState {
    match (state, event) {
        (ConnState::ReadMli, ConnEvent::MliRead(n)) => if n == 0 {
            ConnState::ReadMli
        } else {
            ConnState::ReadBody(n)
        },
        (ConnState::ReadBody(n), ConnEvent::BodyRead) => ConnState::Handling,
        (ConnState::Handling, ConnEvent::Handled(response)) => ConnState::ReadMli,
        (ConnState::Handling, ConnEvent::HandlerFailed) => ConnState::ReadMli,
        _ => ConnState::Closed,
    }
}

/// Whether `action` is what the worker is to do on `event` in `state`.
pub open spec fn is_next_action(
    mli: MLIType,
    state: ConnState,
    event: ConnEvent,
    action: ConnAction,
) -> bool {
    match (state, event) {
        (ConnState::ReadMli, ConnEvent::MliRead(n)) => if n == 0 {
            action is ReadMli
        } else {
            action == ConnAction::ReadBody(n)
        },
        (ConnState::ReadBody(n), ConnEvent::BodyRead) => action is Dispatch,
        (ConnState::Handling, ConnEvent::Handled(response)) => if response@.len()
            <= mli.max_payload() {
            action matches ConnAction::Send(frame) && frame@ == mli.indicator(response@.len())
                + response@
        } else {
            action is ReadMli
        },
        (ConnState::Handling, ConnEvent::HandlerFailed) => action is ReadMli,
        _ => action is Close,
    }
}

/// The worker's next step: the state to go to and the action to take.
pub fn step(mli: &MLIType, state: ConnState, event: ConnEvent) -> (r: (ConnState, ConnAction))
    ensures
        r.0 == next_state(state, event),
        is_next_action(*mli, state, event, r.1),
{
    match state {
        ConnState::ReadMli => match event {
            ConnEvent::MliRead(n) => if n == 0 {
                (ConnState::ReadMli, ConnAction::ReadMli)
            } else {
                (ConnState::ReadBody(n), ConnAction::ReadBody(n))
            },
            _ => (ConnState::Closed, ConnAction::Close),
        },
        ConnState::ReadBody(_) => match event {
            ConnEvent::BodyRead => (ConnState::Handling, ConnAction::Dispatch),
            _ => (ConnState::Closed, ConnAction::Close),
        },
        ConnState::Handling => match event {
            ConnEvent::Handled(response) => match mli.frame(&response) {
                Ok(frame) => (ConnState::ReadMli, ConnAction::Send(frame)),
                Err(_) => (ConnState::ReadMli, ConnAction::ReadMli),
            },
            ConnEvent::HandlerFailed => (ConnState::ReadMli, ConnAction::ReadMli),
            _ => (ConnState::Closed, ConnAction::Close),
        },
        ConnState::Closed => (ConnState::Closed, ConnAction::Close),
    }
}

} // verus!
