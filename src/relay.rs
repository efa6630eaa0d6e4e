//! The decisions of the relay's event loop: accepting connections, setting
//! up their sessions, and what becomes of a session after its pump ran.
use vstd::prelude::*;
use crate::pump::Verdict;
use crate::table::{removed, session_of, taken, SessionTable};
use crate::token::{decode_token, is_session_key, token_for, token_of, Interest, Route, Side};

verus! {

/// What came of one accept on the listening socket.
#[derive(Clone, Copy, Debug, PartialEq, Eq, Structural)]
pub enum AcceptOutcome {
    Accepted,
    WouldBlock,
    Failed,
}

/// What the loop does after an accept.
#[derive(Clone, Copy, Debug, PartialEq, Eq, Structural)]
pub enum AcceptAction {
    /// Dial the upstream for the accepted connection, then accept again.
    Dial,
    /// No connection is pending: go back to waiting for events.
    StopDraining,
    /// The listener is broken: the server stops with this error.
    Fatal,
}

/// What becomes of an accepted connection once the upstream was dialled.
#[derive(Clone, Copy, Debug, PartialEq, Eq, Structural)]
pub enum Admission {
    /// Register both sockets under these tokens with this interest, then add
    /// the session to the table.
    Register { key: usize, client_token: usize, upstream_token: usize, interest: Interest },
    /// Drop the accepted connection and carry on.
    Reject,
}

/// Where one half of a session stands after an event.
#[derive(Clone, Copy, Debug, PartialEq, Eq, Structural)]
pub struct HalfState {
    /// The half is still to be read from: it has not ended, and what it sent
    /// that waits for its peer is under the limit.
    pub reading: bool,
    /// Bytes wait to be written to the half.
    pub backlogged: bool,
}

/// How a half of a live session is to be watched.
#[derive(Clone, Copy, Debug, PartialEq, Eq, Structural)]
pub enum Watch {
    Subscribe(Interest),
    /// Nothing to read from it and nothing to write to it: take it off the
    /// multiplexer until that changes.
    Pause,
}

/// What the loop does with a half's registration.
#[derive(Clone, Copy, Debug, PartialEq, Eq, Structural)]
pub enum Registration {
    Register(Interest),
    Reregister(Interest),
    Deregister,
    Leave,
}

/// Which pumps an event for one half runs.
#[derive(Clone, Copy, Debug, PartialEq, Eq, Structural)]
pub struct EventPlan {
    /// Pump from the half the event names to its peer.
    pub pump_outward: bool,
    /// Write the bytes waiting for the half the event names.
    pub flush_inward: bool,
}

/// What becomes of a session after its pump ran.
pub enum Settlement<T> {
    /// The session stays; watch each half under its token as given.
    Keep {
        client_token: usize,
        client_watch: Watch,
        upstream_token: usize,
        upstream_watch: Watch,
    },
    /// The session was taken out of the table: deregister both its sockets.
    /// Nothing comes back when it was already gone.
    Teardown(Option<T>),
}

/// The loop's step after an accept.
pub open spec fn accept_action_of(outcome: AcceptOutcome) -> AcceptAction {
    match outcome {
        AcceptOutcome::Accepted => AcceptAction::Dial,
        AcceptOutcome::WouldBlock => AcceptAction::StopDraining,
        AcceptOutcome::Failed => AcceptAction::Fatal,
    }
}

/// Accepting is drained until it would block; any other failure ends the
/// server.
pub fn on_accept(outcome: AcceptOutcome) -> (a: AcceptAction)
    ensures
        a == accept_action_of(outcome),
{
    match outcome {
        AcceptOutcome::Accepted => AcceptAction::Dial,
        AcceptOutcome::WouldBlock => AcceptAction::StopDraining,
        AcceptOutcome::Failed => AcceptAction::Fatal,
    }
}

/// Decides whether an accepted connection becomes a session. A failed dial,
/// or a table whose keys are used up, rejects that one connection only.
/// Otherwise both halves are registered for reading and writing under the
/// tokens of the next key.
pub fn on_dial<T>(table: &SessionTable<T>, dialled: bool) -> (r: Admission)
    requires
        table.wf(),
    ensures
        !dialled ==> r == Admission::Reject,
        dialled && table.next() == usize::MAX ==> r == Admission::Reject,
        dialled && table.next() < usize::MAX ==> r == (Admission::Register {
            key: table.next() as usize,
            client_token: token_of(table.next(), Side::Client) as usize,
            upstream_token: token_of(table.next(), Side::Upstream) as usize,
            interest: Interest::Both,
        }),
        r matches Admission::Register { key, .. } ==> is_session_key(key as int)
            && !table@.contains_key(key),
{
    if !dialled {
        return Admission::Reject;
    }
    match table.next_session_key() {
        Some(key) => Admission::Register {
            key,
            client_token: crate::token::token_for(key, Side::Client),
            upstream_token: crate::token::token_for(key, Side::Upstream),
            interest: Interest::Both,
        },
        None => Admission::Reject,
    }
}

/// The halves a pump for an event on `side` works on, as (source,
/// destination): from the named half to its peer, never the other way.
pub fn directed<'a, S>(client: &'a mut S, upstream: &'a mut S, side: Side) -> (r: (
    &'a mut S,
    &'a mut S,
))
    ensures
        side == Side::Client ==> {
            &&& *r.0 == *old(client)
            &&& *r.1 == *old(upstream)
            &&& *final(client) == *final(r.0)
            &&& *final(upstream) == *final(r.1)
        },
        side == Side::Upstream ==> {
            &&& *r.0 == *old(upstream)
            &&& *r.1 == *old(client)
            &&& *final(upstream) == *final(r.0)
            &&& *final(client) == *final(r.1)
        },
{
    match side {
        Side::Client => (client, upstream),
        Side::Upstream => (upstream, client),
    }
}

/// The pumps an event runs: reading from the named half when it is readable,
/// and flushing the bytes that wait for it when it is writable.
pub open spec fn plan_of(readable: bool, writable: bool, inward_backlogged: bool) -> EventPlan {
    EventPlan { pump_outward: readable, flush_inward: writable && inward_backlogged }
}

/// Decides which pumps an event for one half runs.
pub fn plan_event(readable: bool, writable: bool, inward_backlogged: bool) -> (r: EventPlan)
    ensures
        r == plan_of(readable, writable, inward_backlogged),
{
    EventPlan { pump_outward: readable, flush_inward: writable && inward_backlogged }
}

/// What a half is watched for: readability only while it is still to be
/// read, writability only while bytes wait for it, and neither (paused)
/// when both are over for now. A half whose reading is throttled or whose
/// stream has ended is thus never reported readable again and again.
pub open spec fn watch(h: HalfState) -> Watch {
    if h.reading && h.backlogged {
        Watch::Subscribe(Interest::Both)
    } else if h.reading {
        Watch::Subscribe(Interest::Readable)
    } else if h.backlogged {
        Watch::Subscribe(Interest::Writable)
    } else {
        Watch::Pause
    }
}

/// A half that is not to be read is never subscribed for readability, so a
/// throttled or ended source is not reported readable poll after poll; and
/// a half is subscribed for writability exactly while bytes wait for it.
pub proof fn lemma_watch_avoids_spinning(h: HalfState)
    ensures
        !h.reading ==> watch(h) != Watch::Subscribe(Interest::Readable) && watch(h)
            != Watch::Subscribe(Interest::Both),
        h.reading ==> (watch(h) matches Watch::Subscribe(i) && i != Interest::Writable),
        (watch(h) == Watch::Subscribe(Interest::Writable) || watch(h) == Watch::Subscribe(
            Interest::Both,
        )) <==> h.backlogged,
        watch(h) == Watch::Pause <==> !h.reading && !h.backlogged,
{
}

/// How a half is to be watched.
pub fn watch_for(h: HalfState) -> (w: Watch)
    ensures
        w == watch(h),
{
    if h.reading && h.backlogged {
        Watch::Subscribe(Interest::Both)
    } else if h.reading {
        Watch::Subscribe(Interest::Readable)
    } else if h.backlogged {
        Watch::Subscribe(Interest::Writable)
    } else {
        Watch::Pause
    }
}

/// What brings a half's registration in line with how it is to be watched.
pub open spec fn registration_of(registered: bool, w: Watch) -> Registration {
    match w {
        Watch::Subscribe(i) => if registered {
            Registration::Reregister(i)
        } else {
            Registration::Register(i)
        },
        Watch::Pause => if registered {
            Registration::Deregister
        } else {
            Registration::Leave
        },
    }
}

/// Brings a half's registration in line with `w`; `registered` tells
/// whether the half is registered now.
pub fn registration(registered: bool, w: Watch) -> (r: Registration)
    ensures
        r == registration_of(registered, w),
{
    match w {
        Watch::Subscribe(i) => if registered {
            Registration::Reregister(i)
        } else {
            Registration::Register(i)
        },
        Watch::Pause => if registered {
            Registration::Deregister
        } else {
            Registration::Leave
        },
    }
}

/// Applies a pump's verdict for the half under `token`. A session that stays
/// open has each half watched as [`watch`] says from where it stands. One
/// that closed or failed is removed, both halves at once. A failure ends its
/// own session, never the server.
pub fn settle<T>(
    table: &mut SessionTable<T>,
    token: usize,
    verdict: Verdict,
    client: HalfState,
    upstream: HalfState,
) -> (r: Settlement<T>)
    requires
        old(table).wf(),
        0 < token < usize::MAX,
    ensures
        final(table).wf(),
        final(table).next() == old(table).next(),
        verdict == Verdict::Open ==> final(table)@ == old(table)@ && r == (Settlement::<T>::Keep {
            client_token: token_of(session_of(token as int)->0 as int, Side::Client) as usize,
            client_watch: watch(client),
            upstream_token: token_of(session_of(token as int)->0 as int, Side::Upstream) as usize,
            upstream_watch: watch(upstream),
        }),
        verdict != Verdict::Open ==> final(table)@ == removed(old(table)@, token as int) && r == (
        Settlement::<T>::Teardown(taken(old(table)@, token as int))),
{
    match verdict {
        Verdict::Open => {
            proof {
                crate::token::lemma_route_inverts(token as int);
            }
            let key = match decode_token(token) {
                Route::Half { key, .. } => key,
                Route::Listener => token,
            };
            Settlement::Keep {
                client_token: token_for(key, Side::Client),
                client_watch: watch_for(client),
                upstream_token: token_for(key, Side::Upstream),
                upstream_watch: watch_for(upstream),
            }
        },
        _ => Settlement::Teardown(table.remove(token)),
    }
}

} // verus!
