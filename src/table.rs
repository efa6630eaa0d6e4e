//! The table of live sessions, keyed by session key.
//!
//! A session is added under a fresh key and then found from either of its
//! two tokens; removing it by either token removes both halves at once.
//! Keys are handed out in increasing order and never reused, so a readiness
//! event still queued for a removed session finds nothing.
use std::collections::hash_map::Entry;
use std::collections::HashMap;
use vstd::prelude::*;
use crate::token::{decode_token, is_session_key, route_of, token_of, Route, Side};

verus! {

broadcast use vstd::std_specs::hash::group_hash_axioms;

/// Where a readiness event is to go.
#[derive(Clone, Copy, Debug, PartialEq, Eq, Structural)]
pub enum Dispatch {
    /// The listening socket: accept pending connections.
    Accept,
    /// One half of a live session: pump from that half to the other.
    Pump { key: usize, side: Side },
    /// A session that is gone, or a token no session ever had.
    Stale,
}

/// The session that token `t` belongs to, if it belongs to one.
pub open spec fn session_of(t: int) -> Option<usize> {
    match route_of(t) {
        Route::Listener => None,
        Route::Half { key, .. } => Some(key),
    }
}

/// Where an event for token `t` goes, given the live sessions `m`.
pub open spec fn dispatch_of<T>(m: Map<usize, T>, t: int) -> Dispatch {
    match route_of(t) {
        Route::Listener => Dispatch::Accept,
        Route::Half { key, side } => if m.contains_key(key) {
            Dispatch::Pump { key, side }
        } else {
            Dispatch::Stale
        },
    }
}

/// The live sessions after removing the one that token `t` belongs to.
pub open spec fn removed<T>(m: Map<usize, T>, t: int) -> Map<usize, T> {
    match session_of(t) {
        Some(k) => m.remove(k),
        None => m,
    }
}

/// What removing by token `t` hands back: the session, if it was live.
pub open spec fn taken<T>(m: Map<usize, T>, t: int) -> Option<T> {
    match session_of(t) {
        Some(k) => if m.contains_key(k) {
            Some(m[k])
        } else {
            None
        },
        None => None,
    }
}

/// Every live key is a session key below the next one to be handed out,
/// which is itself odd.
pub open spec fn keys_valid<T>(m: Map<usize, T>, next: int) -> bool {
    &&& next % 2 == 1
    &&& 0 < next <= usize::MAX
    &&& forall|k: usize| #[trigger] m.contains_key(k) ==> is_session_key(k as int) && k < next
}

/// Once a session is removed, by either of its tokens, events for both of
/// its tokens are stale: nothing more is dispatched to it.
pub proof fn lemma_removed_session_is_stale<T>(m: Map<usize, T>, next: int, t: int, side: Side)
    requires
        keys_valid(m, next),
        0 < t < usize::MAX,
    ensures
        session_of(t) matches Some(k) && dispatch_of(removed(m, t), token_of(k as int, side))
            == Dispatch::Stale,
{
    crate::token::lemma_route_inverts(t);
    let k = session_of(t).unwrap();
    crate::token::lemma_tokens_round_trip(k as int, side);
}

/// The two tokens of a live session lead to that same session, each from its
/// own side; and whichever half an event names, the other half's token leads
/// to the same session too.
pub proof fn lemma_halves_share_session<T>(m: Map<usize, T>, next: int, t: int)
    requires
        keys_valid(m, next),
        0 <= t <= usize::MAX,
        dispatch_of(m, t) matches Dispatch::Pump { .. },
    ensures
        dispatch_of(m, t) matches Dispatch::Pump { key, side } && {
            &&& m.contains_key(key)
            &&& token_of(key as int, side) == t
            &&& dispatch_of(m, token_of(key as int, Side::Client)) == (Dispatch::Pump {
                key,
                side: Side::Client,
            })
            &&& dispatch_of(m, token_of(key as int, Side::Upstream)) == (Dispatch::Pump {
                key,
                side: Side::Upstream,
            })
        },
{
    if let Route::Half { key, side } = route_of(t) {
        assert(is_session_key(key as int));
        crate::token::lemma_tokens_round_trip(key as int, Side::Client);
        crate::token::lemma_tokens_round_trip(key as int, Side::Upstream);
    }
}

/// A session added under the next key shares no token with any session
/// already live, and leaves every one of them as it was.
pub proof fn lemma_sessions_independent<T>(m: Map<usize, T>, next: int, v: T)
    requires
        keys_valid(m, next),
        next < usize::MAX,
    ensures
        keys_valid(m.insert(next as usize, v), next + 2),
        !m.contains_key(next as usize),
        forall|k: usize, s1: Side, s2: Side|
            #![trigger m.contains_key(k), token_of(k as int, s1), token_of(next, s2)]
            m.contains_key(k) ==> token_of(k as int, s1) != token_of(next, s2),
        forall|k: usize| #[trigger]
            m.contains_key(k) ==> m.insert(next as usize, v)[k] == m[k],
{
    assert forall|k: usize, s1: Side, s2: Side|
        #![trigger m.contains_key(k), token_of(k as int, s1), token_of(next, s2)]
        m.contains_key(k) implies token_of(k as int, s1) != token_of(next, s2) by {
        crate::token::lemma_tokens_disjoint(k as int, s1, next, s2);
    }
}

/// Removing a session that is already gone changes nothing and hands
/// nothing back.
pub proof fn lemma_remove_idempotent<T>(m: Map<usize, T>, t: int)
    ensures
        removed(removed(m, t), t) == removed(m, t),
        taken(removed(m, t), t) == None::<T>,
{
    if let Some(k) = session_of(t) {
        assert(m.remove(k).remove(k) == m.remove(k));
    }
}

/// The key the `i`-th of several sessions added in a row gets, counting from
/// the table's next key.
pub open spec fn nth_key(next: int, i: int) -> int {
    next + 2 * i
}

/// The live sessions after adding `vs` one after another, starting at key
/// `next`, as [`SessionTable::insert`] does.
pub open spec fn insert_all<T>(m: Map<usize, T>, next: int, vs: Seq<T>) -> Map<usize, T>
    decreases vs.len(),
{
    if vs.len() == 0 {
        m
    } else {
        insert_all(m, next, vs.drop_last()).insert(
            nth_key(next, vs.len() - 1) as usize,
            vs.last(),
        )
    }
}

/// Adding N sessions gives N sessions, each under its own key and holding
/// its own value, with no token shared between any two of them or with a
/// session that was already live, which stay as they were.
pub proof fn lemma_many_sessions_independent<T>(m: Map<usize, T>, next: int, vs: Seq<T>)
    requires
        keys_valid(m, next),
        next + 2 * vs.len() <= usize::MAX,
    ensures
        keys_valid(insert_all(m, next, vs), next + 2 * vs.len()),
        forall|i: int|
            0 <= i < vs.len() ==> {
                &&& is_session_key(#[trigger] nth_key(next, i))
                &&& !m.contains_key(nth_key(next, i) as usize)
                &&& insert_all(m, next, vs).contains_key(nth_key(next, i) as usize)
                &&& insert_all(m, next, vs)[nth_key(next, i) as usize] == vs[i]
            },
        forall|i: int, j: int, s1: Side, s2: Side|
            #![trigger token_of(nth_key(next, i), s1), token_of(nth_key(next, j), s2)]
            0 <= i < vs.len() && 0 <= j < vs.len() && i != j ==> token_of(nth_key(next, i), s1)
                != token_of(nth_key(next, j), s2),
        forall|k: usize| #[trigger]
            m.contains_key(k) ==> insert_all(m, next, vs).contains_key(k) && insert_all(
                m,
                next,
                vs,
            )[k] == m[k],
    decreases vs.len(),
{
    if vs.len() > 0 {
        let n = vs.len() - 1;
        let prev = vs.drop_last();
        lemma_many_sessions_independent(m, next, prev);
        let kn = nth_key(next, n);
        assert forall|i: int| 0 <= i < vs.len() implies {
            &&& is_session_key(#[trigger] nth_key(next, i))
            &&& !m.contains_key(nth_key(next, i) as usize)
            &&& insert_all(m, next, vs).contains_key(nth_key(next, i) as usize)
            &&& insert_all(m, next, vs)[nth_key(next, i) as usize] == vs[i]
        } by {
            if i < n {
                assert(prev[i] == vs[i]);
            }
        }
        assert forall|i: int, j: int, s1: Side, s2: Side|
            #![trigger token_of(nth_key(next, i), s1), token_of(nth_key(next, j), s2)]
            0 <= i < vs.len() && 0 <= j < vs.len() && i != j implies token_of(nth_key(next, i), s1)
            != token_of(nth_key(next, j), s2) by {
            crate::token::lemma_tokens_disjoint(nth_key(next, i), s1, nth_key(next, j), s2);
        }
    }
}

/// The live sessions of one relay, each holding a `T`.
pub struct SessionTable<T> {
    sessions: HashMap<usize, T>,
    next_key: usize,
}

impl<T> View for SessionTable<T> {
    type V = Map<usize, T>;

    closed spec fn view(&self) -> Map<usize, T> {
        self.sessions@
    }
}

impl<T> SessionTable<T> {
    /// The key the next session added will get.
    pub closed spec fn next(&self) -> int {
        self.next_key as int
    }

    pub open spec fn wf(&self) -> bool {
        keys_valid(self@, self.next())
    }

    /// An empty table.
    pub fn new() -> (t: Self)
        ensures
            t.wf(),
            t@ == Map::<usize, T>::empty(),
            t.next() == 1,
    {
        SessionTable { sessions: HashMap::new(), next_key: 1 }
    }

    /// The key that the next session added would get, unless the keys are
    /// used up.
    pub fn next_session_key(&self) -> (r: Option<usize>)
        requires
            self.wf(),
        ensures
            r == (if self.next() < usize::MAX {
                Some(self.next() as usize)
            } else {
                None
            }),
            r matches Some(k) ==> is_session_key(k as int) && !self@.contains_key(k),
    {
        if self.next_key < usize::MAX {
            Some(self.next_key)
        } else {
            None
        }
    }

    /// Adds a session under the next key, which is returned.
    pub fn insert(&mut self, value: T) -> (key: usize)
        requires
            old(self).wf(),
            old(self).next() < usize::MAX,
        ensures
            final(self).wf(),
            key as int == old(self).next(),
            is_session_key(key as int),
            !old(self)@.contains_key(key),
            final(self)@ == old(self)@.insert(key, value),
            final(self).next() == key + 2,
    {
        let key = self.next_key;
        self.sessions.insert(key, value);
        self.next_key = key + 2;
        key
    }

    /// Where an event for `token` is to go.
    pub fn route(&self, token: usize) -> (d: Dispatch)
        requires
            self.wf(),
        ensures
            d == dispatch_of(self@, token as int),
    {
        match decode_token(token) {
            Route::Listener => Dispatch::Accept,
            Route::Half { key, side } => if self.sessions.contains_key(&key) {
                Dispatch::Pump { key, side }
            } else {
                Dispatch::Stale
            },
        }
    }

    /// The session under `key`, to work on in place.
    pub fn get_mut(&mut self, key: usize) -> (r: Option<&mut T>)
        requires
            old(self).wf(),
        ensures
            final(self).next() == old(self).next(),
            match r {
                Some(v) => {
                    &&& old(self)@.contains_key(key)
                    &&& *v == old(self)@[key]
                    &&& final(self)@ == old(self)@.insert(key, *final(v))
                },
                None => !old(self)@.contains_key(key) && final(self)@ == old(self)@,
            },
    {
        match self.sessions.entry(key) {
            Entry::Occupied(o) => Some(o.into_mut()),
            Entry::Vacant(_) => None,
        }
    }

    /// Removes the session that `token` belongs to, both halves at once, and
    /// hands it back. A token of a session already gone, or the listener's,
    /// changes nothing.
    pub fn remove(&mut self, token: usize) -> (r: Option<T>)
        requires
            old(self).wf(),
        ensures
            final(self).wf(),
            final(self).next() == old(self).next(),
            final(self)@ == removed(old(self)@, token as int),
            r == taken(old(self)@, token as int),
    {
        match decode_token(token) {
            Route::Listener => None,
            Route::Half { key, .. } => self.sessions.remove(&key),
        }
    }
}

} // verus!
