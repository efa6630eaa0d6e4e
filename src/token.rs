//! Readiness tokens and what they stand for.
//!
//! Token `0` is the listening socket. A session with key `k` (an odd
//! number) owns the pair of tokens `k` (its client half) and `k + 1` (its
//! upstream half), so either token names the session and the other half.
use vstd::prelude::*;

verus! {

/// The token under which the listening socket is registered.
pub const LISTENER_TOKEN: usize = 0;

/// Which half of a session a token names.
#[derive(Clone, Copy, Debug, PartialEq, Eq, Structural)]
pub enum Side {
    Client,
    Upstream,
}

/// What a readiness token stands for.
#[derive(Clone, Copy, Debug, PartialEq, Eq, Structural)]
pub enum Route {
    Listener,
    Half { key: usize, side: Side },
}

/// The readiness a socket is subscribed to.
#[derive(Clone, Copy, Debug, PartialEq, Eq, Structural)]
pub enum Interest {
    Readable,
    Writable,
    Both,
}

/// A session key: odd, with room for the upstream token after it.
pub open spec fn is_session_key(k: int) -> bool {
    &&& k % 2 == 1
    &&& 0 < k < usize::MAX
}

/// The token of one half of the session `key`.
pub open spec fn token_of(key: int, side: Side) -> int {
    match side {
        Side::Client => key,
        Side::Upstream => key + 1,
    }
}

/// What the token `t` stands for.
pub open spec fn route_of(t: int) -> Route {
    if t == 0 {
        Route::Listener
    } else if t % 2 == 1 {
        Route::Half { key: t as usize, side: Side::Client }
    } else {
        Route::Half { key: (t - 1) as usize, side: Side::Upstream }
    }
}

/// Tells what the token `t` stands for.
pub fn decode_token(t: usize) -> (r: Route)
    ensures
        r == route_of(t as int),
{
    if t == LISTENER_TOKEN {
        Route::Listener
    } else if t % 2 == 1 {
        Route::Half { key: t, side: Side::Client }
    } else {
        Route::Half { key: t - 1, side: Side::Upstream }
    }
}

/// The token of the given half of the session `key`.
pub fn token_for(key: usize, side: Side) -> (t: usize)
    requires
        is_session_key(key as int),
    ensures
        t as int == token_of(key as int, side),
{
    match side {
        Side::Client => key,
        Side::Upstream => key + 1,
    }
}

/// Both tokens of a session lead back to that session, each to its own half,
/// and neither is the listener's token.
pub proof fn lemma_tokens_round_trip(key: int, side: Side)
    requires
        is_session_key(key),
    ensures
        route_of(token_of(key, side)) == (Route::Half { key: key as usize, side }),
        token_of(key, side) != LISTENER_TOKEN as int,
        0 < token_of(key, side) <= usize::MAX,
{
}

/// Every token other than the listener's (and the largest, which has no
/// room for a pair) names one half of exactly one session, and that half's
/// token is the token itself.
pub proof fn lemma_route_inverts(t: int)
    requires
        0 < t < usize::MAX,
    ensures
        route_of(t) matches Route::Half { key, side } && is_session_key(key as int)
            && token_of(key as int, side) == t,
{
}

/// The two halves of a session have distinct tokens, and two sessions with
/// distinct keys share no token.
pub proof fn lemma_tokens_disjoint(k1: int, s1: Side, k2: int, s2: Side)
    requires
        is_session_key(k1),
        is_session_key(k2),
    ensures
        token_of(k1, s1) == token_of(k2, s2) <==> (k1 == k2 && s1 == s2),
{
}

} // verus!
