//! A single-hop TCP relay, as a verified core: the routing of readiness
//! tokens to session halves, the table of live sessions, the pump that
//! drains one socket and forwards to its peer, and the event loop's
//! decisions. The loop and the sockets are driven from outside through plain
//! values.
pub mod pump;
pub mod relay;
pub mod table;
pub mod token;
