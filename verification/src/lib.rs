//! The bookkeeping of a bridge that serves screen-saver inhibit requests by
//! taking locks from an idle-prevention backend.
//!
//! Callers acquire an inhibition and get a cookie for it; only the caller that
//! acquired it may release it. A periodic heartbeat evicts the inhibitions of
//! callers that have disconnected without releasing them. This library holds
//! the rules and the state: which cookie belongs to whom (`store`), how the
//! two requests are answered (`session`), what the heartbeat does next
//! (`heartbeat`), who counts as connected (`identity`) and what a backend is
//! asked (`backend`). Waiting, the message bus and the backends themselves
//! are left to the program around it, which hands in what they answered and
//! releases every lock that the library hands out.

pub mod backend;
pub mod heartbeat;
pub mod identity;
pub mod session;
pub mod store;
