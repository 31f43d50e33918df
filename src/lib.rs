//! Composable single-value channels: adapters that translate or filter the
//! values crossing a channel, merges that fan a value out to two legs and race
//! their receives, and an inert channel that serves as the neutral leg.
//!
//! A receive is a poll: `recv` hands out the next value that is ready now, or
//! `None` (pending) while nothing is ready, and a pending poll loses no value
//! that could have been handed out. A send completes within the call.

pub mod channel;
pub mod dummy;
pub mod merge;
pub mod select;
pub mod adapt;
pub mod mailbox;
pub mod laws;
