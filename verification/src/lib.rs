//! A TCP echo service driven by two completion-ring reactors.

pub mod echo;
pub mod ledger;
pub mod reactor;
pub mod session;
pub mod sqe;
pub mod uring;
