//! Incremental search over the Arch User Repository: the query cache and
//! staleness rules of the search coordinator, the key handling of the
//! interaction loop and the view state that both share.

pub mod coordinator;
pub mod keys;
pub mod ranking;
pub mod search;
pub mod session;
pub mod state;
pub mod trusted;
pub mod ui;
