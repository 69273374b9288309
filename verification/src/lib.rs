//! A permissioned, hierarchical key-value store over a ledger-style
//! substrate: accounts own path-addressed entries, delegate read and
//! write capability through ordered grant lists, and revoke a whole
//! namespace in one step by rotating a generation counter.  A
//! viewing-key gate authenticates read-only queries, and a per-account
//! append-only mailbox carries notifications.

pub mod backend;
pub mod contract;
pub mod crypto;
pub mod messaging;
pub mod msg;
pub mod new_backend;
pub mod nodes;
pub mod numstr;
pub mod ordered_set;
pub mod state;
pub mod store;
pub mod strmap;
pub mod viewing_key;
