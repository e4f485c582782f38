//! A custodial deposit vault: derives receiving addresses, follows a ledger
//! page by page, records every operation that touches a watched address
//! exactly once, and settles recorded deposits by sweep or refund.
pub mod address;
pub mod codec;
pub mod log;
pub mod principal;
pub mod types;
pub mod vault;
