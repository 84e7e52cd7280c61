//! Finds the accounts a user follows that do not follow back, and models the
//! selection and scroll state of a list browser over that result.

pub mod account_set;
pub mod analysis;
pub mod browser;
pub mod dispatch;
pub mod encoding;
pub mod error;
pub mod json;
pub mod ordering;
pub mod parser;
pub mod reconcile;
pub mod records;
