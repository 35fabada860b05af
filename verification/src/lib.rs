pub mod account;
pub mod ledger;
pub mod laws;
pub mod registry;
