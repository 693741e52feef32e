pub mod block;
pub mod ledger;
