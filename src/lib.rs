//! A token accounting engine: taxed transfers whose tax is split over a
//! reflection, a staking and a lottery pool; a staking ledger; time-weighted
//! reflection rewards; and the fixed-width binary records that persist them.
pub mod account;
pub mod codec;
pub mod error;
pub mod instruction;
pub mod lottery;
pub mod processor;
pub mod state;
