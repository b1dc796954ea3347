//! A two-party token escrow: a maker locks an amount of one asset in a vault
//! and names the amount of a second asset wanted in return; a taker settles
//! the exchange in one step, or the maker cancels and gets the deposit back.

pub mod address;
pub mod book;
pub mod derive;
pub mod instruction;
pub mod laws;
pub mod layout;
pub mod program;

pub use address::Address;
pub use book::{Escrow, EscrowBook, EscrowError, EscrowRecord, Holding, Vault};
pub use derive::{derive_addresses, DerivedAddresses};
pub use instruction::Instruction;
pub use program::{can_refund, can_take, make, open_at, refund, take, try_make};
