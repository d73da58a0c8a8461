//! Verified core of a federation node that moves funds between a Bitcoin
//! main chain and a side chain.

pub mod cli;
pub mod member;
pub mod peer;
pub mod peg;
pub mod scanner;
pub mod scheduler;
pub mod text;
pub mod transaction;
pub mod wallet;
