//! Call shaping for the transfer of a compressed NFT leaf.
//!
//! The crate assembles the outbound call (target program, account roles and
//! binary payload) that asks the Bubblegum program to hand a leaf of a
//! compressed tree to a new owner. It performs no dispatch itself.

pub mod account;
pub mod call;
pub mod codec;
pub mod manual;
pub mod payload;
pub mod typed;
