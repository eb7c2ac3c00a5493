//! Escrow swaps for non-fungible and fungible assets: the decision logic of a
//! proxy that registers members and creates swaps, and of five swap kinds.

pub mod amount;
pub mod common;
pub mod error;
pub mod swap_basic;
pub mod swap_p2p;
pub mod swap_simple;
pub mod swap_bid;
pub mod swap_offer;
pub mod proxy;
pub mod laws;
pub mod acceptance;
