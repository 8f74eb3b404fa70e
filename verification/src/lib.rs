//! Settlement core of a two-asset constant-product automated market maker.
//!
//! The pool prices a trade by holding the product of its two reserves
//! (weakly) constant, net of a basis-point fee taken on the input side.
//! `curve` holds the pure pricing math and its proofs, `pool` the swap
//! engine and the lock toggle, `auth` the derivation of the pool's own
//! signing material, and `errors` the failure taxonomy.

pub mod auth;
pub mod curve;
pub mod errors;
pub mod pool;
