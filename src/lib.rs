//! A two-asset constant-product swap pool: the fixed-point math of deposits,
//! withdrawals and swaps, the binary formats of instructions and pool
//! records, and the per-instruction decisions that validate accounts and
//! update the pool.

pub mod bytes;
pub mod error;
pub mod instruction;
pub mod math;
pub mod processor;
pub mod state;
pub mod token;
