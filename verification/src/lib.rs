//! Server-side evaluation of small encrypted integers: degree bookkeeping,
//! the automatic refresh policy, and the subtraction family built on them.

pub mod ciphertext;
pub mod congruence;
pub mod degree;
pub mod encoding;
pub mod engine;
pub mod integers;
pub mod lwe;
pub mod parameters;
pub mod phase;
pub mod server_key;
