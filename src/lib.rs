//! Random credential generation: a human-readable username built from an
//! adjective and a noun, and a password over a fixed printable alphabet,
//! both drawn from a seeded ChaCha20 stream.
pub mod alphabet;
pub mod args;
pub mod resources;
pub mod username;
pub mod utils;
