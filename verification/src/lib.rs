//! Consensus engines for a chain of block headers: engines that decide which
//! headers are admissible and seal new ones, and combinators that wrap,
//! interleave or switch engines while keeping one validate/seal contract.

pub mod atm;
pub mod client;
pub mod consensus;
pub mod even_only;
pub mod forking;
pub mod hashing;
pub mod interleave;
pub mod poa;
pub mod pow;
pub mod state_machine;
pub mod tic_tac_toe;
