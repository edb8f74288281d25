//! Planning of segmented HTTP downloads: which byte ranges to ask for,
//! under which names the pieces are stored, and what a server's response
//! headers say about its support for ranges.

pub mod dl;
pub mod executor;
pub mod naming;
pub mod plan;
pub mod planner;
pub mod probe;
pub mod range;
pub mod text;
pub mod url;
