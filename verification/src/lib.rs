//! Client-side reassembly of streamed wide-column row reads.
use vstd::prelude::*;

pub mod cell;
pub mod chunk;
pub mod connection;
pub mod error;
pub mod model;
pub mod reassembler;
pub mod session;
pub mod rows;
pub mod runs;
pub mod versions;
