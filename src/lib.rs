use vstd::prelude::*;

pub mod codec;
pub mod config;
pub mod detail;
pub mod engine;
pub mod error;
pub mod index;
pub mod keys;
pub mod price;
pub mod table;
pub mod text;
pub mod transport;
pub mod write;

verus! {

} // verus!
