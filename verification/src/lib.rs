pub mod admission;
pub mod bootstrap;
pub mod channel;
pub mod decoder;
pub mod driver;
pub mod engine;
pub mod generator;
pub mod model;
pub mod text;
pub mod token_stream;
pub mod utils;

use vstd::prelude::*;

verus! {

/// A correlation tag attached to one request and to every output event
/// derived from it, so that many readers can share one output bus.
#[derive(Clone, Copy, PartialEq, Eq, Structural, Debug, Hash)]
pub struct RequestId(pub u128);

} // verus!
