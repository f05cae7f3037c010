use vstd::prelude::*;

pub mod config;
pub mod executor;
pub mod generation;
pub mod http;
pub mod request;

verus! {

} // verus!
