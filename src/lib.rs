use vstd::prelude::*;

pub mod asr;
pub mod capture;
pub mod enhance;
pub mod error;
pub mod model;
pub mod sink;
pub mod text;
pub mod wav;

verus! {

} // verus!
