use vstd::prelude::*;

pub mod runtime;
pub mod compilation;

verus! {

/// The errors of a program.
pub trait Error {
}

} // verus!
