//! The seal on the extension traits: only this crate's token types implement
//! them.
use vstd::prelude::*;

verus! {

/// Implemented by the token types only.
pub trait Sealed {

}

} // verus!
