//! What a parser yields.

use vstd::prelude::*;
use crate::error::Error;

verus! {

/// What a parser yields: the value and the number of bytes it took from the
/// front of the source, or the error that stopped it.
pub type Parsed<T> = Result<(T, nat), Error>;

/// The result of a parse with its value passed through `f`.
pub open spec fn lift<A, B>(r: Parsed<A>, f: spec_fn(A) -> B) -> Parsed<B> {
    match r {
        Ok((v, n)) => Ok((f(v), n)),
        Err(e) => Err(e),
    }
}

} // verus!
