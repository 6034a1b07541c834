//! Picking the one entity of a kind that a step needs, without guessing.
use vstd::prelude::*;

verus! {

/// Why no single entity could be picked.
#[derive(Clone, Copy, Debug, PartialEq, Eq, Structural)]
pub enum LookupError {
    /// No entity matched.
    Missing,
    /// More than one matched; `count` says how many.
    Ambiguous { count: usize },
}

/// The only element of `items`, or why there is not exactly one.
pub fn single<T>(items: Vec<T>) -> (r: Result<T, LookupError>)
    ensures
        items@.len() == 1 <==> r is Ok,
        r matches Ok(item) ==> item == items@[0],
        items@.len() == 0 <==> r == Err::<T, LookupError>(LookupError::Missing),
        items@.len() > 1 <==> r == Err::<T, LookupError>(
            LookupError::Ambiguous { count: items.len() },
        ),
{
    let count = items.len();
    if count == 0 {
        return Err(LookupError::Missing);
    }
    if count > 1 {
        return Err(LookupError::Ambiguous { count });
    }
    let mut items = items;
    match items.pop() {
        Some(item) => Ok(item),
        None => Err(LookupError::Missing),
    }
}

} // verus!
