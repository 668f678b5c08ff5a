//! The capacity rules of the spatial index: how many objects it is built
//! from, and how many ids one query hands back.
use vstd::prelude::*;

verus! {

/// Most objects that one index is built from.
pub const MAX_OBJECTS: usize = 100_000;

/// Most ids that one rectangle query returns.
pub const MAX_QUERY_RESULTS: usize = 10_000;

/// Why an index could not be built.
#[derive(Debug, Clone, PartialEq, Eq, Structural)]
pub enum IndexError {
    TooManyObjects { count: usize, max: usize },
}

/// Accepts an index of `count` objects, or says that there are too many.
pub fn check_object_count(count: usize) -> (r: Result<(), IndexError>)
    ensures
        r.is_ok() <==> count <= MAX_OBJECTS,
        r.is_err() ==> r == Err::<(), IndexError>(
            IndexError::TooManyObjects { count, max: MAX_OBJECTS },
        ),
{
    if count > MAX_OBJECTS {
        Err(IndexError::TooManyObjects { count, max: MAX_OBJECTS })
    } else {
        Ok(())
    }
}

/// Adds one query hit to `results` unless they are already at
/// `MAX_QUERY_RESULTS`; returns whether there is room for more after it.
pub fn push_bounded(results: &mut Vec<u32>, id: u32) -> (more: bool)
    ensures
        old(results)@.len() < MAX_QUERY_RESULTS ==> final(results)@ == old(results)@.push(id),
        old(results)@.len() >= MAX_QUERY_RESULTS ==> final(results)@ == old(results)@,
        more == (final(results)@.len() < MAX_QUERY_RESULTS),
{
    if results.len() < MAX_QUERY_RESULTS {
        results.push(id);
    }
    results.len() < MAX_QUERY_RESULTS
}

} // verus!
