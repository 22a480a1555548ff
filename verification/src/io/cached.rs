//! Reads from the watch cache.
//!
//! A hit in a warm cache is an answer; everything else is asked of the API
//! server. So an object never counts as missing because the cache is cold or lags.
use vstd::prelude::*;

verus! {

/// Whether a read may ask the cache at all: it is there, and it is warm.
pub fn read_from_store(present: bool, synced: bool) -> (r: bool)
    ensures
        r == (present && synced),
{
    present && synced
}

/// The cache's answer to a read, from what it holds. Without one the API server
/// is asked, whose answer counts.
pub fn store_answer<T>(present: bool, synced: bool, hit: Option<T>) -> (r: Option<T>)
    ensures
        r == if present && synced {
            hit
        } else {
            None
        },
{
    if read_from_store(present, synced) {
        hit
    } else {
        None
    }
}

/// Whether an object exists, from the cache's answer and the API server's, which
/// is asked only without the former.
pub open spec fn found<T>(answer: Option<T>, live: Option<T>) -> Option<T> {
    if answer is Some {
        answer
    } else {
        live
    }
}

/// An object counts as missing only where the API server says so.
pub proof fn lemma_missing_is_confirmed<T>(
    present: bool,
    synced: bool,
    hit: Option<T>,
    live: Option<T>,
)
    ensures
        ({
            let answer = if present && synced {
                hit
            } else {
                None
            };
            &&& found(answer, live) is None ==> live is None
            &&& !(present && synced) ==> found(answer, live) == live
        }),
{
}

/// What the cache answers counts before what the API server would say, and without an
/// answer the API server's word does.
pub proof fn lemma_an_answer_counts<T>(answer: Option<T>, live: Option<T>)
    ensures
        answer is Some ==> found(answer, live) == answer,
        answer is None ==> found(answer, live) == live,
{
}

} // verus!
