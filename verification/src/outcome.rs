//! What a fallible operation gave, seen through the views of the value and
//! of the error.

use vstd::prelude::*;

verus! {

/// The view of a result: that of the value or that of the error.
pub open spec fn result_view<T: DeepView, E: View>(r: Result<T, E>) -> Result<T::V, E::V> {
    match r {
        Ok(value) => Ok(value.deep_view()),
        Err(error) => Err(error@),
    }
}

/// The deep view of a vector of bytes is its view.
pub proof fn lemma_bytes_deep_view(bytes: Vec<u8>)
    ensures
        bytes.deep_view() == bytes@,
{
    assert(bytes.deep_view() =~= bytes@);
}

} // verus!
