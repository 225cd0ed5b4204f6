//! Small conversions.
use vstd::prelude::*;

verus! {

/// A truth value as success or failure.
pub trait BoolToResult<T, E> {
    fn to_result(self, o: T, e: E) -> Result<T, E>;
}

impl<T, E> BoolToResult<T, E> for bool {
    /// `o` for true, `e` for false.
    fn to_result(self, o: T, e: E) -> (r: Result<T, E>)
        ensures
            r == if self {
                Ok::<T, E>(o)
            } else {
                Err::<T, E>(e)
            },
    {
        if self {
            Ok(o)
        } else {
            Err(e)
        }
    }
}

/// True gives the success, and false the failure.
pub proof fn law_to_result<T, E>(b: bool, o: T, e: E, r: Result<T, E>)
    requires
        call_ensures(<bool as BoolToResult<T, E>>::to_result, (b, o, e), r),
    ensures
        b ==> r == Ok::<T, E>(o),
        !b ==> r == Err::<T, E>(e),
{
}

} // verus!
