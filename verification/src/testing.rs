//! A checking helper shared by the test suites: two vectors are reported
//! equal when they have the same length and every element of the first
//! occurs in the second.

use vstd::prelude::*;
use vstd::std_specs::cmp::PartialEqSpec;

use crate::error::FsError;

verus! {

/// Whether the element at `k` of `a` occurs anywhere in `b`, by the type's
/// own equality.
pub open spec fn occurs_in<T: PartialEq>(a: Seq<T>, b: Seq<T>, k: int) -> bool {
    exists|j: int| 0 <= j < b.len() && #[trigger] a[k].eq_spec(&b[j])
}

/// Whether `x` occurs in `v`, by the type's own equality.
fn vec_contains<T: PartialEq>(v: &Vec<T>, x: &T) -> (r: bool)
    ensures
        T::obeys_eq_spec() ==> r == exists|j: int|
            0 <= j < v@.len() && #[trigger] x.eq_spec(&v@[j]),
{
    let mut j: usize = 0;
    let mut found = false;
    while j < v.len()
        invariant
            j <= v@.len(),
            T::obeys_eq_spec() ==> found == exists|k: int|
                0 <= k < j && #[trigger] x.eq_spec(&v@[k]),
        decreases v@.len() - j,
    {
        if *x == v[j] {
            found = true;
        }
        j = j + 1;
    }
    found
}

/// Checks that `vec1` and `vec2` have the same length and that every element
/// of `vec1` occurs in `vec2`; reports `message` otherwise.
pub fn assert_vec_equal<T: PartialEq>(vec1: &Vec<T>, vec2: &Vec<T>, message: &str) -> (r: Result<
    (),
    FsError,
>)
    ensures
        T::obeys_eq_spec() ==> ((r is Ok) <==> (vec1@.len() == vec2@.len() && (forall|k: int|
            0 <= k < vec1@.len() ==> #[trigger] occurs_in(vec1@, vec2@, k)))),
        r matches Err(e) ==> e.spec_message() == message@,
{
    if vec1.len() != vec2.len() {
        return crate::error::other(message.to_owned());
    }
    let mut i: usize = 0;
    while i < vec1.len()
        invariant
            i <= vec1@.len(),
            vec1@.len() == vec2@.len(),
            T::obeys_eq_spec() ==> forall|k: int|
                0 <= k < i ==> #[trigger] occurs_in(vec1@, vec2@, k),
        decreases vec1@.len() - i,
    {
        let present = vec_contains(vec2, &vec1[i]);
        proof {
            if T::obeys_eq_spec() {
                assert(present == occurs_in(vec1@, vec2@, i as int));
            }
        }
        if !present {
            return crate::error::other(message.to_owned());
        }
        i = i + 1;
    }
    Ok(())
}

} // verus!
