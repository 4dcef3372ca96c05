//! Primitive-buffer demonstrations: bounds-checked access into a slice and
//! equality of slice views, including the zero-length case.

use vstd::prelude::*;

verus! {

/// Bounds-checked access: reports the element at `i` when it exists and
/// `None` when `i` lies past the end, instead of aborting.
pub fn get_checked(s: &[i32], i: usize) -> (r: Option<i32>)
    ensures
        i < s@.len() ==> r == Some(s@[i as int]),
        i >= s@.len() ==> r is None,
{
    if i < s.len() {
        Some(*vstd::slice::slice_index_get(s, i))
    } else {
        None
    }
}

/// Element-wise equality of two slice views of 32-bit unsigned integers.
pub fn slice_eq_u32(a: &[u32], b: &[u32]) -> (r: bool)
    ensures
        r <==> a@ =~= b@,
{
    if a.len() != b.len() {
        return false;
    }
    let n: usize = a.len();
    let mut i: usize = 0;
    while i < n
        invariant
            n == a@.len(),
            n == b@.len(),
            0 <= i <= n,
            forall|k: int| 0 <= k < i ==> a@[k] == b@[k],
        decreases n - i,
    {
        if *vstd::slice::slice_index_get(a, i) != *vstd::slice::slice_index_get(b, i) {
            return false;
        }
        i = i + 1;
    }
    true
}

/// Every zero-length view is the empty view: a view with no elements is equal
/// to the view of an explicit empty literal.
pub proof fn lemma_empty_view<T>(s: Seq<T>)
    requires
        s.len() == 0,
    ensures
        s =~= Seq::<T>::empty(),
{
}

} // verus!
