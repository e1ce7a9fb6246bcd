//! The bump arena in which the values that mutations refer to are kept.
use bumpalo::Bump;
use vstd::prelude::*;

verus! {

/// The arena of `bumpalo`. Verified code only hands it on and allocates in it.
#[verifier::external_type_specification]
#[verifier::external_body]
pub struct ExBump(bumpalo::Bump);

/// `Bump::alloc` moves a value into the arena and refers to it there. That the arena still has
/// room, without which the call panics, is not stated.
pub assume_specification<T>[ Bump::alloc::<T> ](bump: &Bump, val: T) -> (res: &mut T)
    ensures
        *res == val,
;

/// `Bump::alloc_str` copies a string slice into the arena and refers to the copy. That the arena
/// still has room, without which the call panics, is not stated.
pub assume_specification<'a>[ Bump::alloc_str ](bump: &'a Bump, src: &str) -> (res: &'a mut str)
    ensures
        res@ == src@,
;

/// `Bump::alloc_slice_copy` copies a slice into the arena, element by element, and refers to the
/// copy. That the arena still has room, without which the call panics, is not stated.
pub assume_specification<'a, T>[ Bump::alloc_slice_copy::<T> ](
    bump: &'a Bump,
    src: &[T],
) -> (res: &'a mut [T]) where T: Copy
    ensures
        res@ == src@,
;

} // verus!
