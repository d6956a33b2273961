//! Trusted interface to the call stack: a bounded vector from the `arrayvec`
//! crate holding at most 16 return addresses. Verified code sees the stack
//! only through `stack_entries`, the sequence of addresses it holds, bottom
//! first.

use vstd::prelude::*;

verus! {

#[verifier::external_type_specification]
#[verifier::external_body]
#[verifier::reject_recursive_types(T)]
pub struct ExArrayVec<T, const CAP: usize>(arrayvec::ArrayVec<T, CAP>);

/// The return addresses the call stack holds, bottom of the stack first.
pub uninterp spec fn stack_entries(s: arrayvec::ArrayVec<u16, 16>) -> Seq<u16>;

/// Relies on `arrayvec::ArrayVec::new`: a newly created vector is empty.
#[verifier::external_body]
pub(crate) fn stack_new() -> (s: arrayvec::ArrayVec<u16, 16>)
    ensures
        stack_entries(s) == Seq::<u16>::empty(),
{
    arrayvec::ArrayVec::new()
}

/// Relies on `arrayvec::ArrayVec::try_push`: appends the element when the
/// length is below the capacity of 16, and reports a capacity error, leaving
/// the vector unchanged, when the vector is full.
#[verifier::external_body]
pub(crate) fn stack_try_push(s: &mut arrayvec::ArrayVec<u16, 16>, address: u16) -> (ok: bool)
    ensures
        stack_entries(*old(s)).len() < 16 ==> ok && stack_entries(*final(s)) == stack_entries(
            *old(s),
        ).push(address),
        stack_entries(*old(s)).len() >= 16 ==> !ok && stack_entries(*final(s)) == stack_entries(
            *old(s),
        ),
{
    s.try_push(address).is_ok()
}

/// Relies on `arrayvec::ArrayVec::pop`: removes and returns the last element,
/// or returns `None` and leaves the vector unchanged when it is empty.
#[verifier::external_body]
pub(crate) fn stack_pop(s: &mut arrayvec::ArrayVec<u16, 16>) -> (r: Option<u16>)
    ensures
        stack_entries(*old(s)).len() == 0 ==> r is None && stack_entries(*final(s))
            == stack_entries(*old(s)),
        stack_entries(*old(s)).len() > 0 ==> r == Some(stack_entries(*old(s)).last())
            && stack_entries(*final(s)) == stack_entries(*old(s)).drop_last(),
{
    s.pop()
}

} // verus!
