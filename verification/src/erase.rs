//! The trusted boundary around `core::any`.
//!
//! The registry keys its storage by `core::any::TypeId`, the per-type identity
//! token, and keeps each stored value behind a type-erased owned slot.  The
//! verifier cannot look inside `dyn Any`, so the slot is opaque and the few
//! functions that erase a value or narrow a slot back to a concrete type are
//! trusted wrappers with the contracts that `core::any`'s documentation
//! supports.

use vstd::prelude::*;
use core::any::Any;
use core::any::TypeId;

verus! {

/// Declares `core::any::TypeId` to the verifier: an opaque identity token.
#[verifier::external_type_specification]
#[verifier::external_body]
pub struct ExTypeId(TypeId);

/// An owned, type-erased slot holding a value of some `'static` type.
///
/// The slot is opaque to the verifier: `dyn Any` cannot be declared, so the
/// whole struct is hidden and only the trusted functions below look inside.
#[verifier::external_body]
#[derive(Debug)]
pub struct Slot {
    inner: Box<dyn Any>,
}

/// Relies on `core::any::TypeId::of`: the identity token of the type `T`.
/// Its documentation promises that the token is the same for every use of the
/// same type within a program, and differs between distinct types.
#[verifier::external_body]
pub(crate) fn key_of<T: 'static>() -> TypeId {
    TypeId::of::<T>()
}

/// Relies on `TypeId`'s `PartialEq`: two identity tokens compare equal
/// exactly when they are the same token.
#[verifier::external_body]
pub(crate) fn key_eq(a: &TypeId, b: &TypeId) -> (r: bool)
    ensures
        r == (*a == *b),
{
    a == b
}

/// Relies on `Box::new` and the unsizing coercion to `Box<dyn Any>`: wraps an
/// owned value into an erased slot.
#[verifier::external_body]
pub(crate) fn slot_new<T: 'static>(value: T) -> Slot {
    Slot { inner: Box::new(value) }
}

/// Relies on `<dyn Any>::downcast_ref`: a shared view of the slot's value
/// when that value is of type `T`, and `None` when it is not.
#[verifier::external_body]
pub(crate) fn slot_ref<'a, T: 'static>(slot: &'a Slot) -> Option<&'a T> {
    slot.inner.downcast_ref::<T>()
}

/// Relies on `<dyn Any>::downcast_mut`: an exclusive view of the slot's value
/// when that value is of type `T`.  When it returns `None` no view was handed
/// out, so the slot is left unchanged.
#[verifier::external_body]
pub(crate) fn slot_mut<'a, T: 'static>(slot: &'a mut Slot) -> (r: Option<&'a mut T>)
    ensures
        r is None ==> *final(slot) == *old(slot),
{
    slot.inner.downcast_mut::<T>()
}

/// Relies on `Arc::clone`: another handle to the same shared value; as a
/// value the new handle equals the one it was cloned from.
#[verifier::external_body]
pub(crate) fn clone_handle<T>(v: &std::sync::Arc<T>) -> (r: std::sync::Arc<T>)
    ensures
        *r == **v,
{
    std::sync::Arc::clone(v)
}

} // verus!
