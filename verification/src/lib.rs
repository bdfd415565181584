//! A minimal runtime object registry ("dependency container").
//!
//! The registry stores at most one instance per distinct static type, keyed by
//! the type's identity token.  A program assembles its singleton services
//! during a bootstrap phase, freezes the registry into a shared handle, and
//! then lets the stored services discover each other through that handle.
//!
//! The registry's storage model is verified: it is an identity-keyed store of
//! opaque owned slots whose behaviour is specified against a
//! `Map<TypeId, Slot>` model.  The thin layer that erases a concrete type
//! into a slot and narrows it back is the trusted boundary around
//! `core::any` (see `erase`).

pub mod di;
pub mod erase;
pub mod laws;
