//! The registry: an identity-keyed, single-instance-per-type object store.
//!
//! Storage is a list of bindings from an identity token (`core::any::TypeId`)
//! to an opaque owned slot, with at most one binding per token.  Its
//! behaviour is specified against a `Map<TypeId, Slot>` model: every
//! insertion is a `Map::insert`, every lookup a read of that map.

use vstd::prelude::*;
use core::any::TypeId;
use core::fmt::Debug;
use std::sync::Arc;
use crate::erase::Slot;
use crate::erase::key_eq;
use crate::erase::key_of;
use crate::erase::slot_new;
use crate::erase::slot_ref;
use crate::erase::slot_mut;
use crate::erase::clone_handle;

verus! {

/// One stored binding: an identity token and the erased value held under it.
#[derive(Debug)]
struct Entry {
    key: TypeId,
    slot: Slot,
}

/// The model of a list of bindings: later bindings shadow earlier ones.
spec fn entries_model(s: Seq<Entry>) -> Map<TypeId, Slot>
    decreases s.len(),
{
    if s.len() == 0 {
        Map::empty()
    } else {
        entries_model(s.drop_last()).insert(s.last().key, s.last().slot)
    }
}

/// A binding list with the found entry's key nowhere to its right models a
/// map that holds that entry's slot under that key.
proof fn lemma_model_found(s: Seq<Entry>, i: int)
    requires
        0 <= i < s.len(),
        forall|j: int| i < j < s.len() ==> s[j].key != s[i].key,
    ensures
        entries_model(s).contains_key(s[i].key),
        entries_model(s)[s[i].key] == s[i].slot,
    decreases s.len(),
{
    if i < s.len() - 1 {
        let t = s.drop_last();
        assert(forall|j: int| i < j < t.len() ==> t[j].key != t[i].key);
        lemma_model_found(t, i);
    }
}

/// A binding list without a key models a map without that key.
proof fn lemma_model_absent(s: Seq<Entry>, k: TypeId)
    requires
        forall|j: int| 0 <= j < s.len() ==> s[j].key != k,
    ensures
        !entries_model(s).contains_key(k),
    decreases s.len(),
{
    if s.len() > 0 {
        lemma_model_absent(s.drop_last(), k);
    }
}

/// Replacing the only entry that holds a key models a map insert of that key.
proof fn lemma_model_update(s: Seq<Entry>, i: int, e: Entry)
    requires
        0 <= i < s.len(),
        e.key == s[i].key,
        forall|j: int| 0 <= j < s.len() && j != i ==> s[j].key != s[i].key,
    ensures
        entries_model(s.update(i, e)) == entries_model(s).insert(e.key, e.slot),
    decreases s.len(),
{
    let t = s.update(i, e);
    if i == s.len() - 1 {
        assert(t.drop_last() =~= s.drop_last());
        assert(entries_model(t) =~= entries_model(s).insert(e.key, e.slot));
    } else {
        assert(t.drop_last() =~= s.drop_last().update(i, e));
        let u = s.drop_last();
        assert(forall|j: int| 0 <= j < u.len() && j != i ==> u[j].key != u[i].key);
        lemma_model_update(u, i, e);
        assert(s.last().key != e.key);
        assert(entries_model(t) =~= entries_model(s).insert(e.key, e.slot));
    }
}

/// DIContainer, the registry that owns every registered instance.
///
/// It is created empty, populated one insertion at a time during bootstrap,
/// and then frozen into a shared handle (see `init`).
#[derive(Debug)]
pub struct DIContainer {
    entries: Vec<Entry>,
}

impl View for DIContainer {
    type V = Map<TypeId, Slot>;

    closed spec fn view(&self) -> Map<TypeId, Slot> {
        entries_model(self.entries@)
    }
}

impl DIContainer {
    /// The storage invariant: at most one binding per identity token.
    pub closed spec fn well_formed(&self) -> bool {
        forall|i: int, j: int|
            0 <= i < j < self.entries@.len() ==> self.entries@[i].key != self.entries@[j].key
    }

    /// The position of the binding that holds `key`, if there is one.
    fn find_index(&self, key: &TypeId) -> (r: Option<usize>)
        ensures
            match r {
                Some(i) => i < self.entries@.len() && self.entries@[i as int].key == *key,
                None => forall|j: int| 0 <= j < self.entries@.len() ==> self.entries@[j].key != *key,
            },
    {
        let n: usize = self.entries.len();
        let mut i: usize = 0;
        while i < n
            invariant
                i <= n,
                n == self.entries@.len(),
                forall|j: int| 0 <= j < i ==> self.entries@[j].key != *key,
            decreases n - i,
        {
            let e = &self.entries[i];
            if key_eq(&e.key, key) {
                return Some(i);
            }
            i = i + 1;
        }
        None
    }

    /// A read-only view of the slot stored under `key`, or `None` when the
    /// registry holds nothing under that identity token.
    pub fn get_slot(&self, key: &TypeId) -> (r: Option<&Slot>)
        requires
            self.well_formed(),
        ensures
            match r {
                Some(s) => self@.contains_key(*key) && *s == self@[*key],
                None => !self@.contains_key(*key),
            },
    {
        match self.find_index(key) {
            Some(i) => {
                proof {
                    lemma_model_found(self.entries@, i as int);
                }
                let e = &self.entries[i];
                Some(&e.slot)
            },
            None => {
                proof {
                    lemma_model_absent(self.entries@, *key);
                }
                None
            },
        }
    }

    /// Stores `slot` under `key`, replacing any slot previously held under
    /// that identity token, and returns an exclusive view of the just-stored
    /// slot: whatever the caller writes through the returned view is what the
    /// registry holds under `key` afterwards.
    pub fn insert_slot(&mut self, key: TypeId, slot: Slot) -> (r: &mut Slot)
        requires
            old(self).well_formed(),
        ensures
            final(self).well_formed(),
            *r == slot,
            final(self)@ == old(self)@.insert(key, *final(r)),
    {
        match self.find_index(&key) {
            Some(i) => {
                let e = &mut self.entries[i];
                e.slot = slot;
                let r = &mut e.slot;
                proof {
                    let s0 = old(self).entries@;
                    let fe = (Entry { key: s0[i as int].key, slot: *final(r) });
                    assert(forall|j: int| 0 <= j < s0.len() && j != i ==> s0[j].key != s0[i as int].key);
                    lemma_model_update(s0, i as int, fe);
                    assert(forall|a: int, b: int|
                        0 <= a < b < s0.len()
                            ==> s0.update(i as int, fe)[a].key != s0.update(i as int, fe)[b].key);
                }
                r
            },
            None => {
                proof {
                    lemma_model_absent(old(self).entries@, key);
                }
                let ghost pushed = (Entry { key, slot });
                self.entries.push(Entry { key, slot });
                let i: usize = self.entries.len() - 1;
                let e = &mut self.entries[i];
                let r = &mut e.slot;
                proof {
                    let s0 = old(self).entries@;
                    let fe = (Entry { key: pushed.key, slot: *final(r) });
                    let t = s0.push(pushed).update(i as int, fe);
                    assert(t =~= s0.push(fe));
                    assert(s0.push(fe).drop_last() =~= s0);
                    assert(entries_model(t) == entries_model(s0).insert(fe.key, fe.slot));
                    assert(forall|a: int, b: int| 0 <= a < b < t.len() ==> t[a].key != t[b].key);
                }
                r
            },
        }
    }

    /// An exclusive view of the slot stored under `key`, or `None`, and in
    /// that case the registry is untouched.  Whatever the caller writes
    /// through the returned view is what the registry holds under `key`
    /// afterwards.
    pub fn get_slot_mut(&mut self, key: &TypeId) -> (r: Option<&mut Slot>)
        requires
            old(self).well_formed(),
        ensures
            final(self).well_formed(),
            old(self)@.contains_key(*key) == (r is Some),
            r is Some ==> *r.unwrap() == old(self)@[*key] && final(self)@ == old(self)@.insert(
                *key,
                *final(r.unwrap()),
            ),
            r is None ==> *final(self) == *old(self),
    {
        match self.find_index(key) {
            Some(i) => {
                proof {
                    lemma_model_found(old(self).entries@, i as int);
                }
                let e = &mut self.entries[i];
                let r = &mut e.slot;
                proof {
                    let s0 = old(self).entries@;
                    let fe = (Entry { key: s0[i as int].key, slot: *final(r) });
                    assert(forall|j: int| 0 <= j < s0.len() && j != i ==> s0[j].key != s0[i as int].key);
                    lemma_model_update(s0, i as int, fe);
                    assert(forall|a: int, b: int|
                        0 <= a < b < s0.len()
                            ==> s0.update(i as int, fe)[a].key != s0.update(i as int, fe)[b].key);
                }
                Some(r)
            },
            None => {
                proof {
                    lemma_model_absent(self.entries@, *key);
                }
                None
            },
        }
    }
}

/// The registry's error: an internal-consistency violation, reported when
/// the checked narrowing of a just-stored slot disagrees with the
/// identity-keyed storage.  The identity scheme makes this unreachable under
/// correct use, but the narrowing still fails cleanly rather than trusting
/// the cast.
#[derive(Debug, Clone, Copy, PartialEq, Eq)]
pub enum DIError {
    Inconsistency,
}

/// DependencyInjectTrait: implemented by a stored type that wants a shared
/// handle back to the registry once the registry is frozen, to keep for
/// later on-demand lookups of its peers.
///
/// The handle arrives through a shared reference, since at injection time
/// the instance is already owned by the shared registry; an implementor
/// stores it in a slot with interior mutability.  Injection is invoked at
/// most once per instance, after that instance's registration and after the
/// registry was frozen; peers are registered at that point but not
/// necessarily injected yet.
pub trait DependencyInjectTrait {
    fn inject(&self, container: Arc<DIContainer>);
}

/// DIContainerTrait: create a registry, populate it one instance at a time,
/// freeze it into a shared handle, and query it by type.
pub trait DIContainerTrait: Sized + View<V = Map<TypeId, Slot>> {
    /// Whether the registry's internal storage is consistent.
    spec fn inv(&self) -> bool;

    /// An empty registry.
    fn new() -> (r: Self)
        ensures
            r.inv(),
            r@ == Map::<TypeId, Slot>::empty(),
    ;

    /// Freezes the registry into a shared, multi-owner handle.  The
    /// transition cannot fail, and the registry's contents are exactly
    /// preserved; no insertion is possible through the shared form.
    fn init(self) -> (r: Result<Arc<Self>, DIError>)
        requires
            self.inv(),
        ensures
            r is Ok,
            r matches Ok(c) ==> (*c).inv() && (*c)@ == self@,
    ;

    /// Stores `obj` under its type's identity, replacing any prior instance
    /// of the same type, and returns an exclusive view of the just-stored
    /// instance so the caller can keep configuring it.  `Err` reports only
    /// an internal-consistency violation of the checked narrowing.
    ///
    /// The model gains exactly one binding, under the identity token of
    /// `T`; every identity registered before stays registered.
    fn add<T: 'static + Debug>(&mut self, obj: T) -> (r: Result<&mut T, DIError>)
        requires
            old(self).inv(),
        ensures
            final(self).inv(),
            exists|k: TypeId, s: Slot| final(self)@ == old(self)@.insert(k, s),
            old(self)@.dom().subset_of(final(self)@.dom()),
    ;

    /// A read-only view of the stored `T`, or `None` when no value of type
    /// `T` was ever inserted; in particular, every lookup on a fresh
    /// registry is empty.
    fn get<T: 'static + Debug>(&self) -> (r: Option<&T>)
        requires
            self.inv(),
        ensures
            self@ == Map::<TypeId, Slot>::empty() ==> r is None,
    ;

    /// An exclusive view of the stored `T`, or `None` when no value of type
    /// `T` was ever inserted.  The set of registered identities is
    /// unchanged, and an empty lookup leaves the registry untouched.
    fn get_mut<T: 'static + Debug>(&mut self) -> (r: Option<&mut T>)
        requires
            old(self).inv(),
        ensures
            final(self).inv(),
            final(self)@.dom() == old(self)@.dom(),
            r is None ==> final(self)@ == old(self)@,
            old(self)@ == Map::<TypeId, Slot>::empty() ==> r is None,
    ;
}

impl DIContainerTrait for DIContainer {
    open spec fn inv(&self) -> bool {
        self.well_formed()
    }

    fn new() -> Self {
        let r = DIContainer { entries: Vec::new() };
        proof {
            assert(r@ =~= Map::<TypeId, Slot>::empty());
        }
        r
    }

    fn init(self) -> Result<Arc<Self>, DIError> {
        Ok(Arc::new(self))
    }

    fn add<T: 'static + Debug>(&mut self, obj: T) -> Result<&mut T, DIError> {
        let key = key_of::<T>();
        proof {
            assert forall|s: Slot|
                old(self)@.dom().subset_of(#[trigger] old(self)@.insert(key, s).dom()) by {
                assert(old(self)@.insert(key, s).dom() =~= old(self)@.dom().insert(key));
            }
        }
        let slot = slot_new(obj);
        let stored = self.insert_slot(key, slot);
        match slot_mut::<T>(stored) {
            Some(t) => Ok(t),
            None => Err(DIError::Inconsistency),
        }
    }

    fn get<T: 'static + Debug>(&self) -> Option<&T> {
        let key = key_of::<T>();
        match self.get_slot(&key) {
            Some(s) => slot_ref::<T>(s),
            None => None,
        }
    }

    fn get_mut<T: 'static + Debug>(&mut self) -> Option<&mut T> {
        let key = key_of::<T>();
        proof {
            if old(self)@.contains_key(key) {
                assert forall|s: Slot| #[trigger] old(self)@.insert(key, s).dom()
                    == old(self)@.dom() by {
                    assert(old(self)@.insert(key, s).dom() =~= old(self)@.dom());
                }
                assert(old(self)@.insert(key, old(self)@[key]) == old(self)@) by {
                    assert(old(self)@.insert(key, old(self)@[key]) =~= old(self)@);
                }
            }
        }
        match self.get_slot_mut(&key) {
            Some(s) => slot_mut::<T>(s),
            None => None,
        }
    }
}

/// DIContainerExtTrait: shortcut lookups through an optional shared handle
/// to the registry, of the kind an injected instance keeps in its
/// back-reference slot.
pub trait DIContainerExtTrait {
    /// The model of the registry behind `self`, when a handle is attached.
    spec fn attached(&self) -> Option<Map<TypeId, Slot>>;

    /// Whether the attached registry, if any, is internally consistent.
    spec fn attached_inv(&self) -> bool;

    /// A read-only view of the stored `T` behind the attached handle, or
    /// `None` when no handle is attached or nothing is stored under `T`.
    fn get<T: 'static + Debug>(&self) -> (r: Option<&T>)
        requires
            self.attached_inv(),
        ensures
            self.attached() is None ==> r is None,
            self.attached() matches Some(m) && m == Map::<TypeId, Slot>::empty() ==> r is None,
    ;
}

impl DIContainerExtTrait for Option<Arc<DIContainer>> {
    open spec fn attached(&self) -> Option<Map<TypeId, Slot>> {
        match *self {
            Some(c) => Some((*c)@),
            None => None,
        }
    }

    open spec fn attached_inv(&self) -> bool {
        match *self {
            Some(c) => (*c).inv(),
            None => true,
        }
    }

    fn get<T: 'static + Debug>(&self) -> Option<&T> {
        match self {
            Some(c) => (&**c).get::<T>(),
            None => None,
        }
    }
}

/// Looks up the instance stored under `T` and, when one is present, hands
/// it a shared handle to its own registry through its injection callback;
/// the instance keeps the handle for later peer lookups.  Returns whether
/// an instance of `T` was present; on a registry that holds nothing the
/// injection never takes place.
pub fn inject_dep<T: 'static + Debug + DependencyInjectTrait>(
    container: &Arc<DIContainer>,
) -> (r: bool)
    requires
        (**container).inv(),
    ensures
        (**container)@ == Map::<TypeId, Slot>::empty() ==> !r,
{
    match (&**container).get::<T>() {
        Some(t) => {
            t.inject(clone_handle(container));
            true
        },
        None => false,
    }
}

} // verus!
