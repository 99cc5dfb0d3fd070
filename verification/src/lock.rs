use vstd::prelude::*;
use crate::error::{err, is_err_of, map_err, ErrKind, Error};
use crate::rng::random_u128;
use std::collections::HashSet;
use std::sync::{Arc, RwLock, RwLockReadGuard, RwLockWriteGuard};

verus! {

broadcast use vstd::std_specs::hash::group_hash_axioms;

#[verifier::external_type_specification]
#[verifier::external_body]
#[verifier::reject_recursive_types(T)]
pub struct ExRwLock<T: ?Sized>(RwLock<T>);

#[verifier::external_type_specification]
#[verifier::external_body]
#[verifier::reject_recursive_types(T)]
pub struct ExRwLockReadGuard<'a, T: ?Sized>(RwLockReadGuard<'a, T>);

#[verifier::external_type_specification]
#[verifier::external_body]
#[verifier::reject_recursive_types(T)]
pub struct ExRwLockWriteGuard<'a, T: ?Sized + 'a>(RwLockWriteGuard<'a, T>);

/// The ids of the locks that one thread holds. A thread that asks for a lock it already
/// holds is refused instead of blocking forever.
pub struct LockRegistry {
    held: HashSet<u128>,
}

impl LockRegistry {
    /// The ids held.
    pub closed spec fn held_ids(&self) -> Set<u128> {
        self.held@
    }

    /// A registry holding no lock.
    pub fn new() -> (r: LockRegistry)
        ensures
            r.held_ids() == Set::<u128>::empty(),
    {
        LockRegistry { held: HashSet::new() }
    }

    /// Whether the lock `id` is held.
    pub fn holds(&self, id: u128) -> (r: bool)
        ensures
            r == self.held_ids().contains(id),
    {
        self.held.contains(&id)
    }

    /// Records that lock `id` is being taken. It is refused with a poison error,
    /// "would deadlock", when it is already held; either way it is held afterwards.
    pub fn acquire(&mut self, id: u128) -> (r: Result<(), Error>)
        ensures
            final(self).held_ids() == old(self).held_ids().insert(id),
            r is Err <==> old(self).held_ids().contains(id),
            r matches Err(e) ==> is_err_of(e, ErrKind::Poison, "would deadlock"@),
    {
        let held = self.held.contains(&id);
        self.held.insert(id);
        if held {
            Err(err(ErrKind::Poison, "would deadlock"))
        } else {
            Ok(())
        }
    }

    /// Records that the guard of lock `id` is gone.
    pub fn release(&mut self, id: u128)
        ensures
            final(self).held_ids() == old(self).held_ids().remove(id),
    {
        self.held.remove(&id);
    }
}

/// A shared read guard of a lock, with the id of the lock it was taken from.
#[verifier::reject_recursive_types(T)]
pub struct RwLockReadGuardWrapper<'a, T> {
    guard: RwLockReadGuard<'a, T>,
    id: u128,
}

impl<'a, T> RwLockReadGuardWrapper<'a, T> {
    /// The id of the lock.
    pub closed spec fn spec_id(&self) -> u128 {
        self.id
    }

    /// The guard held.
    pub closed spec fn spec_guard(&self) -> &RwLockReadGuard<'a, T> {
        &self.guard
    }

    /// The guard, through which the value is read.
    pub fn guard(&self) -> (r: &RwLockReadGuard<'a, T>)
        ensures
            r == self.spec_guard(),
    {
        &self.guard
    }

    /// The id of the lock the guard was taken from.
    pub fn id(&self) -> (r: u128)
        ensures
            r == self.spec_id(),
    {
        self.id
    }
}

/// An exclusive write guard of a lock, with the id of the lock it was taken from.
#[verifier::reject_recursive_types(T)]
pub struct RwLockWriteGuardWrapper<'a, T> {
    guard: RwLockWriteGuard<'a, T>,
    id: u128,
}

impl<'a, T> RwLockWriteGuardWrapper<'a, T> {
    /// The id of the lock.
    pub closed spec fn spec_id(&self) -> u128 {
        self.id
    }

    /// The guard held.
    pub closed spec fn spec_guard(&self) -> RwLockWriteGuard<'a, T> {
        self.guard
    }

    /// The guard, through which the value is read and written.
    pub fn guard(&mut self) -> (r: &mut RwLockWriteGuard<'a, T>)
        ensures
            *r == old(self).spec_guard(),
            final(self).spec_guard() == *final(r),
            final(self).spec_id() == old(self).spec_id(),
    {
        &mut self.guard
    }

    /// The id of the lock the guard was taken from.
    pub fn id(&self) -> (r: u128)
        ensures
            r == self.spec_id(),
    {
        self.id
    }
}

/// Calls `RwLock::new`.
#[verifier::external_body]
fn new_rwlock<T>(t: T) -> RwLock<T> {
    RwLock::new(t)
}

/// Calls `Arc::clone`: another handle on the same lock.
#[verifier::external_body]
fn share<T>(t: &Arc<RwLock<T>>) -> Arc<RwLock<T>> {
    Arc::clone(t)
}

/// Why a lock could not be taken at once.
pub enum TryLockFailure {
    /// Another holder has it now.
    Busy,
    /// A thread panicked while holding it; the text of the poison error.
    Poisoned(String),
}

/// Calls `RwLock::try_read`, which, as std documents, never blocks: the guard, or `Busy`
/// when the lock is held exclusively, or `Poisoned` with the text of the poison error.
/// Which one comes depends on what other holders do: nothing is stated of it.
#[verifier::external_body]
fn try_read_lock<'a, T>(t: &'a RwLock<T>) -> Result<RwLockReadGuard<'a, T>, TryLockFailure> {
    match t.try_read() {
        Ok(g) => Ok(g),
        Err(std::sync::TryLockError::WouldBlock) => Err(TryLockFailure::Busy),
        Err(std::sync::TryLockError::Poisoned(e)) => Err(TryLockFailure::Poisoned(e.to_string())),
    }
}

/// Calls `RwLock::try_write`, which, as std documents, never blocks: the guard, or `Busy`
/// when the lock is held, or `Poisoned` with the text of the poison error. Which one comes
/// depends on what other holders do: nothing is stated of it.
#[verifier::external_body]
fn try_write_lock<'a, T>(t: &'a RwLock<T>) -> Result<RwLockWriteGuard<'a, T>, TryLockFailure> {
    match t.try_write() {
        Ok(g) => Ok(g),
        Err(std::sync::TryLockError::WouldBlock) => Err(TryLockFailure::Busy),
        Err(std::sync::TryLockError::Poisoned(e)) => Err(TryLockFailure::Poisoned(e.to_string())),
    }
}

/// Whether `e` is the error of a poisoned lock: a poison error whose message is a colon,
/// a space and the text of the poison.
pub open spec fn is_poison_error(e: Error) -> bool {
    &&& e.spec_kind().name() == ErrKind::Poison
    &&& exists|t: Seq<char>| e.spec_kind().message() == ": "@ + t
}

/// A value behind a read-write lock, shared by its clones, which all carry the same id.
#[verifier::reject_recursive_types(T)]
pub struct LockImpl<T> {
    t: Arc<RwLock<T>>,
    id: u128,
}

impl<T> LockImpl<T> {
    /// The id of the lock.
    pub closed spec fn spec_id(&self) -> u128 {
        self.id
    }

    /// The id of the lock.
    pub fn id(&self) -> (r: u128)
        ensures
            r == self.spec_id(),
    {
        self.id
    }

    /// Takes the write lock without waiting, recording it in the registry of the calling
    /// thread while its guard lives. A lock this thread already holds is refused ("would
    /// deadlock"). Otherwise: the guard; `None` when another holder has the lock now (the
    /// caller waits and asks again); or, for a poisoned lock, a poison error with the text of
    /// the poison. Only a guard leaves the id in the registry.
    pub fn wlock(&self, registry: &mut LockRegistry) -> (r: Result<Option<RwLockWriteGuardWrapper<'_, T>>, Error>)
        ensures
            old(registry).held_ids().contains(self.spec_id()) ==> (r matches Err(e) && is_err_of(
                e,
                ErrKind::Poison,
                "would deadlock"@,
            )) && final(registry).held_ids() == old(registry).held_ids(),
            !old(registry).held_ids().contains(self.spec_id()) ==> match r {
                Ok(Some(g)) => g.spec_id() == self.spec_id() && final(registry).held_ids() == old(
                    registry,
                ).held_ids().insert(self.spec_id()),
                Ok(None) => final(registry).held_ids() == old(registry).held_ids(),
                Err(e) => is_poison_error(e) && final(registry).held_ids() == old(registry).held_ids(),
            },
    {
        registry.acquire(self.id)?;
        match try_write_lock(&*self.t) {
            Ok(guard) => Ok(Some(RwLockWriteGuardWrapper { guard, id: self.id })),
            Err(TryLockFailure::Busy) => {
                registry.release(self.id);
                proof {
                    assert(old(registry).held_ids().insert(self.id).remove(self.id) =~= old(registry).held_ids());
                }
                Ok(None)
            },
            Err(TryLockFailure::Poisoned(cause)) => {
                registry.release(self.id);
                proof {
                    assert(old(registry).held_ids().insert(self.id).remove(self.id) =~= old(registry).held_ids());
                }
                let e = map_err(ErrKind::Poison, "", cause.as_str());
                proof {
                    reveal_strlit("");
                    assert(""@ + ": "@ + cause@ =~= ": "@ + cause@);
                }
                Err(e)
            },
        }
    }

    /// Takes a read lock without waiting, recording it in the registry of the calling
    /// thread while its guard lives. A lock this thread already holds is refused ("would
    /// deadlock"). Otherwise: the guard; `None` when a writer has the lock now (the caller
    /// waits and asks again); or, for a poisoned lock, a poison error with the text of the
    /// poison. Only a guard leaves the id in the registry.
    pub fn rlock(&self, registry: &mut LockRegistry) -> (r: Result<Option<RwLockReadGuardWrapper<'_, T>>, Error>)
        ensures
            old(registry).held_ids().contains(self.spec_id()) ==> (r matches Err(e) && is_err_of(
                e,
                ErrKind::Poison,
                "would deadlock"@,
            )) && final(registry).held_ids() == old(registry).held_ids(),
            !old(registry).held_ids().contains(self.spec_id()) ==> match r {
                Ok(Some(g)) => g.spec_id() == self.spec_id() && final(registry).held_ids() == old(
                    registry,
                ).held_ids().insert(self.spec_id()),
                Ok(None) => final(registry).held_ids() == old(registry).held_ids(),
                Err(e) => is_poison_error(e) && final(registry).held_ids() == old(registry).held_ids(),
            },
    {
        registry.acquire(self.id)?;
        match try_read_lock(&*self.t) {
            Ok(guard) => Ok(Some(RwLockReadGuardWrapper { guard, id: self.id })),
            Err(TryLockFailure::Busy) => {
                registry.release(self.id);
                proof {
                    assert(old(registry).held_ids().insert(self.id).remove(self.id) =~= old(registry).held_ids());
                }
                Ok(None)
            },
            Err(TryLockFailure::Poisoned(cause)) => {
                registry.release(self.id);
                proof {
                    assert(old(registry).held_ids().insert(self.id).remove(self.id) =~= old(registry).held_ids());
                }
                let e = map_err(ErrKind::Poison, "", cause.as_str());
                proof {
                    reveal_strlit("");
                    assert(""@ + ": "@ + cause@ =~= ": "@ + cause@);
                }
                Err(e)
            },
        }
    }

    /// Another handle on the same lock, with the same id.
    pub fn clone(&self) -> (r: Self)
        ensures
            r.spec_id() == self.spec_id(),
    {
        LockImpl { t: share(&self.t), id: self.id }
    }
}

/// Builds locks.
pub struct LockBuilder {}

impl LockBuilder {
    /// Puts `t` behind a new lock with a random id.
    pub fn build<T>(t: T) -> (r: Result<LockImpl<T>, Error>)
        ensures
            r is Ok,
    {
        let id = random_u128();
        Ok(LockImpl { t: Arc::new(new_rwlock(t)), id })
    }
}

/// A lock just released can be taken again: taking a lock that is not held and releasing
/// it leaves the registry as it was.
pub proof fn law_acquire_release(held: Set<u128>, id: u128)
    requires
        !held.contains(id),
    ensures
        held.insert(id).remove(id) == held,
{
    assert(held.insert(id).remove(id) =~= held);
}

} // verus!
