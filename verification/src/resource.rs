//! Resource lifecycle: every native-style resource is created empty,
//! initialized exactly once before use, and cleared exactly once when it is
//! given up. `ManagedResource` is a scoped guard that initializes a resource
//! on construction and guarantees that it is cleared on every exit path.

use vstd::prelude::*;

verus! {

/// A resource backed by a handle that must be initialized before any other
/// operation and cleared exactly once afterwards. Calling `initialize` on an
/// already-initialized resource, or `clear` on an uninitialized one, is a
/// contract violation, which the `requires` clauses rule out.
pub trait Resource: Sized {
    /// Whether the underlying handle is currently initialized.
    spec fn initialized(&self) -> bool;

    /// Create the resource in its empty, uninitialized state.
    fn make() -> (r: Self)
        ensures
            !r.initialized(),
    ;

    /// Runtime mirror of `initialized`.
    fn is_initialized(&self) -> (b: bool)
        ensures
            b == self.initialized(),
    ;

    /// Set up the underlying handle. Returns whether the underlying
    /// initialization reported success.
    fn initialize(&mut self) -> (ok: bool)
        requires
            !old(self).initialized(),
        ensures
            ok ==> final(self).initialized(),
            !ok ==> !final(self).initialized(),
    ;

    /// Release the underlying handle. The resource is uninitialized
    /// afterwards whatever the reported outcome.
    fn clear(&mut self) -> (ok: bool)
        requires
            old(self).initialized(),
        ensures
            !final(self).initialized(),
    ;
}

/// Returned by `ManagedResource::initialize` when the resource reports that
/// its underlying initialization failed.
#[derive(Clone, Copy, Debug, PartialEq, Eq, Structural)]
pub struct InitializeError;

/// Owns a resource that is already initialized and clears it exactly once
/// when the guard is given up with `dispose`. Ownership makes a second clear
/// impossible: the guard is consumed by `dispose` and cannot be disposed
/// twice.
pub struct ManagedResource<R: Resource> {
    resource: R,
}

impl<R: Resource> ManagedResource<R> {
    /// The guarded resource.
    pub closed spec fn res(&self) -> R {
        self.resource
    }

    /// Acquire: create a resource and initialize it. Fails exactly when the
    /// resource reports that its underlying initialization failed; no
    /// partially initialized guard is ever returned.
    pub fn initialize() -> (r: Result<Self, InitializeError>)
        ensures
            r matches Ok(g) ==> g.res().initialized(),
    {
        let mut resource = R::make();
        if resource.initialize() {
            Ok(ManagedResource { resource })
        } else {
            Err(InitializeError)
        }
    }

    /// Borrow the guarded resource.
    pub fn get(&self) -> (r: &R)
        ensures
            *r == self.res(),
    {
        &self.resource
    }

    /// Borrow the guarded resource mutably.
    pub fn get_mut(&mut self) -> (r: &mut R)
        ensures
            *r == old(self).res(),
            final(self).res() == *final(r),
    {
        &mut self.resource
    }

    /// Give the guard up: clears the resource exactly once and hands back the
    /// cleared resource. Consuming the guard means no second clear can ever
    /// follow, and a clear that already happened through `get_mut` is not
    /// repeated here.
    pub fn dispose(self) -> (r: R)
        ensures
            !r.initialized(),
    {
        let ManagedResource { mut resource } = self;
        if resource.is_initialized() {
            let _ = resource.clear();
        }
        resource
    }
}

} // verus!
