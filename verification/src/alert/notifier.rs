//! The console notifier of opportunities.
use vstd::prelude::*;

verus! {

/// Reports opportunities and records them in `storage`.
pub struct Notifier<S> {
    storage: S,
}

impl<S> Notifier<S> {
    /// The store in which opportunities are recorded.
    pub closed spec fn store(&self) -> S {
        self.storage
    }

    /// A notifier that records into `storage`.
    pub fn new(storage: S) -> (n: Self)
        ensures
            n.store() == storage,
    {
        Notifier { storage }
    }

    /// The store in which opportunities are recorded.
    pub fn storage(&self) -> (s: &S)
        ensures
            *s == self.store(),
    {
        &self.storage
    }
}

} // verus!
