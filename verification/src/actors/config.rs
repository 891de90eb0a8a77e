//! Where the mind's store lives, as the runtime was configured.

use vstd::prelude::*;

use crate::memory::StoreLocation;

verus! {

/// The store location that a read expects, if any.
pub struct StoreLocationProbe {
    pub expected: Option<StoreLocation>,
}

/// A read of the configured store location.
pub struct ReadStoreLocation {
    pub probe: StoreLocationProbe,
}

impl ReadStoreLocation {
    /// A read that expects `store`.
    pub fn expecting(store: StoreLocation) -> (read: Self)
        ensures
            read.probe.expected == Some(store),
    {
        ReadStoreLocation { probe: StoreLocationProbe { expected: Some(store) } }
    }
}

/// The runtime's configuration: the store location.
pub struct Config {
    store: StoreLocation,
}

impl Config {
    pub closed spec fn location(&self) -> Seq<char> {
        self.store.path()
    }

    pub fn new(store: StoreLocation) -> (config: Self)
        ensures
            config.location() == store.path(),
    {
        Config { store }
    }

    pub fn store(&self) -> (store: &StoreLocation)
        ensures
            store.path() == self.location(),
    {
        &self.store
    }

    /// Answers a read with the configured location, and whether it is the one the
    /// read expected (a read that expects none always matches).
    pub fn read(&self, message: ReadStoreLocation) -> (answer: (StoreLocation, bool))
        ensures
            answer.0.path() == self.location(),
            answer.1 == match message.probe.expected {
                Some(expected) => expected.path() == self.location(),
                None => true,
            },
    {
        let matches = match &message.probe.expected {
            Some(expected) => crate::path::same_text(expected.as_str(), self.store.as_str()),
            None => true,
        };
        (self.store.duplicate(), matches)
    }
}

} // verus!
