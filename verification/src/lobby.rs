//! The registry of remote peers: which local entity stands for which peer.

use vstd::prelude::*;
use std::collections::HashMap;

verus! {

broadcast use vstd::std_specs::hash::group_hash_axioms;

/// For every remote peer that has been heard of, the handle of the local
/// entity that stands for it. Nothing ever leaves the registry.
pub struct LobbyInfo {
    pub players: HashMap<i64, u64>,
}

impl View for LobbyInfo {
    type V = Map<i64, u64>;

    open spec fn view(&self) -> Map<i64, u64> {
        self.players@
    }
}

impl Default for LobbyInfo {
    /// A registry that knows no peer.
    fn default() -> (lobby: LobbyInfo)
        ensures
            lobby@ == Map::<i64, u64>::empty(),
    {
        LobbyInfo::new()
    }
}

impl LobbyInfo {
    /// A registry that knows no peer.
    pub fn new() -> (lobby: LobbyInfo)
        ensures
            lobby@ == Map::<i64, u64>::empty(),
    {
        LobbyInfo { players: HashMap::new() }
    }

    /// The number of peers known.
    pub fn len(&self) -> (n: usize)
        ensures
            n == self@.len(),
    {
        self.players.len()
    }

    /// Whether the peer `id` is known.
    pub fn contains(&self, id: i64) -> (known: bool)
        ensures
            known == self@.contains_key(id),
    {
        self.players.contains_key(&id)
    }

    /// The handle of the entity that stands for the peer `id`.
    pub fn get(&self, id: i64) -> (handle: Option<u64>)
        ensures
            handle == (if self@.contains_key(id) {
                Some(self@[id])
            } else {
                None
            }),
    {
        match self.players.get(&id) {
            Some(h) => Some(*h),
            None => None,
        }
    }

    /// The handle for the peer `id`. A peer not yet known is entered with
    /// the handle that `on_missing` makes; for a known peer `on_missing` is
    /// not called and nothing changes.
    pub fn entry_or_create<F: FnOnce() -> u64>(&mut self, id: i64, on_missing: F) -> (handle: u64)
        requires
            !old(self)@.contains_key(id) ==> call_requires(on_missing, ()),
        ensures
            old(self)@.contains_key(id) ==> handle == old(self)@[id] && final(self)@ == old(self)@,
            !old(self)@.contains_key(id) ==> call_ensures(on_missing, (), handle) && final(self)@
                == old(self)@.insert(id, handle),
            final(self)@.contains_key(id) && final(self)@[id] == handle,
            final(self)@.dom() == old(self)@.dom().insert(id),
    {
        match self.get(id) {
            Some(h) => {
                assert(self@.dom() =~= old(self)@.dom().insert(id));
                h
            },
            None => {
                let h: u64 = on_missing();
                self.players.insert(id, h);
                assert(self@.dom() =~= old(self)@.dom().insert(id));
                h
            },
        }
    }
}

} // verus!
