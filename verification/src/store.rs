//! In-memory model of the persistent pairing store.
//!
//! The real device keeps the pairing record in a non-volatile key-value
//! partition that survives power loss. The core only relies on the
//! store's get/set contract, so this module models the single pairing
//! slot as a plain optional string together with two fault switches that
//! stand for a degraded storage medium. Reads and writes behave exactly
//! like the external engine's: a read on a faulty medium reports an
//! error instead of a value, and a failed write leaves the slot alone.

use vstd::prelude::*;

verus! {

/// Error reported by the pairing store when the storage medium fails.
#[derive(Clone, Copy, PartialEq, Eq, Structural, Debug)]
pub struct StoreError;

/// The single persistent pairing slot, with fault switches that model a
/// degraded storage medium.
pub struct PairingStore {
    /// Contents of the pairing slot: the identity of the paired owner,
    /// if one was ever recorded.
    pub slot: Option<String>,
    /// When set, every read reports a `StoreError`.
    pub read_fails: bool,
    /// When set, every write reports a `StoreError` and changes nothing.
    pub write_fails: bool,
}

/// The character-level content of a pairing slot value.
pub open spec fn stored_view(slot: Option<String>) -> Option<Seq<char>> {
    match slot {
        Option::None => Option::None,
        Option::Some(s) => Option::Some(s@),
    }
}

impl PairingStore {
    /// A store that has never recorded a pairing and whose medium is healthy.
    pub fn empty() -> (s: Self)
        ensures
            s.slot is None,
            !s.read_fails,
            !s.write_fails,
    {
        PairingStore { slot: None, read_fails: false, write_fails: false }
    }

    /// Switch the read path of the medium between healthy and faulty.
    pub fn set_read_fault(&mut self, fails: bool)
        ensures
            final(self).read_fails == fails,
            final(self).slot == old(self).slot,
            final(self).write_fails == old(self).write_fails,
    {
        self.read_fails = fails;
    }

    /// Switch the write path of the medium between healthy and faulty.
    pub fn set_write_fault(&mut self, fails: bool)
        ensures
            final(self).write_fails == fails,
            final(self).slot == old(self).slot,
            final(self).read_fails == old(self).read_fails,
    {
        self.write_fails = fails;
    }
}

/// Read the recorded owner identity from the pairing slot.
///
/// Mirrors the get contract of the persistent engine: on a healthy
/// medium the call returns the slot's content; on a faulty medium it
/// reports a `StoreError` and reveals nothing.
pub fn get_past_pair_id(store: &PairingStore) -> (r: Result<Option<String>, StoreError>)
    ensures
        store.read_fails ==> r is Err,
        !store.read_fails ==> (r matches Ok(v) && v == store.slot),
{
    if store.read_fails {
        Err(StoreError)
    } else {
        match &store.slot {
            None => Ok(None),
            Some(s) => Ok(Some(s.clone())),
        }
    }
}

/// Record `id` as the owner identity in the pairing slot.
///
/// Mirrors the set contract of the persistent engine: on a healthy
/// medium the slot afterwards holds exactly `id`; a failed write reports
/// a `StoreError` and leaves the slot unchanged.
pub fn save_pair_id(store: &mut PairingStore, id: String) -> (r: Result<(), StoreError>)
    ensures
        old(store).write_fails ==> r is Err && *final(store) == *old(store),
        !old(store).write_fails ==> {
            &&& r is Ok
            &&& final(store).slot == Some(id)
            &&& final(store).read_fails == old(store).read_fails
            &&& final(store).write_fails == old(store).write_fails
        },
{
    if store.write_fails {
        Err(StoreError)
    } else {
        store.slot = Some(id);
        Ok(())
    }
}

} // verus!
