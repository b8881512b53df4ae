//! Access gate: the single-owner pairing policy.
//!
//! On every new connection the access gate reads the pairing slot and decides
//! whether the connecting identity may stay. The first identity ever
//! observed becomes the permanent owner (pairing bootstrap); afterwards
//! only that identity is accepted and every other one is rejected. A
//! failed slot read degrades to the "no record" branch: the device
//! treats itself as unpaired and lets the connecting identity attempt
//! the bootstrap. That trade favours availability over strict lockout
//! on storage faults and is a deliberate policy, not a defect.

use vstd::prelude::*;

use crate::store::{get_past_pair_id, save_pair_id, stored_view, PairingStore, StoreError};

verus! {

/// An opaque, comparable identity of a connecting controller, e.g. a
/// link-layer address rendered as text.
pub type DeviceIdentity = String;

/// Verdict of the access gate on one connection attempt.
#[derive(Clone, Copy, PartialEq, Eq, Structural, Debug)]
pub enum Decision {
    Accept,
    Reject,
}

/// What the access gate decided and what it wants written back to the store:
/// `record_to_save` carries the identity to bootstrap as the new owner,
/// or nothing when the slot already binds the device.
pub struct GateOutcome {
    pub decision: Decision,
    pub record_to_save: Option<DeviceIdentity>,
}

/// Whether the access gate accepts identity `id` against slot content `slot`,
/// where `read_failed` says that the slot could not be read at all.
pub open spec fn accepts(slot: Option<Seq<char>>, read_failed: bool, id: Seq<char>) -> bool {
    if read_failed {
        true
    } else {
        match slot {
            Option::None => true,
            Option::Some(owner) => owner == id,
        }
    }
}

/// Whether the access gate, seeing `slot` under `read_failed`, attempts to
/// bootstrap the connecting identity as the new owner.
pub open spec fn bootstraps(slot: Option<Seq<char>>, read_failed: bool) -> bool {
    read_failed || slot is None
}

/// The slot content after one connection of `id`, for a store whose
/// read path reported `read_failed` and whose write path fails iff
/// `write_fails`.
pub open spec fn slot_after(
    slot: Option<Seq<char>>,
    read_failed: bool,
    write_fails: bool,
    id: Seq<char>,
) -> Option<Seq<char>> {
    if bootstraps(slot, read_failed) && !write_fails {
        Option::Some(id)
    } else {
        slot
    }
}

/// Pure gate decision over the result of one slot read.
///
/// This is the form the device wiring calls when the real persistent
/// engine performs the read: it hands the read result in and carries
/// the returned record, if any, back to the engine's set operation.
pub fn evaluate_read(read: Result<Option<String>, StoreError>, identity: &DeviceIdentity) -> (o:
    GateOutcome)
    ensures
        ({
            let slot = match read {
                Ok(v) => stored_view(v),
                Err(_) => Option::None,
            };
            let read_failed = read is Err;
            &&& (o.decision == Decision::Accept) == accepts(slot, read_failed, identity@)
            &&& if bootstraps(slot, read_failed) {
                o.record_to_save matches Some(r) && r@ == identity@
            } else {
                o.record_to_save is None
            }
        }),
{
    match read {
        Ok(Some(owner)) => {
            if owner == *identity {
                GateOutcome { decision: Decision::Accept, record_to_save: None }
            } else {
                GateOutcome { decision: Decision::Reject, record_to_save: None }
            }
        },
        Ok(None) => GateOutcome {
            decision: Decision::Accept,
            record_to_save: Some(identity.clone()),
        },
        Err(_) => GateOutcome {
            decision: Decision::Accept,
            record_to_save: Some(identity.clone()),
        },
    }
}

/// The access gate, owning its view of the persistent pairing store.
pub struct AccessGate {
    pub store: PairingStore,
}

impl AccessGate {
    /// A gate over the given pairing store.
    pub fn new(store: PairingStore) -> (g: Self)
        ensures
            g.store == store,
    {
        AccessGate { store }
    }

    /// Decide whether the connecting `identity` may stay, bootstrapping
    /// it as the permanent owner when the device is (or appears, after
    /// a failed read) unpaired.
    pub fn evaluate(&mut self, identity: &DeviceIdentity) -> (d: Decision)
        ensures
            (d == Decision::Accept) == accepts(
                stored_view(old(self).store.slot),
                old(self).store.read_fails,
                identity@,
            ),
            stored_view(final(self).store.slot) == slot_after(
                stored_view(old(self).store.slot),
                old(self).store.read_fails,
                old(self).store.write_fails,
                identity@,
            ),
            final(self).store.read_fails == old(self).store.read_fails,
            final(self).store.write_fails == old(self).store.write_fails,
    {
        let read = get_past_pair_id(&self.store);
        let outcome = evaluate_read(read, identity);
        match outcome.record_to_save {
            Some(record) => {
                let _ = save_pair_id(&mut self.store, record);
            },
            None => {},
        }
        outcome.decision
    }
}

/// The slot content after a whole sequence of connections, one
/// `evaluate` per identity, over a healthy storage medium.
pub open spec fn run_gate(slot: Option<Seq<char>>, ids: Seq<Seq<char>>) -> Option<Seq<char>>
    decreases ids.len(),
{
    if ids.len() == 0 {
        slot
    } else {
        run_gate(slot_after(slot, false, false, ids[0]), ids.drop_first())
    }
}

/// Bootstrap happens at most once: on a healthy medium, a pairing
/// record, once set to `owner`, keeps that value across every further
/// sequence of connecting identities.
pub proof fn lemma_bootstrap_once(owner: Seq<char>, ids: Seq<Seq<char>>)
    ensures
        run_gate(Option::Some(owner), ids) == Option::Some(owner),
    decreases ids.len(),
{
    if ids.len() > 0 {
        assert(slot_after(Option::Some(owner), false, false, ids[0]) == Option::Some(owner));
        lemma_bootstrap_once(owner, ids.drop_first());
    }
}

/// On an unpaired device with a healthy medium, the first connecting
/// identity becomes the owner, and stays the owner from then on.
pub proof fn lemma_first_identity_becomes_owner(ids: Seq<Seq<char>>)
    requires
        ids.len() > 0,
    ensures
        run_gate(Option::None, ids) == Option::Some(ids[0]),
{
    lemma_bootstrap_once(ids[0], ids.drop_first());
}

/// Lockout: while a record for `owner` exists and the medium is
/// healthy, a connection is accepted exactly when the identity equals
/// `owner`, and the record never moves.
pub proof fn lemma_lockout(owner: Seq<char>, id: Seq<char>, write_fails: bool)
    ensures
        accepts(Option::Some(owner), false, id) <==> id == owner,
        slot_after(Option::Some(owner), false, write_fails, id) == Option::Some(owner),
{
}

/// Storage degrade: when the slot read fails, the access gate behaves exactly
/// as it does on a device without any pairing record — it accepts and
/// attempts to bootstrap the connecting identity.
pub proof fn lemma_storage_degrade(slot: Option<Seq<char>>, id: Seq<char>)
    ensures
        accepts(slot, true, id) == accepts(Option::None, false, id),
        bootstraps(slot, true) == bootstraps(Option::None, false),
        slot_after(slot, true, false, id) == slot_after(Option::None, false, false, id),
{
}

} // verus!
