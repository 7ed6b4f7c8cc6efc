//! The command interface adapter: validates a raw card id and drives
//! the registry's update-or-insert write, and looks up the caller's
//! own card.

use vstd::prelude::*;
use crate::registry::CardV;
use crate::registry::Registry;
use crate::validator::normalize;
use crate::validator::normalize_seq;
use crate::validator::valid_card_seq;
use crate::validator::validate;

verus! {

/// The result of a register-or-update request.
pub enum RegisterOutcome {
    /// First registration: a new row was created, holding this canonical id.
    Created { id: String },
    /// Repeat registration: the owner's row was overwritten with this canonical id.
    Updated { id: String },
    /// The raw card id did not normalize to 16 hexadecimal characters; nothing was written.
    InvalidFormat,
    /// The store reported a failure. The in-memory registry never fails;
    /// callers that drive a fallible store report it through this variant.
    StorageFailed,
}

/// The result of an owner's lookup of their own card.
pub enum LookupOutcome {
    /// The owner has a card: its display name and canonical id.
    Found { username: String, id: String },
    /// The owner has never successfully registered a card.
    NotRegistered,
    /// The store reported a failure. The in-memory registry never fails;
    /// callers that drive a fallible store report it through this variant.
    StorageFailed,
}

/// Normalizes and validates a raw card id: the canonical id if the
/// input is acceptable, `None` otherwise.
pub fn canonical_card_id(raw_card_id: &String) -> (r: Option<String>)
    ensures
        match r {
            Some(id) => valid_card_seq(normalize_seq(raw_card_id@)) && id@ == normalize_seq(
                raw_card_id@,
            ),
            None => !valid_card_seq(normalize_seq(raw_card_id@)),
        },
{
    let normalized = normalize(raw_card_id.as_str());
    if validate(normalized.as_str()) {
        Some(normalized)
    } else {
        None
    }
}

/// Registers or updates the caller's card: on a malformed id nothing is
/// written and the outcome is `InvalidFormat`; on a well-formed id the
/// registry gets exactly one write, an upsert of the canonical id and
/// the display name, and the outcome says whether the owner already had
/// a row.
pub fn register_or_update(
    reg: &mut Registry,
    owner_id: &String,
    raw_card_id: &String,
    display_name: &String,
) -> (r: RegisterOutcome)
    requires
        old(reg).wf(),
    ensures
        final(reg).wf(),
        !valid_card_seq(normalize_seq(raw_card_id@)) ==> r is InvalidFormat && *final(reg) == *old(
            reg,
        ),
        valid_card_seq(normalize_seq(raw_card_id@)) ==> final(reg)@ == old(reg)@.insert(
            owner_id@,
            CardV { id: normalize_seq(raw_card_id@), username: display_name@ },
        ),
        valid_card_seq(normalize_seq(raw_card_id@)) ==> match r {
            RegisterOutcome::Created { id } => !old(reg)@.contains_key(owner_id@) && id@
                == normalize_seq(raw_card_id@),
            RegisterOutcome::Updated { id } => old(reg)@.contains_key(owner_id@) && id@
                == normalize_seq(raw_card_id@),
            _ => false,
        },
{
    match canonical_card_id(raw_card_id) {
        None => RegisterOutcome::InvalidFormat,
        Some(id) => {
            let stored = id.clone();
            let existed = reg.upsert(owner_id, stored, display_name.clone());
            if existed {
                RegisterOutcome::Updated { id }
            } else {
                RegisterOutcome::Created { id }
            }
        },
    }
}

/// Looks up the caller's own card: its display name and id if one is
/// registered, `NotRegistered` otherwise.
pub fn lookup_own(reg: &Registry, owner_id: &String) -> (r: LookupOutcome)
    requires
        reg.wf(),
    ensures
        match r {
            LookupOutcome::Found { username, id } => reg@.contains_key(owner_id@) && id@
                == reg@[owner_id@].id && username@ == reg@[owner_id@].username,
            LookupOutcome::NotRegistered => !reg@.contains_key(owner_id@),
            LookupOutcome::StorageFailed => false,
        },
{
    match reg.get(owner_id) {
        Some(c) => LookupOutcome::Found { username: c.username, id: c.id },
        None => LookupOutcome::NotRegistered,
    }
}

} // verus!
