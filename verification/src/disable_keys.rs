//! Disabling keys of an identity.

use vstd::prelude::*;
use vstd::std_specs::iter::IteratorSpec;

use crate::context::AppContext;
use crate::error::TaskError;
use crate::identifier::{lemma_array_ext, Identifier};
use crate::identity::{
    keys_well_placed, keys_with, law_added_keys_take_their_places, Identity, IdentityModel,
    IdentityPublicKey, KeyID, Purpose, QualifiedIdentity, SecurityLevel,
};
use crate::payload::Payload;
use crate::result::{BackendTaskSuccessResult, FeeResult};
use crate::sdk::{RenderedError, StateTransitionProofResult};

verus! {

/// The name of a security level.
pub open spec fn level_text(level: SecurityLevel) -> Seq<char> {
    match level {
        SecurityLevel::MASTER => "Master"@,
        SecurityLevel::CRITICAL => "Critical"@,
        SecurityLevel::HIGH => "High"@,
        SecurityLevel::MEDIUM => "Medium"@,
    }
}

/// The name of a purpose.
pub open spec fn purpose_text(purpose: Purpose) -> Seq<char> {
    match purpose {
        Purpose::AUTHENTICATION => "Authentication"@,
        Purpose::ENCRYPTION => "Encryption"@,
        Purpose::DECRYPTION => "Decryption"@,
        Purpose::TRANSFER => "Transfer"@,
        Purpose::SYSTEM => "System"@,
        Purpose::VOTING => "Voting"@,
        Purpose::OWNER => "Owner"@,
    }
}

/// The name of a security level, as users read it.
pub fn security_level_label(level: SecurityLevel) -> (r: &'static str)
    ensures
        r@ == level_text(level),
{
    match level {
        SecurityLevel::MASTER => "Master",
        SecurityLevel::CRITICAL => "Critical",
        SecurityLevel::HIGH => "High",
        SecurityLevel::MEDIUM => "Medium",
    }
}

/// The name of a purpose, as users read it.
pub fn purpose_label(purpose: Purpose) -> (r: &'static str)
    ensures
        r@ == purpose_text(purpose),
{
    match purpose {
        Purpose::AUTHENTICATION => "Authentication",
        Purpose::ENCRYPTION => "Encryption",
        Purpose::DECRYPTION => "Decryption",
        Purpose::TRANSFER => "Transfer",
        Purpose::SYSTEM => "System",
        Purpose::VOTING => "Voting",
        Purpose::OWNER => "Owner",
    }
}

/// Whether a key is enabled and serves a role.
pub open spec fn serves(key: IdentityPublicKey, purpose: Purpose, level: SecurityLevel) -> bool {
    !key.disabled() && key.purpose == purpose && key.security_level == level
}

/// Whether an enabled key outside the batch serves a role.
pub open spec fn role_remains(
    keys: Map<KeyID, IdentityPublicKey>,
    batch: Seq<KeyID>,
    purpose: Purpose,
    level: SecurityLevel,
) -> bool {
    exists|id: KeyID| #[trigger]
        keys.contains_key(id) && serves(keys[id], purpose, level) && !batch.contains(keys[id].id)
}

/// Why a key of a batch cannot be disabled.
pub enum Refusal {
    NotFound,
    AlreadyDisabled,
    Master,
    LastOfRole(Purpose, SecurityLevel),
}

/// Why a key cannot be disabled together with the rest of its batch, if it cannot. The key has to
/// be there, enabled and no master key, and its role must not be left without a key.
pub open spec fn refusal(
    keys: Map<KeyID, IdentityPublicKey>,
    batch: Seq<KeyID>,
    id: KeyID,
) -> Option<Refusal> {
    if !keys.contains_key(id) {
        Some(Refusal::NotFound)
    } else if keys[id].disabled() {
        Some(Refusal::AlreadyDisabled)
    } else if keys[id].security_level == SecurityLevel::MASTER {
        Some(Refusal::Master)
    } else if !role_remains(keys, batch, keys[id].purpose, keys[id].security_level) {
        Some(Refusal::LastOfRole(keys[id].purpose, keys[id].security_level))
    } else {
        None
    }
}

/// Whether a batch of keys can be disabled.
pub open spec fn can_be_disabled(
    keys: Map<KeyID, IdentityPublicKey>,
    batch: Seq<KeyID>,
) -> bool {
    &&& batch.len() > 0
    &&& forall|i: int| 0 <= i < batch.len() ==> refusal(keys, batch, #[trigger] batch[i]) is None
}

/// Whether the first key of a batch that is refused stands at `i`.
pub open spec fn first_refused(
    keys: Map<KeyID, IdentityPublicKey>,
    batch: Seq<KeyID>,
    i: int,
) -> bool {
    &&& 0 <= i < batch.len()
    &&& refusal(keys, batch, batch[i]) is Some
    &&& forall|j: int| 0 <= j < i ==> refusal(keys, batch, #[trigger] batch[j]) is None
}

/// Whether an error says that a key is refused, and why.
pub open spec fn tells(e: TaskError, id: KeyID, why: Refusal) -> bool {
    match why {
        Refusal::NotFound => e == TaskError::KeyNotFoundOnIdentity { key_id: id },
        Refusal::AlreadyDisabled => e == TaskError::KeyAlreadyDisabled { key_id: id },
        Refusal::Master => e == TaskError::CannotDisableMasterKey { key_id: id },
        Refusal::LastOfRole(p, l) => {
            &&& e matches TaskError::WouldLeaveNoKeyAtPurposeLevel {
                key_id,
                purpose,
                security_level,
            }
            &&& key_id == id
            &&& purpose@ == purpose_text(p)
            &&& security_level@ == level_text(l)
        },
    }
}

/// Whether an error says why a batch is refused: it is empty, or the first key that is refused
/// and why.
pub open spec fn refuses(
    e: TaskError,
    keys: Map<KeyID, IdentityPublicKey>,
    batch: Seq<KeyID>,
) -> bool {
    if batch.len() == 0 {
        e == TaskError::NoKeysToDisable
    } else {
        exists|i: int| #[trigger]
            first_refused(keys, batch, i) && tells(e, batch[i], refusal(keys, batch, batch[i])->0)
    }
}

/// The names of security levels and purposes, as users read them.
pub proof fn law_roles_have_their_names()
    ensures
        level_text(SecurityLevel::MASTER) == "Master"@,
        level_text(SecurityLevel::CRITICAL) == "Critical"@,
        level_text(SecurityLevel::HIGH) == "High"@,
        level_text(SecurityLevel::MEDIUM) == "Medium"@,
        purpose_text(Purpose::AUTHENTICATION) == "Authentication"@,
        purpose_text(Purpose::ENCRYPTION) == "Encryption"@,
        purpose_text(Purpose::DECRYPTION) == "Decryption"@,
        purpose_text(Purpose::TRANSFER) == "Transfer"@,
        purpose_text(Purpose::SYSTEM) == "System"@,
        purpose_text(Purpose::VOTING) == "Voting"@,
        purpose_text(Purpose::OWNER) == "Owner"@,
{
}

/// Whether some key with a purpose and a level is enabled and none of the batch.
pub open spec fn has_enabled_key_outside(
    keys: Map<KeyID, IdentityPublicKey>,
    batch: Seq<KeyID>,
    purpose: Purpose,
    level: SecurityLevel,
) -> bool {
    exists|id: KeyID| #[trigger]
        keys.contains_key(id) && keys[id].disabled_at is None && keys[id].purpose == purpose
            && keys[id].security_level == level && !batch.contains(keys[id].id)
}

/// A batch can be disabled exactly where it is not empty and each of its keys is there, enabled and
/// no master key, and another enabled key of the same purpose and level is none of the batch.
pub proof fn law_batch_can_be_disabled(keys: Map<KeyID, IdentityPublicKey>, batch: Seq<KeyID>)
    ensures
        can_be_disabled(keys, batch) <==> batch.len() > 0 && (forall|i: int|
            0 <= i < batch.len() ==> {
                &&& keys.contains_key(#[trigger] batch[i])
                &&& keys[batch[i]].disabled_at is None
                &&& keys[batch[i]].security_level != SecurityLevel::MASTER
                &&& has_enabled_key_outside(
                    keys,
                    batch,
                    keys[batch[i]].purpose,
                    keys[batch[i]].security_level,
                )
            }),
{
    assert forall|p: Purpose, l: SecurityLevel| #[trigger]
        role_remains(keys, batch, p, l) <==> has_enabled_key_outside(keys, batch, p, l) by {
        lemma_role_remains(keys, batch, p, l);
    }
    if can_be_disabled(keys, batch) {
        assert forall|i: int| 0 <= i < batch.len() implies {
            &&& keys.contains_key(#[trigger] batch[i])
            &&& keys[batch[i]].disabled_at is None
            &&& keys[batch[i]].security_level != SecurityLevel::MASTER
            &&& has_enabled_key_outside(
                keys,
                batch,
                keys[batch[i]].purpose,
                keys[batch[i]].security_level,
            )
        } by {
            assert(refusal(keys, batch, batch[i]) is None);
        }
    }
}

proof fn lemma_role_remains(
    keys: Map<KeyID, IdentityPublicKey>,
    batch: Seq<KeyID>,
    purpose: Purpose,
    level: SecurityLevel,
)
    ensures
        role_remains(keys, batch, purpose, level) <==> has_enabled_key_outside(
            keys,
            batch,
            purpose,
            level,
        ),
{
    if role_remains(keys, batch, purpose, level) {
        let id = choose|id: KeyID| #[trigger]
            keys.contains_key(id) && serves(keys[id], purpose, level) && !batch.contains(
                keys[id].id,
            );
        assert(keys.contains_key(id) && keys[id].disabled_at is None);
    }
    if has_enabled_key_outside(keys, batch, purpose, level) {
        let id = choose|id: KeyID| #[trigger]
            keys.contains_key(id) && keys[id].disabled_at is None && keys[id].purpose == purpose
                && keys[id].security_level == level && !batch.contains(keys[id].id);
        assert(keys.contains_key(id) && serves(keys[id], purpose, level));
    }
}

/// No batch that can be disabled takes the last enabled key of a purpose and level: of each, where
/// some key is enabled, some enabled key is none of the batch.
pub proof fn law_every_role_keeps_a_key(
    keys: Map<KeyID, IdentityPublicKey>,
    batch: Seq<KeyID>,
    purpose: Purpose,
    level: SecurityLevel,
)
    requires
        can_be_disabled(keys, batch),
        forall|id: KeyID| #[trigger] keys.contains_key(id) ==> keys[id].id == id,
        exists|id: KeyID| #[trigger]
            keys.contains_key(id) && keys[id].disabled_at is None && keys[id].purpose == purpose
                && keys[id].security_level == level,
    ensures
        exists|id: KeyID| #[trigger]
            keys.contains_key(id) && keys[id].disabled_at is None && keys[id].purpose == purpose
                && keys[id].security_level == level && !batch.contains(id),
{
    law_batch_can_be_disabled(keys, batch);
    let id = choose|id: KeyID| #[trigger]
        keys.contains_key(id) && keys[id].disabled_at is None && keys[id].purpose == purpose
            && keys[id].security_level == level;
    if batch.contains(id) {
        let i = choose|i: int| 0 <= i < batch.len() && batch[i] == id;
        assert(keys.contains_key(batch[i]));
        let other = choose|other: KeyID| #[trigger]
            keys.contains_key(other) && keys[other].disabled_at is None && keys[other].purpose
                == purpose && keys[other].security_level == level && !batch.contains(
                keys[other].id,
            );
        assert(keys.contains_key(other) && !batch.contains(other));
    } else {
        assert(keys.contains_key(id) && !batch.contains(id));
    }
}

/// Whether an error names a key.
pub open spec fn blames(e: TaskError, id: KeyID) -> bool {
    match e {
        TaskError::KeyNotFoundOnIdentity { key_id } => key_id == id,
        TaskError::KeyAlreadyDisabled { key_id } => key_id == id,
        TaskError::CannotDisableMasterKey { key_id } => key_id == id,
        TaskError::WouldLeaveNoKeyAtPurposeLevel { key_id, purpose, security_level } => key_id
            == id,
        _ => false,
    }
}

/// An error names the first key of the batch that cannot be disabled, and the first thing that is
/// wrong with it: that it is not there, that it is disabled, that it is a master key, or the role
/// that it alone would leave. Only an empty batch has no such key.
pub proof fn law_refusal_names_the_key_and_the_reason(
    e: TaskError,
    keys: Map<KeyID, IdentityPublicKey>,
    batch: Seq<KeyID>,
)
    requires
        refuses(e, keys, batch),
    ensures
        e == TaskError::NoKeysToDisable <==> batch.len() == 0,
        match e {
            TaskError::NoKeysToDisable => true,
            TaskError::KeyNotFoundOnIdentity { key_id } => batch.contains(key_id)
                && !keys.contains_key(key_id),
            TaskError::KeyAlreadyDisabled { key_id } => batch.contains(key_id)
                && keys.contains_key(key_id) && keys[key_id].disabled_at is Some,
            TaskError::CannotDisableMasterKey { key_id } => batch.contains(key_id)
                && keys.contains_key(key_id) && keys[key_id].disabled_at is None
                && keys[key_id].security_level == SecurityLevel::MASTER,
            TaskError::WouldLeaveNoKeyAtPurposeLevel { key_id, purpose, security_level } => {
                &&& batch.contains(key_id)
                &&& keys.contains_key(key_id)
                &&& keys[key_id].disabled_at is None
                &&& keys[key_id].security_level != SecurityLevel::MASTER
                &&& !has_enabled_key_outside(
                    keys,
                    batch,
                    keys[key_id].purpose,
                    keys[key_id].security_level,
                )
                &&& purpose@ == purpose_text(keys[key_id].purpose)
                &&& security_level@ == level_text(keys[key_id].security_level)
            },
            _ => false,
        },
        batch.len() > 0 ==> exists|i: int|
            0 <= i < batch.len() && blames(e, #[trigger] batch[i]) && (forall|j: int|
                0 <= j < i ==> {
                    &&& keys.contains_key(#[trigger] batch[j])
                    &&& keys[batch[j]].disabled_at is None
                    &&& keys[batch[j]].security_level != SecurityLevel::MASTER
                    &&& has_enabled_key_outside(
                        keys,
                        batch,
                        keys[batch[j]].purpose,
                        keys[batch[j]].security_level,
                    )
                }),
{
    if batch.len() > 0 {
        let i = choose|i: int| #[trigger]
            first_refused(keys, batch, i) && tells(e, batch[i], refusal(keys, batch, batch[i])->0);
        assert(batch.contains(batch[i]));
        lemma_role_remains(keys, batch, keys[batch[i]].purpose, keys[batch[i]].security_level);
        assert forall|j: int| 0 <= j < i implies {
            &&& keys.contains_key(#[trigger] batch[j])
            &&& keys[batch[j]].disabled_at is None
            &&& keys[batch[j]].security_level != SecurityLevel::MASTER
            &&& has_enabled_key_outside(
                keys,
                batch,
                keys[batch[j]].purpose,
                keys[batch[j]].security_level,
            )
        } by {
            assert(refusal(keys, batch, batch[j]) is None);
            lemma_role_remains(keys, batch, keys[batch[j]].purpose, keys[batch[j]].security_level);
        }
    }
}

/// Whether a batch has a key.
fn lists_key(batch: &[KeyID], id: KeyID) -> (r: bool)
    ensures
        r == batch@.contains(id),
{
    let mut i: usize = 0;
    while i < batch.len()
        invariant
            i <= batch@.len(),
            forall|j: int| 0 <= j < i ==> batch@[j] != id,
        decreases batch@.len() - i,
    {
        if batch[i] == id {
            assert(batch@[i as int] == id);
            return true;
        }
        i = i + 1;
    }
    false
}

/// Whether an enabled key outside the batch serves a role.
fn still_enabled(
    identity: &Identity,
    batch: &[KeyID],
    purpose: Purpose,
    level: SecurityLevel,
) -> (r: bool)
    ensures
        r == role_remains(identity.public_keys@, batch@, purpose, level),
{
    let ghost keys = identity.public_keys@;
    let values = identity.public_keys.values();
    let ghost all = values.remaining();
    for key in it: values
        invariant
            it.seq() == all,
            all.unref().to_set() == keys.values(),
            keys == identity.public_keys@,
            forall|j: int|
                0 <= j < it.index() ==> !(serves(*#[trigger] all[j], purpose, level)
                    && !batch@.contains(all[j].id)),
    {
        proof {
            assert(all.unref()[it.index() as int] == *key);
            assert(all.unref().to_set().contains(*key));
            assert(keys.values().contains(*key));
        }
        if !key.is_disabled() && key.purpose == purpose && key.security_level == level
            && !lists_key(batch, key.id) {
            proof {
                let id = choose|id: KeyID| #[trigger] keys.contains_key(id) && keys[id] == *key;
                assert(keys.contains_key(id));
            }
            return true;
        }
        assert(*key == *all[it.index() as int]);
    }
    proof {
        if role_remains(keys, batch@, purpose, level) {
            let id = choose|id: KeyID| #[trigger]
                keys.contains_key(id) && serves(keys[id], purpose, level) && !batch@.contains(
                    keys[id].id,
                );
            assert(keys.values().contains(keys[id]));
            assert(all.unref().to_set().contains(keys[id]));
            let j = choose|j: int| 0 <= j < all.unref().len() && all.unref()[j] == keys[id];
            assert(*all[j] == keys[id]);
        }
    }
    false
}

/// Checks that a batch of keys can be disabled on an identity: it is not empty, and each of its
/// keys is there, enabled, no master key, and not the last one of its role.
pub fn validate_keys_can_be_disabled(identity: &Identity, key_ids: &[KeyID]) -> (r: Result<
    (),
    TaskError,
>)
    ensures
        r is Ok <==> can_be_disabled(identity.public_keys@, key_ids@),
        r matches Err(e) ==> refuses(e, identity.public_keys@, key_ids@),
        r is Ok && identity.well_formed() ==> forall|id: KeyID| #[trigger]
            identity.public_keys@.contains_key(id) && identity.public_keys@[id].disabled_at is None
                ==> exists|other: KeyID| #[trigger]
                identity.public_keys@.contains_key(other)
                    && identity.public_keys@[other].disabled_at is None
                    && identity.public_keys@[other].purpose == identity.public_keys@[id].purpose
                    && identity.public_keys@[other].security_level
                    == identity.public_keys@[id].security_level && !key_ids@.contains(other),
{
    if key_ids.len() == 0 {
        return Err(TaskError::NoKeysToDisable);
    }
    let ghost keys = identity.public_keys@;
    let mut i: usize = 0;
    while i < key_ids.len()
        invariant
            i <= key_ids@.len(),
            keys == identity.public_keys@,
            forall|j: int|
                0 <= j < i ==> refusal(keys, key_ids@, #[trigger] key_ids@[j]) is None,
        decreases key_ids@.len() - i,
    {
        let key_id: KeyID = key_ids[i];
        let error = match identity.public_keys.get(&key_id) {
            None => Some(TaskError::KeyNotFoundOnIdentity { key_id }),
            Some(key) => if key.is_disabled() {
                Some(TaskError::KeyAlreadyDisabled { key_id })
            } else if key.security_level == SecurityLevel::MASTER {
                Some(TaskError::CannotDisableMasterKey { key_id })
            } else if !still_enabled(identity, key_ids, key.purpose, key.security_level) {
                Some(
                    TaskError::WouldLeaveNoKeyAtPurposeLevel {
                        key_id,
                        purpose: purpose_label(key.purpose),
                        security_level: security_level_label(key.security_level),
                    },
                )
            } else {
                None
            },
        };
        if let Some(e) = error {
            assert(first_refused(keys, key_ids@, i as int));
            assert(tells(e, key_ids@[i as int], refusal(keys, key_ids@, key_ids@[i as int])->0));
            return Err(e);
        }
        i = i + 1;
    }
    proof {
        if identity.well_formed() {
            assert forall|id: KeyID| #[trigger]
                keys.contains_key(id) && keys[id].disabled_at is None implies exists|other: KeyID|
                #[trigger]
                keys.contains_key(other) && keys[other].disabled_at is None && keys[other].purpose
                    == keys[id].purpose && keys[other].security_level == keys[id].security_level
                    && !key_ids@.contains(other) by {
                law_every_role_keeps_a_key(
                    keys,
                    key_ids@,
                    keys[id].purpose,
                    keys[id].security_level,
                );
            }
        }
    }
    Ok(())
}

/// The keys after a batch was disabled at some time.
pub open spec fn batch_disabled(
    keys: Map<KeyID, IdentityPublicKey>,
    batch: Seq<KeyID>,
    at: u64,
) -> Map<KeyID, IdentityPublicKey> {
    Map::new(
        |id: KeyID| keys.contains_key(id),
        |id: KeyID|
            if batch.contains(id) {
                IdentityPublicKey { disabled_at: Some(at), ..keys[id] }
            } else {
                keys[id]
            },
    )
}

/// A batch that can be disabled takes no role from an identity: every role that an enabled key
/// served before, an enabled key serves afterwards. Master keys stay as they are.
pub proof fn law_no_role_is_lost(
    keys: Map<KeyID, IdentityPublicKey>,
    batch: Seq<KeyID>,
    at: u64,
    purpose: Purpose,
    level: SecurityLevel,
)
    requires
        keys_well_placed(keys),
        can_be_disabled(keys, batch),
    ensures
        role_remains(keys, seq![], purpose, level) ==> role_remains(
            batch_disabled(keys, batch, at),
            seq![],
            purpose,
            level,
        ),
        forall|id: KeyID| #[trigger]
            keys.contains_key(id) && keys[id].security_level == SecurityLevel::MASTER
                ==> batch_disabled(keys, batch, at)[id] == keys[id],
{
    let after = batch_disabled(keys, batch, at);
    assert forall|id: KeyID| #[trigger]
        keys.contains_key(id) && keys[id].security_level
            == SecurityLevel::MASTER implies after[id] == keys[id] by {
        if batch.contains(id) {
            let i = choose|i: int| 0 <= i < batch.len() && batch[i] == id;
            assert(refusal(keys, batch, batch[i]) is None);
        }
    }
    if role_remains(keys, seq![], purpose, level) {
        let id = choose|id: KeyID| #[trigger]
            keys.contains_key(id) && serves(keys[id], purpose, level) && !Seq::<KeyID>::empty().contains(
                keys[id].id,
            );
        let kept = if batch.contains(id) {
            let i = choose|i: int| 0 <= i < batch.len() && batch[i] == id;
            assert(refusal(keys, batch, batch[i]) is None);
            assert(role_remains(keys, batch, purpose, level));
            choose|k: KeyID| #[trigger]
                keys.contains_key(k) && serves(keys[k], purpose, level) && !batch.contains(
                    keys[k].id,
                )
        } else {
            id
        };
        assert(keys.contains_key(kept) && !batch.contains(kept));
        assert(after.contains_key(kept) && after[kept] == keys[kept]);
    }
}

/// Whether a batch can be disabled depends neither on the order of its keys nor on how often
/// each is listed.
pub proof fn law_order_does_not_matter(
    keys: Map<KeyID, IdentityPublicKey>,
    batch: Seq<KeyID>,
    other: Seq<KeyID>,
)
    requires
        forall|id: KeyID| batch.contains(id) <==> other.contains(id),
    ensures
        can_be_disabled(keys, batch) <==> can_be_disabled(keys, other),
{
    lemma_part_can_be_disabled(keys, batch, other);
    lemma_part_can_be_disabled(keys, other, batch);
}

proof fn lemma_part_can_be_disabled(
    keys: Map<KeyID, IdentityPublicKey>,
    batch: Seq<KeyID>,
    part: Seq<KeyID>,
)
    requires
        forall|id: KeyID| part.contains(id) ==> batch.contains(id),
    ensures
        can_be_disabled(keys, batch) && part.len() > 0 ==> can_be_disabled(keys, part),
        batch.len() > 0 && (forall|id: KeyID| batch.contains(id) ==> part.contains(id))
            ==> part.len() > 0,
{
    if batch.len() > 0 {
        assert(batch.contains(batch[0]));
    }
    if can_be_disabled(keys, batch) && part.len() > 0 {
        assert forall|i: int| 0 <= i < part.len() implies refusal(
            keys,
            part,
            #[trigger] part[i],
        ) is None by {
            let id = part[i];
            assert(part.contains(id));
            assert(batch.contains(id));
            let k = choose|k: int| 0 <= k < batch.len() && batch[k] == id;
            assert(refusal(keys, batch, batch[k]) is None);
            let p = keys[id].purpose;
            let l = keys[id].security_level;
            assert(role_remains(keys, batch, p, l));
            let other = choose|o: KeyID| #[trigger]
                keys.contains_key(o) && serves(keys[o], p, l) && !batch.contains(keys[o].id);
            assert(keys.contains_key(other) && !part.contains(keys[other].id));
            assert(role_remains(keys, part, p, l));
        }
    }
}

/// Any part of a batch that can be disabled can be disabled.
pub proof fn law_parts_can_be_disabled(
    keys: Map<KeyID, IdentityPublicKey>,
    batch: Seq<KeyID>,
    part: Seq<KeyID>,
)
    requires
        can_be_disabled(keys, batch),
        part.len() > 0,
        forall|id: KeyID| part.contains(id) ==> batch.contains(id),
    ensures
        can_be_disabled(keys, part),
{
    lemma_part_can_be_disabled(keys, batch, part);
}

/// A batch that was disabled is refused from then on, because its first key is disabled.
pub proof fn law_disabled_batch_is_refused(
    keys: Map<KeyID, IdentityPublicKey>,
    batch: Seq<KeyID>,
    at: u64,
)
    requires
        can_be_disabled(keys, batch),
    ensures
        !can_be_disabled(batch_disabled(keys, batch, at), batch),
        first_refused(batch_disabled(keys, batch, at), batch, 0),
        refusal(batch_disabled(keys, batch, at), batch, batch[0]) == Some(Refusal::AlreadyDisabled),
{
    assert(refusal(keys, batch, batch[0]) is None);
    assert(batch.contains(batch[0]));
}

/// Keys of an identity that are to be disabled.
pub struct BatchModel {
    pub identity: IdentityModel,
    pub holdings: Payload,
    pub key_ids: Seq<KeyID>,
}

impl BatchModel {
    /// Whether the keys can be disabled.
    pub open spec fn accepted(self) -> bool {
        can_be_disabled(self.identity.public_keys, self.key_ids)
    }
}

/// The batch of an identity and keys.
pub open spec fn batch_of(qualified_identity: QualifiedIdentity, key_ids: Seq<KeyID>) -> BatchModel {
    BatchModel {
        identity: qualified_identity.identity@,
        holdings: qualified_identity.holdings,
        key_ids,
    }
}

/// A batch that waits for the identity as the platform has it.
pub struct IdentityFetch {
    qualified_identity: QualifiedIdentity,
    key_ids: Vec<KeyID>,
}

/// A batch that waits for the master key that the identity can sign with.
pub struct MasterKeyLookup {
    qualified_identity: QualifiedIdentity,
    key_ids: Vec<KeyID>,
}

/// A batch that waits for the next nonce of the identity.
pub struct NonceFetch {
    qualified_identity: QualifiedIdentity,
    key_ids: Vec<KeyID>,
    master_key_id: KeyID,
}

/// The update of an identity, as it is to be signed with the master key.
pub struct IdentityUpdate {
    pub qualified_identity: QualifiedIdentity,
    pub master_key_id: KeyID,
    pub add_public_keys: Vec<IdentityPublicKey>,
    pub disable_public_keys: Vec<KeyID>,
    pub nonce: u64,
    pub user_fee_increase: u16,
}

/// The contents of an `IdentityUpdate`.
pub struct UpdateModel {
    pub batch: BatchModel,
    pub master_key_id: KeyID,
    pub add_public_keys: Seq<IdentityPublicKey>,
    pub nonce: u64,
    pub user_fee_increase: u16,
}

/// A batch that waits for its update to be built.
pub struct TransitionBuild {
    update: IdentityUpdate,
    estimated_fee: u64,
}

/// A batch whose transition waits to be broadcast.
pub struct TransitionBroadcast<T> {
    transition: T,
    qualified_identity: QualifiedIdentity,
    key_ids: Vec<KeyID>,
    estimated_fee: u64,
}

/// A batch that was disabled; the identity waits to be stored.
pub struct IdentityStore {
    qualified_identity: QualifiedIdentity,
    key_ids: Vec<KeyID>,
    fee_result: FeeResult,
}

impl View for IdentityFetch {
    type V = BatchModel;

    closed spec fn view(&self) -> BatchModel {
        batch_of(self.qualified_identity, self.key_ids@)
    }
}

impl View for MasterKeyLookup {
    type V = BatchModel;

    closed spec fn view(&self) -> BatchModel {
        batch_of(self.qualified_identity, self.key_ids@)
    }
}

impl View for NonceFetch {
    type V = (BatchModel, KeyID);

    closed spec fn view(&self) -> (BatchModel, KeyID) {
        (batch_of(self.qualified_identity, self.key_ids@), self.master_key_id)
    }
}

impl View for IdentityUpdate {
    type V = UpdateModel;

    open spec fn view(&self) -> UpdateModel {
        UpdateModel {
            batch: batch_of(self.qualified_identity, self.disable_public_keys@),
            master_key_id: self.master_key_id,
            add_public_keys: self.add_public_keys@,
            nonce: self.nonce,
            user_fee_increase: self.user_fee_increase,
        }
    }
}

impl View for TransitionBuild {
    type V = (UpdateModel, u64);

    closed spec fn view(&self) -> (UpdateModel, u64) {
        (self.update@, self.estimated_fee)
    }
}

impl<T> View for TransitionBroadcast<T> {
    type V = (T, BatchModel, u64);

    closed spec fn view(&self) -> (T, BatchModel, u64) {
        (
            self.transition,
            batch_of(self.qualified_identity, self.key_ids@),
            self.estimated_fee,
        )
    }
}

impl View for IdentityStore {
    type V = (BatchModel, FeeResult);

    closed spec fn view(&self) -> (BatchModel, FeeResult) {
        (batch_of(self.qualified_identity, self.key_ids@), self.fee_result)
    }
}

impl MasterKeyLookup {
    /// The batch was checked against the identity.
    #[verifier::type_invariant]
    spec fn checked(self) -> bool {
        batch_of(self.qualified_identity, self.key_ids@).accepted()
    }
}

impl NonceFetch {
    /// The batch was checked against the identity.
    #[verifier::type_invariant]
    spec fn checked(self) -> bool {
        batch_of(self.qualified_identity, self.key_ids@).accepted()
    }
}

impl TransitionBuild {
    /// The batch was checked against the identity, and nothing else is done to it.
    #[verifier::type_invariant]
    spec fn checked(self) -> bool {
        &&& self.update@.batch.accepted()
        &&& self.update@.add_public_keys.len() == 0
        &&& self.update@.user_fee_increase == 0
    }
}

impl<T> TransitionBroadcast<T> {
    /// The batch was checked against the identity.
    #[verifier::type_invariant]
    spec fn checked(self) -> bool {
        batch_of(self.qualified_identity, self.key_ids@).accepted()
    }
}

/// The identity after the proof of its update. Only a partial identity changes it: its keys take
/// the place of those with the same identifiers, and its balance is the new one.
pub open spec fn proved(
    identity: IdentityModel,
    proof_result: StateTransitionProofResult,
) -> IdentityModel {
    match proof_result {
        StateTransitionProofResult::VerifiedPartialIdentity(partial) => IdentityModel {
            public_keys: keys_with(identity.public_keys, partial.loaded_public_keys@),
            balance: match partial.balance {
                Some(balance) => balance,
                None => identity.balance,
            },
            ..identity
        },
        _ => identity,
    }
}

/// The fee of an update: what the balance fell by where the proof shows a balance, or the
/// estimate.
pub open spec fn paid_fee(
    balance_before: u64,
    estimated_fee: u64,
    proof_result: StateTransitionProofResult,
) -> int {
    match proof_result {
        StateTransitionProofResult::VerifiedPartialIdentity(partial) => match partial.balance {
            Some(after) => if after <= balance_before {
                balance_before - after
            } else {
                0
            },
            None => estimated_fee as int,
        },
        _ => estimated_fee as int,
    }
}

impl AppContext {
    /// Begins to disable a batch of keys of an identity.
    pub fn disable_identity_keys(
        &self,
        qualified_identity: QualifiedIdentity,
        key_ids_to_disable: Vec<KeyID>,
    ) -> (r: Result<IdentityFetch, TaskError>)
        ensures
            match r {
                Ok(next) => {
                    &&& key_ids_to_disable@.len() > 0
                    &&& next@ == batch_of(qualified_identity, key_ids_to_disable@)
                },
                Err(e) => key_ids_to_disable@.len() == 0 && e == TaskError::NoKeysToDisable,
            },
    {
        if key_ids_to_disable.len() == 0 {
            return Err(TaskError::NoKeysToDisable);
        }
        Ok(IdentityFetch { qualified_identity, key_ids: key_ids_to_disable })
    }
}

impl IdentityFetch {
    /// The identity to fetch.
    pub fn identity_id(&self) -> (r: Identifier)
        ensures
            r@ == self@.identity.id,
    {
        self.qualified_identity.identity.id
    }

    /// Goes on with the identity as the platform has it. The batch is checked against that one.
    pub fn resume(self, fetched: Result<Option<Identity>, RenderedError>) -> (r: Result<
        MasterKeyLookup,
        TaskError,
    >)
        ensures
            match fetched {
                Ok(Some(identity)) => match r {
                    Ok(next) => {
                        &&& next@ == (BatchModel { identity: identity@, ..self@ })
                        &&& next@.accepted()
                    },
                    Err(e) => {
                        &&& !can_be_disabled(identity.public_keys@, self@.key_ids)
                        &&& refuses(e, identity.public_keys@, self@.key_ids)
                    },
                },
                Ok(None) => r matches Err(e) && e == TaskError::IdentityNotFoundOnPlatform,
                Err(source_error) => r matches Err(e) && e == (TaskError::Sdk { source_error }),
            },
    {
        let identity = match fetched {
            Ok(Some(identity)) => identity,
            Ok(None) => {
                return Err(TaskError::IdentityNotFoundOnPlatform);
            },
            Err(e) => {
                return Err(TaskError::Sdk { source_error: e });
            },
        };
        match validate_keys_can_be_disabled(&identity, self.key_ids.as_slice()) {
            Ok(()) => {},
            Err(e) => {
                return Err(e);
            },
        }
        let mut qualified_identity = self.qualified_identity;
        qualified_identity.identity = identity;
        Ok(MasterKeyLookup { qualified_identity, key_ids: self.key_ids })
    }
}

impl MasterKeyLookup {
    /// The identity whose master key is needed.
    pub fn qualified_identity(&self) -> (r: &QualifiedIdentity)
        ensures
            batch_of(*r, self@.key_ids) == self@,
    {
        &self.qualified_identity
    }

    /// Goes on with the master key that the identity can sign with, if there is one.
    pub fn resume(self, master_key_id: Option<KeyID>) -> (r: Result<NonceFetch, TaskError>)
        ensures
            match master_key_id {
                Some(master_key_id) => r matches Ok(next) && next@ == (self@, master_key_id),
                None => r matches Err(e) && e == TaskError::MasterKeyNotFound,
            },
    {
        proof {
            use_type_invariant(&self);
        }
        match master_key_id {
            Some(master_key_id) => Ok(
                NonceFetch {
                    qualified_identity: self.qualified_identity,
                    key_ids: self.key_ids,
                    master_key_id,
                },
            ),
            None => Err(TaskError::MasterKeyNotFound),
        }
    }
}

/// The update that disables a batch: of the identity with its revision one higher, with no key to
/// add and no raised fee.
pub open spec fn disabling_update(
    batch: BatchModel,
    master_key_id: KeyID,
    nonce: u64,
) -> UpdateModel {
    UpdateModel {
        batch: BatchModel {
            identity: IdentityModel {
                revision: (batch.identity.revision + 1) as u64,
                ..batch.identity
            },
            ..batch
        },
        master_key_id,
        add_public_keys: seq![],
        nonce,
        user_fee_increase: 0,
    }
}

impl NonceFetch {
    /// The identity whose nonce is needed.
    pub fn qualified_identity(&self) -> (r: &QualifiedIdentity)
        ensures
            batch_of(*r, self@.0.key_ids) == self@.0,
    {
        &self.qualified_identity
    }

    /// Goes on with the next nonce and the estimated fee of an update. The revision of the
    /// identity goes up by one.
    pub fn resume(self, nonce: Result<u64, RenderedError>, estimated_fee: u64) -> (r: Result<
        TransitionBuild,
        TaskError,
    >)
        requires
            nonce is Ok ==> self@.0.identity.revision < u64::MAX,
        ensures
            match nonce {
                Ok(nonce) => {
                    &&& r matches Ok(next)
                    &&& next@ == (disabling_update(self@.0, self@.1, nonce), estimated_fee)
                },
                Err(source_error) => r matches Err(e) && e == (TaskError::Sdk { source_error }),
            },
    {
        proof {
            use_type_invariant(&self);
        }
        match nonce {
            Ok(nonce) => {
                let mut qualified_identity = self.qualified_identity;
                qualified_identity.identity.revision = qualified_identity.identity.revision + 1;
                let update = IdentityUpdate {
                    qualified_identity,
                    master_key_id: self.master_key_id,
                    add_public_keys: Vec::new(),
                    disable_public_keys: self.key_ids,
                    nonce,
                    user_fee_increase: 0,
                };
                assert(update@.add_public_keys =~= seq![]);
                Ok(TransitionBuild { update, estimated_fee })
            },
            Err(e) => Err(TaskError::Sdk { source_error: e }),
        }
    }
}

impl TransitionBuild {
    /// The update to build, signed with the master key. It adds no key and raises no fee, and its
    /// batch can be disabled.
    pub fn update(&self) -> (r: &IdentityUpdate)
        ensures
            r@ == self@.0,
            r@.batch.accepted(),
            r@.add_public_keys.len() == 0,
            r@.user_fee_increase == 0,
    {
        proof {
            use_type_invariant(self);
        }
        &self.update
    }

    /// Goes on once the transition was built, or could not be.
    pub fn resume<T>(self, built: Result<T, RenderedError>) -> (r: Result<
        TransitionBroadcast<T>,
        TaskError,
    >)
        ensures
            match built {
                Ok(transition) => r matches Ok(next) && next@ == (
                    transition,
                    self@.0.batch,
                    self@.1,
                ),
                Err(source_error) => r matches Err(e) && e == (
                TaskError::IdentityUpdateTransitionError { source_error }),
            },
    {
        proof {
            use_type_invariant(&self);
        }
        match built {
            Ok(transition) => Ok(
                TransitionBroadcast {
                    transition,
                    qualified_identity: self.update.qualified_identity,
                    key_ids: self.update.disable_public_keys,
                    estimated_fee: self.estimated_fee,
                },
            ),
            Err(e) => Err(TaskError::IdentityUpdateTransitionError { source_error: e }),
        }
    }
}

impl<T> TransitionBroadcast<T> {
    /// The transition to broadcast.
    pub fn transition(&self) -> (r: &T)
        ensures
            *r == self@.0,
    {
        &self.transition
    }

    /// Goes on with what the proof of the transition shows.
    pub fn resume(self, result: Result<StateTransitionProofResult, RenderedError>) -> (r: Result<
        IdentityStore,
        TaskError,
    >)
        ensures
            match result {
                Ok(proof_result) => {
                    &&& r matches Ok(next)
                    &&& next@.0 == (BatchModel {
                        identity: proved(self@.1.identity, proof_result),
                        ..self@.1
                    })
                    &&& next@.1.estimated_fee == self@.2
                    &&& next@.1.actual_fee == paid_fee(
                        self@.1.identity.balance,
                        self@.2,
                        proof_result,
                    )
                },
                Err(source_error) => r matches Err(e) && e == (TaskError::Sdk { source_error }),
            },
    {
        let proof_result = match result {
            Ok(proof_result) => proof_result,
            Err(e) => {
                return Err(TaskError::Sdk { source_error: e });
            },
        };
        let mut qualified_identity = self.qualified_identity;
        let balance_before: u64 = qualified_identity.identity.balance;
        let new_balance = match proof_result {
            StateTransitionProofResult::VerifiedPartialIdentity(partial) => {
                qualified_identity.identity.add_public_keys(&partial.loaded_public_keys);
                partial.balance
            },
            _ => None,
        };
        let actual_fee: u64 = match new_balance {
            Some(balance_after) => {
                qualified_identity.identity.balance = balance_after;
                balance_before.saturating_sub(balance_after)
            },
            None => self.estimated_fee,
        };
        let fee_result = FeeResult::new(self.estimated_fee, actual_fee);
        Ok(IdentityStore { qualified_identity, key_ids: self.key_ids, fee_result })
    }
}

impl IdentityStore {
    /// The identity to store.
    pub fn qualified_identity(&self) -> (r: &QualifiedIdentity)
        ensures
            batch_of(*r, self@.0.key_ids) == self@.0,
    {
        &self.qualified_identity
    }

    /// The fees of the update.
    pub fn fee_result(&self) -> (r: FeeResult)
        ensures
            r == self@.1,
    {
        self.fee_result
    }

    /// Ends once the identity was stored, or could not be.
    pub fn resume(self, stored: Result<(), String>) -> (r: Result<
        BackendTaskSuccessResult,
        TaskError,
    >)
        ensures
            match stored {
                Ok(()) => {
                    &&& r matches Ok(result)
                    &&& result matches BackendTaskSuccessResult::DisabledIdentityKeys {
                        identity,
                        disabled_key_ids,
                        fee_result,
                    }
                    &&& batch_of(identity, disabled_key_ids@) == self@.0
                    &&& fee_result == self@.1
                },
                Err(source) => r matches Err(e) && e == (TaskError::Database { source }),
            },
    {
        match stored {
            Ok(()) => Ok(
                BackendTaskSuccessResult::DisabledIdentityKeys {
                    identity: self.qualified_identity,
                    disabled_key_ids: self.key_ids,
                    fee_result: self.fee_result,
                },
            ),
            Err(e) => Err(TaskError::Database { source: e }),
        }
    }
}

/// Where the proof shows the batch as disabled, with the keys that stand under their own
/// identifiers, the identity afterwards has exactly the batch disabled.
pub proof fn law_proved_batch_is_disabled(
    identity: IdentityModel,
    batch: Seq<KeyID>,
    at: u64,
    proof_result: StateTransitionProofResult,
)
    requires
        keys_well_placed(identity.public_keys),
        can_be_disabled(identity.public_keys, batch),
        proof_result matches StateTransitionProofResult::VerifiedPartialIdentity(partial)
            && partial.loaded_public_keys@ == batch.map_values(
            |id: KeyID| IdentityPublicKey { disabled_at: Some(at), ..identity.public_keys[id] },
        ),
    ensures
        proved(identity, proof_result).public_keys == batch_disabled(
            identity.public_keys,
            batch,
            at,
        ),
{
    lemma_keys_with_batch(identity.public_keys, batch, batch, at);
}

proof fn lemma_keys_with_batch(
    keys: Map<KeyID, IdentityPublicKey>,
    batch: Seq<KeyID>,
    part: Seq<KeyID>,
    at: u64,
)
    requires
        keys_well_placed(keys),
        can_be_disabled(keys, batch),
        forall|i: int| 0 <= i < part.len() ==> batch.contains(#[trigger] part[i]),
    ensures
        keys_with(
            keys,
            part.map_values(
                |id: KeyID| IdentityPublicKey { disabled_at: Some(at), ..keys[id] },
            ),
        ) == batch_disabled(keys, part, at),
    decreases part.len(),
{
    let change = |id: KeyID| IdentityPublicKey { disabled_at: Some(at), ..keys[id] };
    let added = part.map_values(change);
    if part.len() == 0 {
        assert(batch_disabled(keys, part, at) =~= keys);
    } else {
        let rest = part.drop_last();
        let last = part.last();
        assert(added.drop_last() =~= rest.map_values(change));
        lemma_keys_with_batch(keys, batch, rest, at);
        assert(batch.contains(part[part.len() - 1]));
        let i = choose|i: int| 0 <= i < batch.len() && batch[i] == last;
        assert(refusal(keys, batch, batch[i]) is None);
        assert(keys.contains_key(last));
        assert(added.last().id == last);
        assert forall|id: KeyID| part.contains(id) <==> rest.contains(id) || id == last by {
            if part.contains(id) {
                let k = choose|k: int| 0 <= k < part.len() && part[k] == id;
                if k < rest.len() {
                    assert(rest[k] == id);
                }
            }
            if rest.contains(id) {
                let k = choose|k: int| 0 <= k < rest.len() && rest[k] == id;
                assert(part[k] == id);
            }
            assert(part[part.len() - 1] == last);
        }
        assert(batch_disabled(keys, rest, at).insert(last, change(last)) =~= batch_disabled(
            keys,
            part,
            at,
        ));
    }
}

/// Two batches are the same only where they are of the same identity, with the same keys, balance,
/// revision and holdings, and list the same keys in the same order.
pub proof fn law_batch_is_its_identity_and_its_keys(
    a: QualifiedIdentity,
    b: QualifiedIdentity,
    a_ids: Seq<KeyID>,
    b_ids: Seq<KeyID>,
)
    requires
        batch_of(a, a_ids) == batch_of(b, b_ids),
    ensures
        a.identity.id == b.identity.id,
        a.identity.public_keys@ == b.identity.public_keys@,
        a.identity.balance == b.identity.balance,
        a.identity.revision == b.identity.revision,
        a.holdings == b.holdings,
        a_ids == b_ids,
{
    lemma_array_ext(a.identity.id.bytes, b.identity.id.bytes);
}

/// A batch is of the identity and lists the keys that it was made of, and is accepted exactly where
/// those keys of that identity can be disabled.
pub proof fn law_batch_holds_what_it_was_made_of(
    qualified_identity: QualifiedIdentity,
    key_ids: Seq<KeyID>,
)
    ensures
        ({
            let batch = batch_of(qualified_identity, key_ids);
            &&& batch.identity.id == qualified_identity.identity.id.bytes@
            &&& batch.identity.public_keys == qualified_identity.identity.public_keys@
            &&& batch.identity.balance == qualified_identity.identity.balance
            &&& batch.identity.revision == qualified_identity.identity.revision
            &&& batch.holdings == qualified_identity.holdings
            &&& batch.key_ids == key_ids
            &&& batch.accepted() <==> can_be_disabled(
                qualified_identity.identity.public_keys@,
                key_ids,
            )
        }),
{
}

/// The update disables exactly the keys of the batch, adds none, raises no fee, carries the nonce
/// that was fetched and is signed with the master key that was found. Its identity is that of the
/// batch with the next revision.
pub proof fn law_update_disables_the_batch(
    batch: BatchModel,
    master_key_id: KeyID,
    nonce: u64,
    update: IdentityUpdate,
)
    requires
        batch.identity.revision < u64::MAX,
        update@ == disabling_update(batch, master_key_id, nonce),
    ensures
        update.disable_public_keys@ == batch.key_ids,
        update.add_public_keys@.len() == 0,
        update.user_fee_increase == 0,
        update.nonce == nonce,
        update.master_key_id == master_key_id,
        update.qualified_identity.identity.id.bytes@ == batch.identity.id,
        update.qualified_identity.identity.public_keys@ == batch.identity.public_keys,
        update.qualified_identity.identity.balance == batch.identity.balance,
        update.qualified_identity.identity.revision == batch.identity.revision + 1,
        update.qualified_identity.holdings == batch.holdings,
{
}

/// A proof that shows a part of the identity brings its keys, the last under each identifier, and
/// its balance where it has one. Any other proof changes nothing, and none changes the identifier or
/// the revision.
pub proof fn law_proof_brings_keys_and_balance(
    identity: IdentityModel,
    proof_result: StateTransitionProofResult,
)
    ensures
        ({
            let after = proved(identity, proof_result);
            &&& after.id == identity.id
            &&& after.revision == identity.revision
            &&& match proof_result {
                StateTransitionProofResult::VerifiedPartialIdentity(partial) => {
                    let loaded = partial.loaded_public_keys@;
                    &&& partial.balance matches Some(balance) ==> after.balance == balance
                    &&& partial.balance is None ==> after.balance == identity.balance
                    &&& forall|i: int|
                        0 <= i < loaded.len() && (forall|j: int|
                            i < j < loaded.len() ==> (#[trigger] loaded[j]).id != loaded[i].id)
                            ==> after.public_keys.contains_key((#[trigger] loaded[i]).id)
                            && after.public_keys[loaded[i].id] == loaded[i]
                    &&& forall|id: KeyID|
                        (forall|i: int| 0 <= i < loaded.len() ==> (#[trigger] loaded[i]).id != id)
                            ==> (#[trigger] after.public_keys.contains_key(id)
                            <==> identity.public_keys.contains_key(id)) && (
                        identity.public_keys.contains_key(id) ==> after.public_keys[id]
                            == identity.public_keys[id])
                },
                _ => after == identity,
            }
        }),
{
    if let StateTransitionProofResult::VerifiedPartialIdentity(partial) = proof_result {
        law_added_keys_take_their_places(identity.public_keys, partial.loaded_public_keys@);
    }
}

/// Where the proof shows a balance, the fee is what the balance fell by, and nothing where it rose;
/// else the fee is the estimate.
pub proof fn law_fee_is_what_the_balance_fell_by(
    balance_before: u64,
    estimated_fee: u64,
    proof_result: StateTransitionProofResult,
)
    ensures
        ({
            let fee = paid_fee(balance_before, estimated_fee, proof_result);
            match proof_result {
                StateTransitionProofResult::VerifiedPartialIdentity(partial) => {
                    &&& partial.balance matches Some(after) ==> (if after <= balance_before {
                        fee + after == balance_before
                    } else {
                        fee == 0
                    })
                    &&& partial.balance is None ==> fee == estimated_fee
                },
                _ => fee == estimated_fee,
            }
        }),
{
}

} // verus!
