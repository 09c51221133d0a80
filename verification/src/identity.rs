//! Identities and their public keys.

use vstd::prelude::*;
use std::collections::BTreeMap;

use crate::identifier::Identifier;
use crate::payload::Payload;

verus! {

/// Identifier of a key within its identity.
pub type KeyID = u32;

/// What a key is for.
#[derive(Clone, Copy, Debug, PartialEq, Eq, Structural)]
pub enum Purpose {
    AUTHENTICATION,
    ENCRYPTION,
    DECRYPTION,
    TRANSFER,
    SYSTEM,
    VOTING,
    OWNER,
}

/// How strong a key is. `MASTER` is the strongest.
#[derive(Clone, Copy, Debug, PartialEq, Eq, Structural)]
pub enum SecurityLevel {
    MASTER,
    CRITICAL,
    HIGH,
    MEDIUM,
}

/// A public key of an identity, as far as the library reads it.
#[derive(Clone, Copy, Debug, PartialEq, Eq)]
pub struct IdentityPublicKey {
    pub id: KeyID,
    pub purpose: Purpose,
    pub security_level: SecurityLevel,
    /// When the key was disabled, if it was.
    pub disabled_at: Option<u64>,
    /// The type of the key, its data and its bounds.
    pub material: Payload,
}

/// An identity, as far as the library reads it.
#[derive(Clone, Debug, PartialEq, Eq)]
pub struct Identity {
    pub id: Identifier,
    pub public_keys: BTreeMap<KeyID, IdentityPublicKey>,
    pub balance: u64,
    pub revision: u64,
}

/// An identity of the user.
#[derive(Clone, Debug, PartialEq, Eq)]
pub struct QualifiedIdentity {
    pub identity: Identity,
    /// The private keys, and whatever else the caller keeps with the identity.
    pub holdings: Payload,
}

/// The contents of an `Identity`.
pub struct IdentityModel {
    pub id: Seq<u8>,
    pub public_keys: Map<KeyID, IdentityPublicKey>,
    pub balance: u64,
    pub revision: u64,
}

impl View for Identity {
    type V = IdentityModel;

    open spec fn view(&self) -> IdentityModel {
        IdentityModel {
            id: self.id@,
            public_keys: self.public_keys@,
            balance: self.balance,
            revision: self.revision,
        }
    }
}

impl IdentityPublicKey {
    /// Whether the key was disabled.
    pub open spec fn disabled(self) -> bool {
        self.disabled_at is Some
    }

    /// Whether the key was disabled.
    pub fn is_disabled(&self) -> (r: bool)
        ensures
            r == self.disabled(),
    {
        self.disabled_at.is_some()
    }
}

/// Whether every key stands under its own identifier.
pub open spec fn keys_well_placed(keys: Map<KeyID, IdentityPublicKey>) -> bool {
    forall|id: KeyID| #[trigger] keys.contains_key(id) ==> keys[id].id == id
}

/// The keys after some were added: a key takes the place of one with the same identifier.
pub open spec fn keys_with(
    keys: Map<KeyID, IdentityPublicKey>,
    added: Seq<IdentityPublicKey>,
) -> Map<KeyID, IdentityPublicKey>
    decreases added.len(),
{
    if added.len() == 0 {
        keys
    } else {
        keys_with(keys, added.drop_last()).insert(added.last().id, added.last())
    }
}

/// A key is disabled exactly where the time of its disabling is set.
pub proof fn law_disabled_keys_have_a_time(key: IdentityPublicKey)
    ensures
        key.disabled() <==> key.disabled_at is Some,
{
}

proof fn lemma_added_key(
    keys: Map<KeyID, IdentityPublicKey>,
    added: Seq<IdentityPublicKey>,
    i: int,
)
    requires
        0 <= i < added.len(),
        forall|j: int| i < j < added.len() ==> (#[trigger] added[j]).id != added[i].id,
    ensures
        keys_with(keys, added).contains_key(added[i].id),
        keys_with(keys, added)[added[i].id] == added[i],
    decreases added.len(),
{
    if i < added.len() - 1 {
        assert(added[added.len() - 1].id != added[i].id);
        lemma_added_key(keys, added.drop_last(), i);
    }
}

proof fn lemma_other_key(
    keys: Map<KeyID, IdentityPublicKey>,
    added: Seq<IdentityPublicKey>,
    id: KeyID,
)
    requires
        forall|i: int| 0 <= i < added.len() ==> (#[trigger] added[i]).id != id,
    ensures
        keys_with(keys, added).contains_key(id) <==> keys.contains_key(id),
        keys.contains_key(id) ==> keys_with(keys, added)[id] == keys[id],
    decreases added.len(),
{
    if added.len() > 0 {
        assert(added[added.len() - 1].id != id);
        lemma_other_key(keys, added.drop_last(), id);
    }
}

/// Under each identifier stands the last of the added keys that has it, and where none has it, what
/// stood there before.
pub proof fn law_added_keys_take_their_places(
    keys: Map<KeyID, IdentityPublicKey>,
    added: Seq<IdentityPublicKey>,
)
    ensures
        forall|i: int|
            0 <= i < added.len() && (forall|j: int|
                i < j < added.len() ==> (#[trigger] added[j]).id != added[i].id) ==> keys_with(
                keys,
                added,
            ).contains_key((#[trigger] added[i]).id) && keys_with(keys, added)[added[i].id]
                == added[i],
        forall|id: KeyID|
            (forall|i: int| 0 <= i < added.len() ==> (#[trigger] added[i]).id != id) ==> (
            #[trigger] keys_with(keys, added).contains_key(id) <==> keys.contains_key(id)) && (
            keys.contains_key(id) ==> keys_with(keys, added)[id] == keys[id]),
{
    assert forall|i: int|
        0 <= i < added.len() && (forall|j: int|
            i < j < added.len() ==> (#[trigger] added[j]).id != added[i].id) implies keys_with(
        keys,
        added,
    ).contains_key((#[trigger] added[i]).id) && keys_with(keys, added)[added[i].id]
        == added[i] by {
        lemma_added_key(keys, added, i);
    }
    assert forall|id: KeyID|
        (forall|i: int| 0 <= i < added.len() ==> (#[trigger] added[i]).id != id) implies (
    #[trigger] keys_with(keys, added).contains_key(id) <==> keys.contains_key(id)) && (
    keys.contains_key(id) ==> keys_with(keys, added)[id] == keys[id]) by {
        lemma_other_key(keys, added, id);
    }
}

impl Identity {
    /// Whether every key stands under its own identifier.
    pub open spec fn well_formed(self) -> bool {
        keys_well_placed(self.public_keys@)
    }

    /// An identity without keys, with nothing on its balance.
    pub fn basic(id: Identifier) -> (r: Identity)
        ensures
            r.id == id,
            r.public_keys@ == Map::<KeyID, IdentityPublicKey>::empty(),
            r.balance == 0,
            r.revision == 0,
            r.well_formed(),
    {
        Identity { id, public_keys: BTreeMap::new(), balance: 0, revision: 0 }
    }

    /// Adds a key. It takes the place of a key with the same identifier.
    pub fn add_public_key(&mut self, key: IdentityPublicKey)
        ensures
            final(self).public_keys@ == old(self).public_keys@.insert(key.id, key),
            final(self).id == old(self).id,
            final(self).balance == old(self).balance,
            final(self).revision == old(self).revision,
            old(self).well_formed() ==> final(self).well_formed(),
    {
        self.public_keys.insert(key.id, key);
    }

    /// Adds keys one after the other.
    pub fn add_public_keys(&mut self, added: &Vec<IdentityPublicKey>)
        ensures
            final(self).public_keys@ == keys_with(old(self).public_keys@, added@),
            final(self).id == old(self).id,
            final(self).balance == old(self).balance,
            final(self).revision == old(self).revision,
            old(self).well_formed() ==> final(self).well_formed(),
    {
        let ghost keys = self.public_keys@;
        let mut i: usize = 0;
        while i < added.len()
            invariant
                i <= added@.len(),
                keys == old(self).public_keys@,
                self.public_keys@ == keys_with(keys, added@.take(i as int)),
                self.id == old(self).id,
                self.balance == old(self).balance,
                self.revision == old(self).revision,
                old(self).well_formed() ==> self.well_formed(),
            decreases added@.len() - i,
        {
            proof {
                let n = i as int;
                assert(added@.take(n + 1).drop_last() =~= added@.take(n));
                assert(added@.take(n + 1).last() == added@[n]);
            }
            self.add_public_key(added[i]);
            i = i + 1;
        }
        assert(added@.take(i as int) =~= added@);
    }
}

} // verus!
