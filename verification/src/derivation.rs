//! Derivation of the two keys that a contact-info document is encrypted with.
//!
//! From the root encryption key, the key of the contact's identifier lies at
//! `(2^16)'/index'` and the key of the private data at `(2^16 + 1)'/index'`. The keys themselves
//! are opaque here: a derivation says which child of which key it needs next, and is resumed
//! with that child.

use vstd::prelude::*;
use vstd::string::*;

use crate::network::Network;

verus! {

/// Where the root encryption key lies below the master key.
pub const ROOT_ENCRYPTION_KEY_PATH: &'static str = "m/9'/5'/15'/0'";

/// The hardened index below which the keys of contact identifiers lie.
pub const USER_ID_KEYS_INDEX: u32 = 65536;

/// The hardened index below which the keys of private data lie.
pub const PRIVATE_DATA_KEYS_INDEX: u32 = 65537;

/// What is seen of a wallet when it is read.
pub struct WalletState {
    pub is_open: bool,
    pub seed: Result<Vec<u8>, String>,
}

/// How far a derivation has come.
pub enum KeyStage<K> {
    /// The root encryption key is needed.
    Root { master: K },
    /// The parent of the keys of contact identifiers is needed.
    UserIdParent { root: K },
    /// The key of the contact's identifier is needed.
    UserIdKey { root: K, parent: K },
    /// The parent of the keys of private data is needed.
    PrivateDataParent { root: K, user_id_key: K },
    /// The key of the private data is needed.
    PrivateDataKey { user_id_key: K, parent: K },
}

/// A derivation that needs a seed to be turned into a master key.
pub struct MasterRequest {
    seed: Vec<u8>,
    network: Network,
    derivation_index: u32,
}

/// A derivation that needs a child key.
pub struct KeyDerivation<K> {
    derivation_index: u32,
    stage: KeyStage<K>,
}

/// What to do next.
pub enum DeriveStep<K> {
    /// Create the master key and resume with it.
    Master(MasterRequest),
    /// Derive the child that `request` names and resume with it.
    Derive(KeyDerivation<K>),
    /// The derivation is over: the key of the contact's identifier and the key of the private
    /// data.
    Done(Result<(K, K), String>),
}

/// The child that a derivation needs.
pub enum KeyRequest<'a, K> {
    /// The key at a path below `parent`.
    Path { parent: &'a K, path: &'static str },
    /// The hardened child of `parent` at an index.
    Hardened { parent: &'a K, index: u32 },
}

/// The answer to a request for a child.
pub enum KeyReply<K> {
    /// The path or the index is not one.
    Invalid(String),
    /// There is no such child.
    Failed(String),
    Key(K),
}

/// The contents of a `DeriveStep`.
pub enum DeriveModel<K> {
    Master { seed: Seq<u8>, network: Network, derivation_index: u32 },
    Derive { derivation_index: u32, stage: KeyStage<K> },
    Done(Result<(K, K), Seq<char>>),
}

impl View for MasterRequest {
    type V = (Seq<u8>, Network, u32);

    closed spec fn view(&self) -> (Seq<u8>, Network, u32) {
        (self.seed@, self.network, self.derivation_index)
    }
}

impl<K> View for KeyDerivation<K> {
    type V = (u32, KeyStage<K>);

    closed spec fn view(&self) -> (u32, KeyStage<K>) {
        (self.derivation_index, self.stage)
    }
}

impl<K> View for DeriveStep<K> {
    type V = DeriveModel<K>;

    open spec fn view(&self) -> DeriveModel<K> {
        match self {
            DeriveStep::Master(request) => DeriveModel::Master {
                seed: request@.0,
                network: request@.1,
                derivation_index: request@.2,
            },
            DeriveStep::Derive(derivation) => DeriveModel::Derive {
                derivation_index: derivation@.0,
                stage: derivation@.1,
            },
            DeriveStep::Done(Ok(keys)) => DeriveModel::Done(Ok(*keys)),
            DeriveStep::Done(Err(message)) => DeriveModel::Done(Err(message@)),
        }
    }
}

/// A derivation from what is seen of the identity's first wallet, if it has one: either the
/// wallet cannot be read, or its seed is there.
pub open spec fn begun<K>(
    wallet: Option<Result<WalletState, String>>,
    network: Network,
    derivation_index: u32,
) -> DeriveModel<K> {
    match wallet {
        None => DeriveModel::Done(Err("No wallet associated with identity for key derivation"@)),
        Some(Err(e)) => DeriveModel::Done(Err(e@)),
        Some(Ok(state)) => if !state.is_open {
            DeriveModel::Done(Err("Wallet must be unlocked to derive encryption keys"@))
        } else {
            match state.seed {
                Err(e) => DeriveModel::Done(Err("Wallet seed not available: "@ + e@)),
                Ok(seed) => DeriveModel::Master { seed: seed@, network, derivation_index },
            }
        },
    }
}

/// The derivation after the master key was created.
pub open spec fn after_master<K>(
    derivation_index: u32,
    master: Result<K, String>,
) -> DeriveModel<K> {
    match master {
        Ok(master) => DeriveModel::Derive { derivation_index, stage: KeyStage::Root { master } },
        Err(e) => DeriveModel::Done(Err("Failed to create master key: "@ + e@)),
    }
}

/// What is said where a path or an index is not one.
pub open spec fn invalid_text<K>(stage: KeyStage<K>) -> Seq<char> {
    match stage {
        KeyStage::Root { .. } => "Invalid derivation path: "@,
        _ => "Invalid hardened index: "@,
    }
}

/// What is said where there is no such child.
pub open spec fn failed_text<K>(stage: KeyStage<K>) -> Seq<char> {
    match stage {
        KeyStage::Root { .. } => "Failed to derive root encryption key: "@,
        KeyStage::UserIdParent { .. } => "Failed to derive key1 level1: "@,
        KeyStage::UserIdKey { .. } => "Failed to derive key1 final: "@,
        KeyStage::PrivateDataParent { .. } => "Failed to derive key2 level1: "@,
        KeyStage::PrivateDataKey { .. } => "Failed to derive key2 final: "@,
    }
}

/// The derivation after a child was derived.
pub open spec fn after_child<K>(
    derivation_index: u32,
    stage: KeyStage<K>,
    reply: KeyReply<K>,
) -> DeriveModel<K> {
    match reply {
        KeyReply::Invalid(e) => DeriveModel::Done(Err(invalid_text(stage) + e@)),
        KeyReply::Failed(e) => DeriveModel::Done(Err(failed_text(stage) + e@)),
        KeyReply::Key(key) => match stage {
            KeyStage::Root { master } => DeriveModel::Derive {
                derivation_index,
                stage: KeyStage::UserIdParent { root: key },
            },
            KeyStage::UserIdParent { root } => DeriveModel::Derive {
                derivation_index,
                stage: KeyStage::UserIdKey { root, parent: key },
            },
            KeyStage::UserIdKey { root, parent } => DeriveModel::Derive {
                derivation_index,
                stage: KeyStage::PrivateDataParent { root, user_id_key: key },
            },
            KeyStage::PrivateDataParent { root, user_id_key } => DeriveModel::Derive {
                derivation_index,
                stage: KeyStage::PrivateDataKey { user_id_key, parent: key },
            },
            KeyStage::PrivateDataKey { user_id_key, parent } => DeriveModel::Done(
                Ok((user_id_key, key)),
            ),
        },
    }
}

/// The hardened index that a stage asks for, below the root encryption key.
pub open spec fn hardened_index<K>(derivation_index: u32, stage: KeyStage<K>) -> u32 {
    match stage {
        KeyStage::UserIdParent { .. } => USER_ID_KEYS_INDEX,
        KeyStage::PrivateDataParent { .. } => PRIVATE_DATA_KEYS_INDEX,
        _ => derivation_index,
    }
}

/// The key whose child a stage asks for.
pub open spec fn parent_key<K>(stage: KeyStage<K>) -> K {
    match stage {
        KeyStage::Root { master } => master,
        KeyStage::UserIdParent { root } => root,
        KeyStage::UserIdKey { root, parent } => parent,
        KeyStage::PrivateDataParent { root, user_id_key } => root,
        KeyStage::PrivateDataKey { user_id_key, parent } => parent,
    }
}

/// Begins to derive the keys of the contact-info document with a derivation index, from what is
/// seen of the identity's first wallet.
pub fn derive_contact_info_keys<K>(
    wallet: Option<Result<WalletState, String>>,
    network: Network,
    derivation_index: u32,
) -> (r: DeriveStep<K>)
    ensures
        r@ == begun::<K>(wallet, network, derivation_index),
{
    let state = match wallet {
        None => {
            return DeriveStep::Done(
                Err("No wallet associated with identity for key derivation".to_owned()),
            );
        },
        Some(Err(e)) => {
            return DeriveStep::Done(Err(e));
        },
        Some(Ok(state)) => state,
    };
    if !state.is_open {
        return DeriveStep::Done(
            Err("Wallet must be unlocked to derive encryption keys".to_owned()),
        );
    }
    match state.seed {
        Err(e) => DeriveStep::Done(
            Err("Wallet seed not available: ".to_owned().concat(e.as_str())),
        ),
        Ok(seed) => DeriveStep::Master(MasterRequest { seed, network, derivation_index }),
    }
}

impl MasterRequest {
    /// The seed that the master key is created from.
    pub fn seed(&self) -> (r: &Vec<u8>)
        ensures
            r@ == self@.0,
    {
        &self.seed
    }

    /// The network that the master key is created for.
    pub fn network(&self) -> (r: Network)
        ensures
            r == self@.1,
    {
        self.network
    }

    /// Goes on with the master key of the seed on the network.
    pub fn resume<K>(self, master: Result<K, String>) -> (r: DeriveStep<K>)
        ensures
            r@ == after_master(self@.2, master),
    {
        match master {
            Ok(master) => DeriveStep::Derive(
                KeyDerivation {
                    derivation_index: self.derivation_index,
                    stage: KeyStage::Root { master },
                },
            ),
            Err(e) => DeriveStep::Done(
                Err("Failed to create master key: ".to_owned().concat(e.as_str())),
            ),
        }
    }
}

impl<K> KeyDerivation<K> {
    /// The child that is needed.
    pub fn request(&self) -> (r: KeyRequest<'_, K>)
        ensures
            match r {
                KeyRequest::Path { parent, path } => {
                    &&& self@.1 is Root
                    &&& *parent == parent_key(self@.1)
                    &&& path@ == ROOT_ENCRYPTION_KEY_PATH@
                },
                KeyRequest::Hardened { parent, index } => {
                    &&& !(self@.1 is Root)
                    &&& *parent == parent_key(self@.1)
                    &&& index == hardened_index(self@.0, self@.1)
                },
            },
    {
        match &self.stage {
            KeyStage::Root { master } => KeyRequest::Path {
                parent: master,
                path: ROOT_ENCRYPTION_KEY_PATH,
            },
            KeyStage::UserIdParent { root } => KeyRequest::Hardened {
                parent: root,
                index: USER_ID_KEYS_INDEX,
            },
            KeyStage::UserIdKey { root, parent } => KeyRequest::Hardened {
                parent,
                index: self.derivation_index,
            },
            KeyStage::PrivateDataParent { root, user_id_key } => KeyRequest::Hardened {
                parent: root,
                index: PRIVATE_DATA_KEYS_INDEX,
            },
            KeyStage::PrivateDataKey { user_id_key, parent } => KeyRequest::Hardened {
                parent,
                index: self.derivation_index,
            },
        }
    }

    /// Goes on with the child that was asked for.
    pub fn resume(self, reply: KeyReply<K>) -> (r: DeriveStep<K>)
        ensures
            r@ == after_child(self@.0, self@.1, reply),
    {
        let derivation_index = self.derivation_index;
        let key = match reply {
            KeyReply::Key(key) => key,
            KeyReply::Invalid(e) => {
                let text = match &self.stage {
                    KeyStage::Root { master } => "Invalid derivation path: ",
                    _ => "Invalid hardened index: ",
                };
                return DeriveStep::Done(Err(text.to_owned().concat(e.as_str())));
            },
            KeyReply::Failed(e) => {
                let text = match &self.stage {
                    KeyStage::Root { .. } => "Failed to derive root encryption key: ",
                    KeyStage::UserIdParent { .. } => "Failed to derive key1 level1: ",
                    KeyStage::UserIdKey { .. } => "Failed to derive key1 final: ",
                    KeyStage::PrivateDataParent { .. } => "Failed to derive key2 level1: ",
                    KeyStage::PrivateDataKey { .. } => "Failed to derive key2 final: ",
                };
                return DeriveStep::Done(Err(text.to_owned().concat(e.as_str())));
            },
        };
        let stage = match self.stage {
            KeyStage::Root { master } => KeyStage::UserIdParent { root: key },
            KeyStage::UserIdParent { root } => KeyStage::UserIdKey { root, parent: key },
            KeyStage::UserIdKey { root, parent } => KeyStage::PrivateDataParent {
                root,
                user_id_key: key,
            },
            KeyStage::PrivateDataParent { root, user_id_key } => KeyStage::PrivateDataKey {
                user_id_key,
                parent: key,
            },
            KeyStage::PrivateDataKey { user_id_key, parent } => {
                return DeriveStep::Done(Ok((user_id_key, key)));
            },
        };
        DeriveStep::Derive(KeyDerivation { derivation_index, stage })
    }
}

/// The child that a stage gets, where `at_path` and `hardened` derive children.
pub open spec fn child_for<K>(
    derivation_index: u32,
    stage: KeyStage<K>,
    at_path: spec_fn(K, Seq<char>) -> K,
    hardened: spec_fn(K, u32) -> K,
) -> K {
    match stage {
        KeyStage::Root { master } => at_path(master, ROOT_ENCRYPTION_KEY_PATH@),
        _ => hardened(parent_key(stage), hardened_index(derivation_index, stage)),
    }
}

/// What a derivation comes to in at most `steps` steps, where `at_path` and `hardened` derive
/// children.
pub open spec fn after_children<K>(
    derivation: DeriveModel<K>,
    at_path: spec_fn(K, Seq<char>) -> K,
    hardened: spec_fn(K, u32) -> K,
    steps: nat,
) -> DeriveModel<K>
    decreases steps,
{
    match derivation {
        DeriveModel::Derive { derivation_index, stage } => if steps == 0 {
            derivation
        } else {
            let child = child_for(derivation_index, stage, at_path, hardened);
            after_children(
                after_child(derivation_index, stage, KeyReply::Key(child)),
                at_path,
                hardened,
                (steps - 1) as nat,
            )
        },
        _ => derivation,
    }
}

/// The two keys of a derivation index lie at `(2^16)'/index'` and `(2^16 + 1)'/index'` below the
/// root encryption key, whatever the keys are and however children are derived.
pub proof fn law_contact_info_key_paths<K>(
    master: K,
    derivation_index: u32,
    at_path: spec_fn(K, Seq<char>) -> K,
    hardened: spec_fn(K, u32) -> K,
)
    ensures
        after_children(after_master(derivation_index, Ok(master)), at_path, hardened, 5) == ({
            let root = at_path(master, ROOT_ENCRYPTION_KEY_PATH@);
            DeriveModel::Done(
                Ok(
                    (
                        hardened(hardened(root, 65536), derivation_index),
                        hardened(hardened(root, 65537), derivation_index),
                    ),
                ),
            )
        }),
{
    reveal_with_fuel(after_children, 6);
}

/// The root encryption key lies at `m/9'/5'/15'/0'`, and is asked for of the master key. All other
/// keys are hardened children: of the root, at 65536 and 65537, and of each of these two at the
/// derivation index.
pub proof fn law_children_are_asked_for_in_their_places<K>(
    derivation_index: u32,
    master: K,
    root: K,
    parent: K,
    user_id_key: K,
)
    ensures
        ROOT_ENCRYPTION_KEY_PATH@ == "m/9'/5'/15'/0'"@,
        parent_key(KeyStage::Root { master }) == master,
        parent_key(KeyStage::UserIdParent { root }) == root,
        parent_key(KeyStage::UserIdKey { root, parent }) == parent,
        parent_key(KeyStage::PrivateDataParent { root, user_id_key }) == root,
        parent_key(KeyStage::PrivateDataKey { user_id_key, parent }) == parent,
        hardened_index(derivation_index, KeyStage::UserIdParent { root }) == 65536,
        hardened_index(derivation_index, KeyStage::UserIdKey { root, parent })
            == derivation_index,
        hardened_index(derivation_index, KeyStage::PrivateDataParent { root, user_id_key })
            == 65537,
        hardened_index(derivation_index, KeyStage::PrivateDataKey { user_id_key, parent })
            == derivation_index,
{
}

/// A derivation begins exactly where the identity has a wallet that can be read, is open and has its
/// seed, and it begins with that seed, for that network. What it lacks otherwise is what it says.
pub proof fn law_derivation_needs_an_open_wallet<K>(
    wallet: Option<Result<WalletState, String>>,
    network: Network,
    derivation_index: u32,
    step: DeriveStep<K>,
)
    requires
        step@ == begun::<K>(wallet, network, derivation_index),
    ensures
        match wallet {
            None => step is Done && step->Done_0 is Err && step->Done_0->Err_0@
                == "No wallet associated with identity for key derivation"@,
            Some(Err(e)) => step is Done && step->Done_0 is Err && step->Done_0->Err_0@ == e@,
            Some(Ok(state)) => {
                &&& !state.is_open ==> step is Done && step->Done_0 is Err
                    && step->Done_0->Err_0@ == "Wallet must be unlocked to derive encryption keys"@
                &&& state.is_open && state.seed is Err ==> step is Done && step->Done_0 is Err
                    && step->Done_0->Err_0@ == "Wallet seed not available: "@
                    + state.seed->Err_0@
                &&& state.is_open && state.seed is Ok ==> step is Master && step->Master_0@ == (
                    state.seed->Ok_0@,
                    network,
                    derivation_index,
                )
            },
        },
{
}

/// A key that cannot be had ends the derivation with an error that says which key it was, and whether
/// its path or index is none or it could not be derived.
pub proof fn law_failed_derivation_says_where<K>(
    derivation_index: u32,
    stage: KeyStage<K>,
    e: String,
)
    ensures
        after_master::<K>(derivation_index, Err(e)) == DeriveModel::<K>::Done(
            Err("Failed to create master key: "@ + e@),
        ),
        after_child(derivation_index, stage, KeyReply::Invalid(e)) == DeriveModel::<K>::Done(
            Err(
                (if stage is Root {
                    "Invalid derivation path: "@
                } else {
                    "Invalid hardened index: "@
                }) + e@,
            ),
        ),
        stage is Root ==> after_child(derivation_index, stage, KeyReply::Failed(e))
            == DeriveModel::<K>::Done(Err("Failed to derive root encryption key: "@ + e@)),
        stage is UserIdParent ==> after_child(derivation_index, stage, KeyReply::Failed(e))
            == DeriveModel::<K>::Done(Err("Failed to derive key1 level1: "@ + e@)),
        stage is UserIdKey ==> after_child(derivation_index, stage, KeyReply::Failed(e))
            == DeriveModel::<K>::Done(Err("Failed to derive key1 final: "@ + e@)),
        stage is PrivateDataParent ==> after_child(derivation_index, stage, KeyReply::Failed(e))
            == DeriveModel::<K>::Done(Err("Failed to derive key2 level1: "@ + e@)),
        stage is PrivateDataKey ==> after_child(derivation_index, stage, KeyReply::Failed(e))
            == DeriveModel::<K>::Done(Err("Failed to derive key2 final: "@ + e@)),
{
}

/// A step shows the master key or the child that is needed, the two keys in their order, or the error
/// that the derivation ended with.
pub proof fn law_derive_step_shows_what_to_do<K>(step: DeriveStep<K>)
    ensures
        match step {
            DeriveStep::Master(request) => step@ == (DeriveModel::<K>::Master {
                seed: request@.0,
                network: request@.1,
                derivation_index: request@.2,
            }),
            DeriveStep::Derive(derivation) => step@ == (DeriveModel::<K>::Derive {
                derivation_index: derivation@.0,
                stage: derivation@.1,
            }),
            DeriveStep::Done(Ok(keys)) => step@ == DeriveModel::<K>::Done(Ok((keys.0, keys.1))),
            DeriveStep::Done(Err(message)) => step@ == DeriveModel::<K>::Done(Err(message@)),
        },
{
}

} // verus!
