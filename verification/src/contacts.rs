//! The contacts of an identity: who they are, and what is known about them.

use vstd::prelude::*;
use vstd::string::*;
use std::sync::Arc;

use crate::cipher::{
    aes256_cbc_plaintext, aes256_decrypted_block, decrypt_private_data, decrypt_to_user_id,
};
use crate::document::{property, Document, Value};
use crate::identifier::{lemma_array_ext, Identifier};
use crate::private_data::{
    blank_fields, parse_private_data, private_fields, PrivateData, PrivateFields,
};
use crate::result::BackendTaskSuccessResult;
use crate::text::optional_text;

verus! {

/// Identifier of the contract that holds contact requests, contact infos and profiles.
pub const DASHPAY_CONTRACT_ID: [u8; 32] = [
    162, 161, 180, 172, 111, 239, 34, 234, 42, 26, 104, 232, 18, 54, 68, 179, 87, 135, 95, 107, 65,
    44, 24, 16, 146, 129, 193, 70, 231, 178, 113, 188,
];

/// The identifier under which the DashPay contract is fetched.
pub fn dashpay_contract_id() -> (r: Identifier)
    ensures
        r@ == DASHPAY_CONTRACT_ID@,
        r@ == seq![
            162u8, 161, 180, 172, 111, 239, 34, 234, 42, 26, 104, 232, 18, 54, 68, 179, 87, 135, 95,
            107, 65, 44, 24, 16, 146, 129, 193, 70, 231, 178, 113, 188,
        ],
{
    let id = Identifier { bytes: DASHPAY_CONTRACT_ID };
    assert(id@ =~= seq![
        162u8, 161, 180, 172, 111, 239, 34, 234, 42, 26, 104, 232, 18, 54, 68, 179, 87, 135, 95,
        107, 65, 44, 24, 16, 146, 129, 193, 70, 231, 178, 113, 188,
    ]);
    id
}

/// The DashPay contract, given what the fetch under `dashpay_contract_id` came to.
pub fn get_dashpay_contract<C>(fetched: Result<Option<C>, String>) -> (r: Result<Arc<C>, String>)
    ensures
        match fetched {
            Ok(Some(contract)) => r is Ok && *r->Ok_0 == contract,
            Ok(None) => r is Err && r->Err_0@ == "DashPay contract not found"@,
            Err(e) => r is Err && r->Err_0@ == "Failed to fetch DashPay contract: "@ + e@,
        },
{
    match fetched {
        Ok(Some(contract)) => Ok(Arc::new(contract)),
        Ok(None) => Err("DashPay contract not found".to_owned()),
        Err(e) => Err("Failed to fetch DashPay contract: ".to_owned().concat(e.as_str())),
    }
}

/// A contact, with what the owner noted about it and what it publishes about itself.
#[derive(Clone, Debug, PartialEq, Eq)]
pub struct ContactData {
    pub identity_id: Identifier,
    pub nickname: Option<String>,
    pub note: Option<String>,
    pub is_hidden: bool,
    pub account_reference: u32,
    pub username: Option<String>,
    pub display_name: Option<String>,
    pub avatar_url: Option<String>,
    pub bio: Option<String>,
}

/// The contents of a `ContactData`.
pub struct ContactModel {
    pub identity_id: Seq<u8>,
    pub noted: PrivateFields,
    pub username: Option<Seq<char>>,
    pub display_name: Option<Seq<char>>,
    pub avatar_url: Option<Seq<char>>,
    pub bio: Option<Seq<char>>,
}

impl View for ContactData {
    type V = ContactModel;

    open spec fn view(&self) -> ContactModel {
        ContactModel {
            identity_id: self.identity_id@,
            noted: PrivateFields {
                nickname: optional_text(self.nickname),
                note: optional_text(self.note),
                is_hidden: self.is_hidden,
                account_reference: self.account_reference,
            },
            username: optional_text(self.username),
            display_name: optional_text(self.display_name),
            avatar_url: optional_text(self.avatar_url),
            bio: optional_text(self.bio),
        }
    }
}

/// The contents of a list of contacts.
pub open spec fn contact_models(list: Seq<ContactData>) -> Seq<ContactModel> {
    list.map_values(|c: ContactData| c@)
}

/// A contact of which no more is known than what the owner noted.
pub open spec fn noted_contact(id: Seq<u8>, noted: PrivateFields) -> ContactModel {
    ContactModel {
        identity_id: id,
        noted,
        username: None,
        display_name: None,
        avatar_url: None,
        bio: None,
    }
}

/// Copies an optional text.
fn copy_text(text: &Option<String>) -> (r: Option<String>)
    ensures
        r == *text,
{
    match text {
        Some(t) => Some(t.clone()),
        None => None,
    }
}

impl ContactData {
    /// A contact with what the owner noted about it.
    pub fn noted(identity_id: Identifier, noted: PrivateData) -> (r: ContactData)
        ensures
            r@ == noted_contact(identity_id@, noted@),
            r.identity_id == identity_id,
            r.nickname == noted.nickname,
            r.note == noted.note,
            r.is_hidden == noted.is_hidden,
            r.account_reference == noted.account_reference,
            r.username is None,
            r.display_name is None,
            r.avatar_url is None,
            r.bio is None,
    {
        ContactData {
            identity_id,
            nickname: noted.nickname,
            note: noted.note,
            is_hidden: noted.is_hidden,
            account_reference: noted.account_reference,
            username: None,
            display_name: None,
            avatar_url: None,
            bio: None,
        }
    }

    /// A contact about which nothing was noted.
    pub fn bare(identity_id: Identifier) -> (r: ContactData)
        ensures
            r@ == noted_contact(identity_id@, blank_fields()),
            r.identity_id == identity_id,
            r.nickname is None,
            r.note is None,
            !r.is_hidden,
            r.account_reference == 0,
            r.username is None,
            r.display_name is None,
            r.avatar_url is None,
            r.bio is None,
    {
        ContactData {
            identity_id,
            nickname: None,
            note: None,
            is_hidden: false,
            account_reference: 0,
            username: None,
            display_name: None,
            avatar_url: None,
            bio: None,
        }
    }

    /// A copy of the contact.
    pub fn duplicate(&self) -> (r: ContactData)
        ensures
            r == *self,
    {
        ContactData {
            identity_id: self.identity_id,
            nickname: copy_text(&self.nickname),
            note: copy_text(&self.note),
            is_hidden: self.is_hidden,
            account_reference: self.account_reference,
            username: copy_text(&self.username),
            display_name: copy_text(&self.display_name),
            avatar_url: copy_text(&self.avatar_url),
            bio: copy_text(&self.bio),
        }
    }
}

/// The identities that occur on both sides, each once, in the order of their first request.
pub open spec fn mutual_contacts(
    incoming: Seq<Identifier>,
    outgoing: Seq<Identifier>,
) -> Seq<Identifier>
    decreases incoming.len(),
{
    if incoming.len() == 0 {
        seq![]
    } else {
        let before = mutual_contacts(incoming.drop_last(), outgoing);
        if outgoing.contains(incoming.last()) && !before.contains(incoming.last()) {
            before.push(incoming.last())
        } else {
            before
        }
    }
}

/// The mutual contacts are exactly the identities that sent a request and were sent one, and
/// none of them is listed twice.
pub proof fn law_mutual_contacts(incoming: Seq<Identifier>, outgoing: Seq<Identifier>)
    ensures
        mutual_contacts(incoming, outgoing).no_duplicates(),
        forall|id: Identifier| #[trigger]
            mutual_contacts(incoming, outgoing).contains(id) <==> incoming.contains(id)
                && outgoing.contains(id),
    decreases incoming.len(),
{
    let all = mutual_contacts(incoming, outgoing);
    if incoming.len() > 0 {
        let rest = incoming.drop_last();
        let last = incoming.last();
        let before = mutual_contacts(rest, outgoing);
        law_mutual_contacts(rest, outgoing);
        assert forall|id: Identifier| #[trigger] all.contains(id) <==> incoming.contains(id)
            && outgoing.contains(id) by {
            if incoming.contains(id) {
                let i = choose|i: int| 0 <= i < incoming.len() && incoming[i] == id;
                if i < rest.len() {
                    assert(rest[i] == id);
                    assert(rest.contains(id));
                } else {
                    assert(id == last);
                }
            }
            if rest.contains(id) {
                let i = choose|i: int| 0 <= i < rest.len() && rest[i] == id;
                assert(incoming[i] == id);
                assert(incoming.contains(id));
            }
            assert(incoming[incoming.len() - 1] == last);
            assert(incoming.contains(last));
            if outgoing.contains(last) && !before.contains(last) {
                assert(all == before.push(last));
                if before.contains(id) {
                    let i = choose|i: int| 0 <= i < before.len() && before[i] == id;
                    assert(all[i] == id);
                    assert(all.contains(id));
                }
                assert(all[before.len() as int] == last);
                if all.contains(id) {
                    let i = choose|i: int| 0 <= i < all.len() && all[i] == id;
                    if i < before.len() {
                        assert(before[i] == id);
                        assert(before.contains(id));
                    }
                }
            }
        }
        assert(all.no_duplicates()) by {
            if outgoing.contains(last) && !before.contains(last) {
                assert forall|i: int, j: int|
                    0 <= i < all.len() && 0 <= j < all.len() && i != j implies all[i]
                    != all[j] by {
                    if i < before.len() {
                        assert(before.contains(before[i]));
                    }
                    if j < before.len() {
                        assert(before.contains(before[j]));
                    }
                }
            }
        }
    }
}

/// Being a mutual contact does not depend on which side is taken first.
pub proof fn law_mutual_contacts_symmetric(incoming: Seq<Identifier>, outgoing: Seq<Identifier>)
    ensures
        forall|id: Identifier|
            mutual_contacts(incoming, outgoing).contains(id) <==> #[trigger] mutual_contacts(
                outgoing,
                incoming,
            ).contains(id),
{
    law_mutual_contacts(incoming, outgoing);
    law_mutual_contacts(outgoing, incoming);
}

/// Whether a list of identifiers has the given one.
fn lists(ids: &Vec<Identifier>, id: &Identifier) -> (r: bool)
    ensures
        r == ids@.contains(*id),
{
    let mut i: usize = 0;
    while i < ids.len()
        invariant
            i <= ids@.len(),
            forall|j: int| 0 <= j < i ==> ids@[j] != *id,
        decreases ids@.len() - i,
    {
        if ids[i].same(id) {
            assert(ids@[i as int] == *id);
            return true;
        }
        i = i + 1;
    }
    false
}

/// The mutual contacts: the identities that own an incoming contact request and are the
/// recipient of an outgoing one. None is listed twice.
pub fn find_mutual_contacts(
    incoming_owner_ids: Vec<Identifier>,
    outgoing_to_user_ids: Vec<Identifier>,
) -> (r: Vec<Identifier>)
    ensures
        r@ == mutual_contacts(incoming_owner_ids@, outgoing_to_user_ids@),
        r@.no_duplicates(),
        forall|id: Identifier| #[trigger]
            r@.contains(id) <==> incoming_owner_ids@.contains(id)
                && outgoing_to_user_ids@.contains(id),
{
    let mut r: Vec<Identifier> = Vec::new();
    let mut i: usize = 0;
    while i < incoming_owner_ids.len()
        invariant
            i <= incoming_owner_ids@.len(),
            r@ == mutual_contacts(
                incoming_owner_ids@.take(i as int),
                outgoing_to_user_ids@,
            ),
        decreases incoming_owner_ids@.len() - i,
    {
        proof {
            let n = i as int;
            assert(incoming_owner_ids@.take(n + 1).drop_last() =~= incoming_owner_ids@.take(n));
            assert(incoming_owner_ids@.take(n + 1).last() == incoming_owner_ids@[n]);
        }
        let id = incoming_owner_ids[i];
        if lists(&outgoing_to_user_ids, &id) && !lists(&r, &id) {
            r.push(id);
        }
        i = i + 1;
    }
    proof {
        assert(incoming_owner_ids@.take(i as int) =~= incoming_owner_ids@);
        law_mutual_contacts(incoming_owner_ids@, outgoing_to_user_ids@);
    }
    r
}

/// The recipients of contact requests: the identifiers in `toUserId`. A request without one is
/// left out.
pub open spec fn recipients(requests: Seq<(Identifier, Document)>) -> Seq<Identifier>
    decreases requests.len(),
{
    if requests.len() == 0 {
        seq![]
    } else {
        let before = recipients(requests.drop_last());
        match requests.last().1.identifier_at("toUserId"@) {
            Some(id) => before.push(id),
            None => before,
        }
    }
}

/// An identity is a recipient exactly where one of the requests holds its identifier under
/// `toUserId`.
pub proof fn law_recipients_are_named_in_requests(requests: Seq<(Identifier, Document)>)
    ensures
        forall|id: Identifier| #[trigger]
            recipients(requests).contains(id) <==> exists|i: int|
                0 <= i < requests.len() && property(
                    (#[trigger] requests[i]).1.properties@,
                    "toUserId"@,
                ) == Some(Value::Identifier(id.bytes)),
    decreases requests.len(),
{
    let all = recipients(requests);
    if requests.len() > 0 {
        let rest = requests.drop_last();
        let before = recipients(rest);
        law_recipients_are_named_in_requests(rest);
        assert forall|id: Identifier| #[trigger] all.contains(id) <==> exists|i: int|
            0 <= i < requests.len() && property(
                (#[trigger] requests[i]).1.properties@,
                "toUserId"@,
            ) == Some(Value::Identifier(id.bytes)) by {
            if all.contains(id) {
                let k = choose|k: int| 0 <= k < all.len() && all[k] == id;
                if k < before.len() {
                    assert(before[k] == id);
                    assert(before.contains(id));
                    let i = choose|i: int|
                        0 <= i < rest.len() && property(
                            (#[trigger] rest[i]).1.properties@,
                            "toUserId"@,
                        ) == Some(Value::Identifier(id.bytes));
                    assert(requests[i] == rest[i]);
                } else {
                    assert(requests[requests.len() - 1] == requests.last());
                }
            }
            if exists|i: int|
                0 <= i < requests.len() && property(
                    (#[trigger] requests[i]).1.properties@,
                    "toUserId"@,
                ) == Some(Value::Identifier(id.bytes)) {
                let i = choose|i: int|
                    0 <= i < requests.len() && property(
                        (#[trigger] requests[i]).1.properties@,
                        "toUserId"@,
                    ) == Some(Value::Identifier(id.bytes));
                if i < rest.len() {
                    assert(rest[i] == requests[i]);
                    assert(before.contains(id));
                    let k = choose|k: int| 0 <= k < before.len() && before[k] == id;
                    assert(all[k] == id);
                } else {
                    assert(all.last() == id);
                }
            }
        }
    }
}

/// Every request has its owner listed at its place.
pub proof fn law_owners_are_those_of_the_requests(requests: Seq<(Identifier, Document)>)
    ensures
        owners(requests).len() == requests.len(),
        forall|i: int|
            0 <= i < requests.len() ==> #[trigger] owners(requests)[i] == requests[i].1.owner_id,
{
}

/// The owners of contact requests.
pub open spec fn owners(requests: Seq<(Identifier, Document)>) -> Seq<Identifier> {
    requests.map_values(|request: (Identifier, Document)| request.1.owner_id)
}

/// Lists the recipients of contact requests.
pub fn request_recipients(requests: &Vec<(Identifier, Document)>) -> (r: Vec<Identifier>)
    ensures
        r@ == recipients(requests@),
{
    let mut r: Vec<Identifier> = Vec::new();
    let mut i: usize = 0;
    while i < requests.len()
        invariant
            i <= requests@.len(),
            r@ == recipients(requests@.take(i as int)),
        decreases requests@.len() - i,
    {
        proof {
            let n = i as int;
            assert(requests@.take(n + 1).drop_last() =~= requests@.take(n));
            assert(requests@.take(n + 1).last() == requests@[n]);
        }
        if let Some(id) = requests[i].1.get_identifier("toUserId") {
            r.push(id);
        }
        i = i + 1;
    }
    assert(requests@.take(i as int) =~= requests@);
    r
}

/// Lists the owners of contact requests.
pub fn request_owners(requests: &Vec<(Identifier, Document)>) -> (r: Vec<Identifier>)
    ensures
        r@ == owners(requests@),
{
    let mut r: Vec<Identifier> = Vec::new();
    let mut i: usize = 0;
    while i < requests.len()
        invariant
            i <= requests@.len(),
            r@.len() == i,
            forall|j: int| 0 <= j < i ==> r@[j] == requests@[j].1.owner_id,
        decreases requests@.len() - i,
    {
        r.push(requests[i].1.owner_id);
        i = i + 1;
    }
    assert(r@ =~= owners(requests@));
    r
}

/// The identifier that an encrypted one stands for.
pub open spec fn decrypted_id(encrypted: Seq<u8>, key: Seq<u8>) -> Seq<u8> {
    aes256_decrypted_block(key, encrypted.subrange(0, 16)) + aes256_decrypted_block(
        key,
        encrypted.subrange(16, 32),
    )
}

/// The private data that encrypted ones stand for, where they can be decrypted.
pub open spec fn decrypted_data(encrypted: Seq<u8>, key: Seq<u8>) -> Option<Seq<u8>> {
    if encrypted.len() < 16 {
        None
    } else {
        aes256_cbc_plaintext(key, encrypted.take(16), encrypted.skip(16))
    }
}

/// What private data say; nothing where there are none.
pub open spec fn noted_in(data: Option<Seq<u8>>) -> PrivateFields {
    match data {
        Some(bytes) => private_fields(bytes),
        None => blank_fields(),
    }
}

/// What a contact-info document says, read with the two keys that were derived for it: about
/// which contact, and what. It says nothing where the contact cannot be decrypted.
pub open spec fn contact_info(
    info: Document,
    user_id_key: Seq<u8>,
    private_data_key: Seq<u8>,
) -> Option<ContactModel> {
    match info.bytes_at("encToUserId"@) {
        Some(encrypted_id) => if encrypted_id.len() == 32 {
            Some(
                noted_contact(
                    decrypted_id(encrypted_id, user_id_key),
                    noted_in(
                        match info.bytes_at("privateData"@) {
                            Some(encrypted) => decrypted_data(encrypted, private_data_key),
                            None => None,
                        },
                    ),
                ),
            )
        } else {
            None
        },
        None => None,
    }
}

/// The contact that a contact-info document is about, given its decrypted identifier and its
/// decrypted private data.
pub fn contact_of(identity_id: [u8; 32], private_data: Option<Vec<u8>>) -> (r: ContactData)
    ensures
        r@ == noted_contact(
            identity_id@,
            noted_in(
                match private_data {
                    Some(bytes) => Some(bytes@),
                    None => None,
                },
            ),
        ),
{
    let identity_id = Identifier { bytes: identity_id };
    match private_data {
        Some(bytes) => ContactData::noted(identity_id, parse_private_data(bytes.as_slice())),
        None => ContactData::bare(identity_id),
    }
}

/// Reads a contact-info document with the two keys that were derived for it.
pub fn read_contact_info(
    info: &Document,
    user_id_key: &[u8; 32],
    private_data_key: &[u8; 32],
) -> (r: Option<ContactData>)
    ensures
        match r {
            Some(contact) => contact_info(*info, user_id_key@, private_data_key@) == Some(contact@),
            None => contact_info(*info, user_id_key@, private_data_key@) is None,
        },
{
    let identity_id = match info.get_bytes("encToUserId") {
        Some(encrypted) => match decrypt_to_user_id(encrypted.as_slice(), user_id_key) {
            Ok(id) => id,
            Err(_) => {
                return None;
            },
        },
        None => {
            return None;
        },
    };
    let private_data = match info.get_bytes("privateData") {
        Some(encrypted) => match decrypt_private_data(encrypted.as_slice(), private_data_key) {
            Ok(bytes) => Some(bytes),
            Err(_) => None,
        },
        None => None,
    };
    Some(contact_of(identity_id, private_data))
}

/// A contact-info document tells of a contact exactly where it holds 32 bytes under `encToUserId`.
/// The contact is the one whose identifier those bytes encrypt, block by block. What is noted
/// about it is what the decrypted bytes under `privateData` say, behind the 16 bytes of their
/// initialisation vector; nothing is noted where there are none or they cannot be decrypted. Nothing
/// is known yet of what the contact publishes.
pub proof fn law_contact_info_is_what_its_document_encrypts(
    info: Document,
    user_id_key: Seq<u8>,
    private_data_key: Seq<u8>,
    r: Option<ContactData>,
)
    requires
        match r {
            Some(contact) => contact_info(info, user_id_key, private_data_key) == Some(contact@),
            None => contact_info(info, user_id_key, private_data_key) is None,
        },
    ensures
        r is Some <==> (property(info.properties@, "encToUserId"@) matches Some(Value::Bytes(b))
            && b@.len() == 32),
        r matches Some(contact) ==> {
            let encrypted = property(info.properties@, "encToUserId"@)->0->Bytes_0@;
            &&& contact.identity_id.bytes@ == aes256_decrypted_block(
                user_id_key,
                encrypted.subrange(0, 16),
            ) + aes256_decrypted_block(user_id_key, encrypted.subrange(16, 32))
            &&& contact.username is None
            &&& contact.display_name is None
            &&& contact.avatar_url is None
            &&& contact.bio is None
            &&& match property(info.properties@, "privateData"@) {
                Some(Value::Bytes(data)) if data@.len() >= 16 && aes256_cbc_plaintext(
                    private_data_key,
                    data@.subrange(0, 16),
                    data@.subrange(16, data@.len() as int),
                ) is Some => {
                    let plain = aes256_cbc_plaintext(
                        private_data_key,
                        data@.subrange(0, 16),
                        data@.subrange(16, data@.len() as int),
                    )->0;
                    &&& optional_text(contact.nickname) == private_fields(plain).nickname
                    &&& optional_text(contact.note) == private_fields(plain).note
                    &&& contact.is_hidden == private_fields(plain).is_hidden
                    &&& contact.account_reference == private_fields(plain).account_reference
                },
                _ => {
                    &&& contact.nickname is None
                    &&& contact.note is None
                    &&& !contact.is_hidden
                    &&& contact.account_reference == 0
                },
            }
        },
{
    if let Some(Value::Bytes(data)) = property(info.properties@, "privateData"@) {
        if data@.len() >= 16 {
            assert(data@.subrange(0, 16) =~= data@.take(16));
            assert(data@.subrange(16, data@.len() as int) =~= data@.skip(16));
        }
    }
}

/// What was last noted about an identity.
pub open spec fn latest(infos: Seq<ContactModel>, id: Seq<u8>) -> Option<ContactModel>
    decreases infos.len(),
{
    if infos.len() == 0 {
        None
    } else if infos.last().identity_id == id {
        Some(infos.last())
    } else {
        latest(infos.drop_last(), id)
    }
}

/// The entry of a contact: what was last noted about it, or that nothing was.
pub open spec fn contact_entry(infos: Seq<ContactModel>, id: Identifier) -> ContactModel {
    match latest(infos, id@) {
        Some(contact) => contact,
        None => noted_contact(id@, blank_fields()),
    }
}

/// The list of the contacts, one entry each.
pub open spec fn contact_list(
    contacts: Seq<Identifier>,
    infos: Seq<ContactModel>,
) -> Seq<ContactModel> {
    contacts.map_values(|id: Identifier| contact_entry(infos, id))
}

proof fn lemma_latest_at(infos: Seq<ContactModel>, id: Seq<u8>, i: int)
    requires
        0 <= i < infos.len(),
        infos[i].identity_id == id,
        forall|j: int| i < j < infos.len() ==> (#[trigger] infos[j]).identity_id != id,
    ensures
        latest(infos, id) == Some(infos[i]),
    decreases infos.len(),
{
    if i < infos.len() - 1 {
        assert(infos[infos.len() - 1].identity_id != id);
        lemma_latest_at(infos.drop_last(), id, i);
    }
}

proof fn lemma_latest_absent(infos: Seq<ContactModel>, id: Seq<u8>)
    requires
        forall|j: int| 0 <= j < infos.len() ==> (#[trigger] infos[j]).identity_id != id,
    ensures
        latest(infos, id) is None,
    decreases infos.len(),
{
    if infos.len() > 0 {
        assert(infos[infos.len() - 1].identity_id != id);
        lemma_latest_absent(infos.drop_last(), id);
    }
}

proof fn lemma_latest_there(infos: Seq<ContactModel>, id: Seq<u8>, i: int)
    requires
        0 <= i < infos.len(),
        infos[i].identity_id == id,
    ensures
        latest(infos, id) is Some,
        latest(infos, id)->0.identity_id == id,
    decreases infos.len(),
{
    if infos.last().identity_id != id {
        lemma_latest_there(infos.drop_last(), id, i);
    }
}

/// The last entry about an identity counts, and there is one exactly where some entry is about it.
pub proof fn law_last_note_counts(infos: Seq<ContactModel>, id: Seq<u8>)
    ensures
        latest(infos, id) is Some <==> exists|i: int|
            0 <= i < infos.len() && (#[trigger] infos[i]).identity_id == id,
        latest(infos, id) matches Some(contact) ==> contact.identity_id == id,
        forall|i: int|
            0 <= i < infos.len() && (#[trigger] infos[i]).identity_id == id && (forall|j: int|
                i < j < infos.len() ==> (#[trigger] infos[j]).identity_id != id) ==> latest(
                infos,
                id,
            ) == Some(infos[i]),
{
    if exists|i: int| 0 <= i < infos.len() && (#[trigger] infos[i]).identity_id == id {
        let i = choose|i: int| 0 <= i < infos.len() && (#[trigger] infos[i]).identity_id == id;
        lemma_latest_there(infos, id, i);
    } else {
        lemma_latest_absent(infos, id);
    }
    assert forall|i: int|
        0 <= i < infos.len() && (#[trigger] infos[i]).identity_id == id && (forall|j: int|
            i < j < infos.len() ==> (#[trigger] infos[j]).identity_id != id) implies latest(
        infos,
        id,
    ) == Some(infos[i]) by {
        lemma_latest_at(infos, id, i);
    }
}

/// The list has one entry for each contact, at its place. It is the last of the entries that were
/// noted about the contact, and where there is none, a blank one.
pub proof fn law_list_has_the_last_notes(
    contacts: Seq<Identifier>,
    infos: Seq<ContactData>,
    list: Seq<ContactData>,
)
    requires
        contact_models(list) == contact_list(contacts, contact_models(infos)),
    ensures
        list.len() == contacts.len(),
        forall|k: int| 0 <= k < contacts.len() ==> (#[trigger] list[k]).identity_id == contacts[k],
        forall|k: int, i: int|
            0 <= k < contacts.len() && 0 <= i < infos.len() && infos[i].identity_id == contacts[k]
                && (forall|j: int|
                i < j < infos.len() ==> (#[trigger] infos[j]).identity_id != contacts[k]) ==> {
                &&& optional_text((#[trigger] list[k]).nickname) == optional_text(
                    (#[trigger] infos[i]).nickname,
                )
                &&& optional_text(list[k].note) == optional_text(infos[i].note)
                &&& list[k].is_hidden == infos[i].is_hidden
                &&& list[k].account_reference == infos[i].account_reference
                &&& optional_text(list[k].username) == optional_text(infos[i].username)
                &&& optional_text(list[k].display_name) == optional_text(infos[i].display_name)
                &&& optional_text(list[k].avatar_url) == optional_text(infos[i].avatar_url)
                &&& optional_text(list[k].bio) == optional_text(infos[i].bio)
            },
        forall|k: int|
            0 <= k < contacts.len() && (forall|i: int|
                0 <= i < infos.len() ==> (#[trigger] infos[i]).identity_id != contacts[k]) ==> {
                &&& (#[trigger] list[k]).nickname is None
                &&& list[k].note is None
                &&& !list[k].is_hidden
                &&& list[k].account_reference == 0
                &&& list[k].username is None
                &&& list[k].display_name is None
                &&& list[k].avatar_url is None
                &&& list[k].bio is None
            },
{
    let models = contact_models(infos);
    assert(contact_models(list).len() == contacts.len());
    assert forall|k: int| 0 <= k < contacts.len() implies (#[trigger] list[k]).identity_id
        == contacts[k] by {
        assert(contact_models(list)[k] == contact_entry(models, contacts[k]));
        law_last_note_counts(models, contacts[k]@);
        lemma_array_ext(list[k].identity_id.bytes, contacts[k].bytes);
    }
    assert forall|k: int, i: int|
        0 <= k < contacts.len() && 0 <= i < infos.len() && infos[i].identity_id == contacts[k] && (
        forall|j: int|
            i < j < infos.len() ==> (#[trigger] infos[j]).identity_id != contacts[k]) implies (
    #[trigger] list[k])@ == (#[trigger] infos[i])@ by {
        assert(contact_models(list)[k] == contact_entry(models, contacts[k]));
        law_last_note_counts(models, contacts[k]@);
        assert(models[i].identity_id == contacts[k]@);
        assert forall|j: int| i < j < models.len() implies (#[trigger] models[j]).identity_id
            != contacts[k]@ by {
            assert(infos[j].identity_id != contacts[k]);
            if models[j].identity_id == contacts[k]@ {
                lemma_array_ext(infos[j].identity_id.bytes, contacts[k].bytes);
            }
        }
    }
    assert forall|k: int|
        0 <= k < contacts.len() && (forall|i: int|
            0 <= i < infos.len() ==> (#[trigger] infos[i]).identity_id != contacts[k]) implies (
    #[trigger] list[k])@ == noted_contact(contacts[k]@, blank_fields()) by {
        assert(contact_models(list)[k] == contact_entry(models, contacts[k]));
        law_last_note_counts(models, contacts[k]@);
        assert forall|i: int| 0 <= i < models.len() implies (#[trigger] models[i]).identity_id
            != contacts[k]@ by {
            assert(infos[i].identity_id != contacts[k]);
            if models[i].identity_id == contacts[k]@ {
                lemma_array_ext(infos[i].identity_id.bytes, contacts[k].bytes);
            }
        }
    }
}

/// Makes the entry of a contact.
fn make_contact_entry(infos: &Vec<ContactData>, id: &Identifier) -> (r: ContactData)
    ensures
        r@ == contact_entry(contact_models(infos@), *id),
{
    let ghost models = contact_models(infos@);
    let mut i: usize = infos.len();
    assert(models.take(i as int) =~= models);
    while i > 0
        invariant
            i <= infos@.len(),
            models == contact_models(infos@),
            latest(models, id@) == latest(models.take(i as int), id@),
        decreases i,
    {
        proof {
            let n = i as int;
            assert(models.take(n).last() == models[n - 1]);
            assert(models.take(n).drop_last() =~= models.take(n - 1));
        }
        i = i - 1;
        if infos[i].identity_id.same(id) {
            return infos[i].duplicate();
        }
    }
    ContactData::bare(*id)
}

/// Makes the list of the contacts.
pub fn make_contact_list(contacts: &Vec<Identifier>, infos: &Vec<ContactData>) -> (r: Vec<
    ContactData,
>)
    ensures
        contact_models(r@) == contact_list(contacts@, contact_models(infos@)),
{
    let mut r: Vec<ContactData> = Vec::new();
    let mut i: usize = 0;
    while i < contacts.len()
        invariant
            i <= contacts@.len(),
            r@.len() == i,
            forall|j: int|
                0 <= j < i ==> (#[trigger] r@[j])@ == contact_entry(
                    contact_models(infos@),
                    contacts@[j],
                ),
        decreases contacts@.len() - i,
    {
        r.push(make_contact_entry(infos, &contacts[i]));
        i = i + 1;
    }
    assert(contact_models(r@) =~= contact_list(contacts@, contact_models(infos@)));
    r
}

/// Whether the first contact with an identifier stands at `i`.
pub open spec fn stands_at(list: Seq<ContactModel>, id: Seq<u8>, i: int) -> bool {
    &&& 0 <= i < list.len()
    &&& list[i].identity_id == id
    &&& forall|j: int| 0 <= j < i ==> (#[trigger] list[j]).identity_id != id
}

/// A list in which the first contact with an identifier was replaced.
pub open spec fn replaced(
    list: Seq<ContactModel>,
    id: Seq<u8>,
    change: spec_fn(ContactModel) -> ContactModel,
) -> Seq<ContactModel> {
    if exists|i: int| stands_at(list, id, i) {
        let i = choose|i: int| stands_at(list, id, i);
        list.update(i, change(list[i]))
    } else {
        list
    }
}

/// A contact with what its profile publishes.
pub open spec fn with_profile(contact: ContactModel, profile: Document) -> ContactModel {
    ContactModel {
        display_name: profile.text_at("displayName"@),
        avatar_url: profile.text_at("avatarUrl"@),
        bio: profile.text_at("bio"@),
        ..contact
    }
}

/// A contact with its registered name. A registration without a label changes nothing.
pub open spec fn with_name(contact: ContactModel, domain: Document) -> ContactModel {
    match domain.text_at("label"@) {
        Some(label) => ContactModel { username: Some(label), ..contact },
        None => contact,
    }
}

/// A list with the profile of one identity.
pub open spec fn with_profile_of(
    list: Seq<ContactModel>,
    id: Seq<u8>,
    profile: Document,
) -> Seq<ContactModel> {
    replaced(list, id, |c: ContactModel| with_profile(c, profile))
}

/// A list with the registered name of one identity.
pub open spec fn with_name_of(
    list: Seq<ContactModel>,
    id: Seq<u8>,
    domain: Document,
) -> Seq<ContactModel> {
    replaced(list, id, |c: ContactModel| with_name(c, domain))
}

/// Where a contact first stands, its replacement changes that entry and no other.
pub proof fn lemma_replaced_at(
    list: Seq<ContactModel>,
    id: Seq<u8>,
    change: spec_fn(ContactModel) -> ContactModel,
    i: int,
)
    requires
        stands_at(list, id, i),
    ensures
        replaced(list, id, change) == list.update(i, change(list[i])),
{
    let k = choose|k: int| stands_at(list, id, k);
    assert(stands_at(list, id, k));
    if k < i {
        assert(list[k].identity_id != id);
    }
    if i < k {
        assert(list[i].identity_id != id);
    }
}

/// Whether a field is the text that a document stores under a name, and blank where it stores no
/// text there.
pub open spec fn is_stored_text(
    field: Option<String>,
    document: Document,
    name: Seq<char>,
) -> bool {
    match property(document.properties@, name) {
        Some(Value::Text(text)) => field is Some && field->0@ == text@,
        _ => field is None,
    }
}

/// Whether a document stores a text under a name.
pub open spec fn stores_text(document: Document, name: Seq<char>) -> bool {
    property(document.properties@, name) matches Some(Value::Text(_))
}

/// Whether a contact is the first of a list with an identifier.
pub open spec fn is_first_with(list: Seq<ContactData>, id: Identifier, i: int) -> bool {
    &&& 0 <= i < list.len()
    &&& list[i].identity_id == id
    &&& forall|j: int| 0 <= j < i ==> (#[trigger] list[j]).identity_id != id
}

proof fn lemma_stands_at(list: Seq<ContactData>, id: Identifier, i: int)
    ensures
        stands_at(contact_models(list), id@, i) <==> is_first_with(list, id, i),
{
    let models = contact_models(list);
    assert forall|j: int| 0 <= j < list.len() implies (models[j].identity_id == id@ <==> (
    #[trigger] list[j]).identity_id == id) by {
        if models[j].identity_id == id@ {
            lemma_array_ext(list[j].identity_id.bytes, id.bytes);
        }
    }
    if is_first_with(list, id, i) {
        assert forall|j: int| 0 <= j < i implies (#[trigger] models[j]).identity_id != id@ by {
            assert(list[j].identity_id != id);
        }
    }
    if stands_at(models, id@, i) {
        assert forall|j: int| 0 <= j < i implies (#[trigger] list[j]).identity_id != id by {
            assert(models[j].identity_id != id@);
        }
    }
}

proof fn lemma_replaced_elsewhere(
    list: Seq<ContactModel>,
    id: Seq<u8>,
    change: spec_fn(ContactModel) -> ContactModel,
    i: int,
)
    requires
        0 <= i < list.len(),
        !stands_at(list, id, i),
    ensures
        replaced(list, id, change).len() == list.len(),
        replaced(list, id, change)[i] == list[i],
{
    if exists|k: int| stands_at(list, id, k) {
        let k = choose|k: int| stands_at(list, id, k);
        lemma_replaced_at(list, id, change, k);
    }
}

/// The first contact with the identifier gets, as its display name, its avatar and its bio, each
/// the text that the profile stores under `displayName`, `avatarUrl` and `bio`, and none where it
/// stores none. Nothing else changes, of this contact or of any other.
pub proof fn law_profile_is_applied(
    before: Seq<ContactData>,
    after: Seq<ContactData>,
    id: Identifier,
    profile: Document,
)
    requires
        contact_models(after) == with_profile_of(contact_models(before), id@, profile),
    ensures
        after.len() == before.len(),
        forall|i: int|
            0 <= i < before.len() && before[i].identity_id == id && (forall|j: int|
                0 <= j < i ==> (#[trigger] before[j]).identity_id != id) ==> {
                &&& match property(profile.properties@, "displayName"@) {
                    Some(Value::Text(text)) => (#[trigger] after[i]).display_name is Some
                        && after[i].display_name->0@ == text@,
                    _ => after[i].display_name is None,
                }
                &&& match property(profile.properties@, "avatarUrl"@) {
                    Some(Value::Text(text)) => after[i].avatar_url is Some
                        && after[i].avatar_url->0@ == text@,
                    _ => after[i].avatar_url is None,
                }
                &&& match property(profile.properties@, "bio"@) {
                    Some(Value::Text(text)) => after[i].bio is Some && after[i].bio->0@ == text@,
                    _ => after[i].bio is None,
                }
            },
        forall|i: int|
            0 <= i < before.len() && (before[i].identity_id != id || exists|j: int|
                0 <= j < i && (#[trigger] before[j]).identity_id == id) ==> {
                &&& optional_text((#[trigger] after[i]).display_name) == optional_text(
                    before[i].display_name,
                )
                &&& optional_text(after[i].avatar_url) == optional_text(before[i].avatar_url)
                &&& optional_text(after[i].bio) == optional_text(before[i].bio)
            },
        forall|i: int|
            0 <= i < before.len() ==> {
                &&& (#[trigger] after[i]).identity_id == before[i].identity_id
                &&& optional_text(after[i].nickname) == optional_text(before[i].nickname)
                &&& optional_text(after[i].note) == optional_text(before[i].note)
                &&& after[i].is_hidden == before[i].is_hidden
                &&& after[i].account_reference == before[i].account_reference
                &&& optional_text(after[i].username) == optional_text(before[i].username)
            },
{
    let list = contact_models(before);
    let models = contact_models(after);
    let change = |c: ContactModel| with_profile(c, profile);
    assert(models.len() == list.len());
    assert forall|i: int| 0 <= i < before.len() implies (#[trigger] after[i])@ == if is_first_with(
        before,
        id,
        i,
    ) {
        with_profile(before[i]@, profile)
    } else {
        before[i]@
    } by {
        assert(models[i] == after[i]@);
        lemma_stands_at(before, id, i);
        if stands_at(list, id@, i) {
            lemma_replaced_at(list, id@, change, i);
        } else {
            lemma_replaced_elsewhere(list, id@, change, i);
        }
    }
    assert forall|i: int| 0 <= i < before.len() implies (#[trigger] after[i]).identity_id
        == before[i].identity_id by {
        assert(after[i]@.identity_id == before[i]@.identity_id);
        lemma_array_ext(after[i].identity_id.bytes, before[i].identity_id.bytes);
    }
}

/// The first contact with the identifier gets the text that the registration stores under `label`
/// as its username; where it stores none, the username stays. Nothing else changes, of this
/// contact or of any other.
pub proof fn law_name_is_applied(
    before: Seq<ContactData>,
    after: Seq<ContactData>,
    id: Identifier,
    domain: Document,
)
    requires
        contact_models(after) == with_name_of(contact_models(before), id@, domain),
    ensures
        after.len() == before.len(),
        forall|i: int|
            0 <= i < before.len() && before[i].identity_id == id && (forall|j: int|
                0 <= j < i ==> (#[trigger] before[j]).identity_id != id) ==> match property(
                domain.properties@,
                "label"@,
            ) {
                Some(Value::Text(text)) => (#[trigger] after[i]).username is Some
                    && after[i].username->0@ == text@,
                _ => optional_text(after[i].username) == optional_text(before[i].username),
            },
        forall|i: int|
            0 <= i < before.len() && (before[i].identity_id != id || exists|j: int|
                0 <= j < i && (#[trigger] before[j]).identity_id == id) ==> optional_text(
                (#[trigger] after[i]).username,
            ) == optional_text(before[i].username),
        forall|i: int|
            0 <= i < before.len() ==> {
                &&& (#[trigger] after[i]).identity_id == before[i].identity_id
                &&& optional_text(after[i].nickname) == optional_text(before[i].nickname)
                &&& optional_text(after[i].note) == optional_text(before[i].note)
                &&& after[i].is_hidden == before[i].is_hidden
                &&& after[i].account_reference == before[i].account_reference
                &&& optional_text(after[i].display_name) == optional_text(before[i].display_name)
                &&& optional_text(after[i].avatar_url) == optional_text(before[i].avatar_url)
                &&& optional_text(after[i].bio) == optional_text(before[i].bio)
            },
{
    let list = contact_models(before);
    let models = contact_models(after);
    let change = |c: ContactModel| with_name(c, domain);
    assert(models.len() == list.len());
    assert forall|i: int| 0 <= i < before.len() implies (#[trigger] after[i])@ == if is_first_with(
        before,
        id,
        i,
    ) {
        with_name(before[i]@, domain)
    } else {
        before[i]@
    } by {
        assert(models[i] == after[i]@);
        lemma_stands_at(before, id, i);
        if stands_at(list, id@, i) {
            lemma_replaced_at(list, id@, change, i);
        } else {
            lemma_replaced_elsewhere(list, id@, change, i);
        }
    }
    assert forall|i: int| 0 <= i < before.len() implies (#[trigger] after[i]).identity_id
        == before[i].identity_id by {
        assert(after[i]@.identity_id == before[i]@.identity_id);
        lemma_array_ext(after[i].identity_id.bytes, before[i].identity_id.bytes);
    }
}

/// Finds the first contact with an identifier.
fn find_contact(list: &Vec<ContactData>, id: &Identifier) -> (r: Option<usize>)
    ensures
        match r {
            Some(i) => stands_at(contact_models(list@), id@, i as int),
            None => forall|i: int| !stands_at(contact_models(list@), id@, i),
        },
{
    let ghost models = contact_models(list@);
    let mut i: usize = 0;
    while i < list.len()
        invariant
            i <= list@.len(),
            models == contact_models(list@),
            forall|j: int| 0 <= j < i ==> (#[trigger] models[j]).identity_id != id@,
        decreases list@.len() - i,
    {
        if list[i].identity_id.same(id) {
            assert(models[i as int].identity_id == id@);
            return Some(i);
        }
        assert(models[i as int].identity_id != id@);
        i = i + 1;
    }
    None
}

/// Puts what a profile publishes into the list.
pub fn apply_profile(list: &mut Vec<ContactData>, id: &Identifier, profile: &Document)
    ensures
        contact_models(final(list)@) == with_profile_of(
            contact_models(old(list)@),
            id@,
            *profile,
        ),
        final(list)@.len() == old(list)@.len(),
        forall|i: int|
            is_first_with(old(list)@, *id, i) ==> {
                &&& is_stored_text(
                    (#[trigger] final(list)@[i]).display_name,
                    *profile,
                    "displayName"@,
                )
                &&& is_stored_text(final(list)@[i].avatar_url, *profile, "avatarUrl"@)
                &&& is_stored_text(final(list)@[i].bio, *profile, "bio"@)
            },
{
    let display_name = profile.get_text("displayName");
    let avatar_url = profile.get_text("avatarUrl");
    let bio = profile.get_text("bio");
    if let Some(i) = find_contact(list, id) {
        let mut contact = list[i].duplicate();
        contact.display_name = display_name;
        contact.avatar_url = avatar_url;
        contact.bio = bio;
        proof {
            let change = |c: ContactModel| with_profile(c, *profile);
            lemma_replaced_at(contact_models(list@), id@, change, i as int);
            assert(contact_models(list@.update(i as int, contact)) =~= contact_models(
                list@,
            ).update(i as int, change(contact_models(list@)[i as int])));
        }
        list.set(i, contact);
    }
    proof {
        law_profile_is_applied(old(list)@, list@, *id, *profile);
    }
}

/// Puts a registered name into the list.
pub fn apply_name(list: &mut Vec<ContactData>, id: &Identifier, domain: &Document)
    ensures
        contact_models(final(list)@) == with_name_of(contact_models(old(list)@), id@, *domain),
        final(list)@.len() == old(list)@.len(),
        forall|i: int|
            is_first_with(old(list)@, *id, i) && stores_text(*domain, "label"@) ==> is_stored_text(
                (#[trigger] final(list)@[i]).username,
                *domain,
                "label"@,
            ),
{
    let label = domain.get_text("label");
    if let Some(i) = find_contact(list, id) {
        let mut contact = list[i].duplicate();
        if label.is_some() {
            contact.username = label;
        }
        proof {
            let change = |c: ContactModel| with_name(c, *domain);
            lemma_replaced_at(contact_models(list@), id@, change, i as int);
            assert(contact_models(list@.update(i as int, contact)) =~= contact_models(
                list@,
            ).update(i as int, change(contact_models(list@)[i as int])));
        }
        list.set(i, contact);
    }
    proof {
        law_name_is_applied(old(list)@, list@, *id, *domain);
    }
}

/// Adding a contact by username: a contact request has to be sent instead.
pub fn add_contact(contact_username: String, account_label: Option<String>) -> (r: Result<
    BackendTaskSuccessResult,
    String,
>)
    ensures
        r is Err,
        r->Err_0@
            == "Adding contacts via username is not yet implemented. Use the contact request workflow instead."@,
{
    Err(
        "Adding contacts via username is not yet implemented. Use the contact request workflow instead.".to_owned(),
    )
}

/// Removing a contact.
pub fn remove_contact(contact_id: Identifier) -> (r: Result<BackendTaskSuccessResult, String>)
    ensures
        r is Err,
        r->Err_0@ == "Contact removal is not yet implemented"@,
{
    Err("Contact removal is not yet implemented".to_owned())
}

} // verus!
