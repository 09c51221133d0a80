//! Loading the contacts of an identity from the platform.
//!
//! Contact requests are fetched in both directions; whoever is on both sides is a contact. Then
//! come the owner's encrypted notes, for which keys have to be derived one by one, and last the
//! profile and the registered name of each contact.

use vstd::prelude::*;
use vstd::string::*;

use crate::contacts::{
    apply_name, apply_profile, contact_entry, contact_info, contact_list, contact_models,
    find_mutual_contacts, latest, law_mutual_contacts, law_owners_are_those_of_the_requests,
    law_recipients_are_named_in_requests, lemma_replaced_at, make_contact_list, mutual_contacts,
    owners, read_contact_info, recipients, request_owners, request_recipients, stands_at,
    with_name, with_name_of, with_profile, with_profile_of, ContactData, ContactModel,
};
use crate::document::{property, Document, Value};
use crate::identifier::{lemma_array_ext, Identifier};
use crate::pagination::{
    after_answer, after_page, all_present, complete, fresh_pages, law_all_present_are_the_listed,
    lemma_complete_rest, PageStep, PageStepModel, PagesModel, Pagination, DASHPAY_QUERY_PAGE_SIZE,
};
use crate::private_data::blank_fields;
use crate::query::{
    contact_infos, contact_infos_query, incoming_requests, incoming_requests_query, name_of,
    name_query, outgoing_requests, outgoing_requests_query, profile_of, profile_query, Contract,
    DocumentQuery, QueryModel,
};
use crate::result::BackendTaskSuccessResult;
use crate::text::optional_text;

verus! {

/// The answer to a document query.
pub enum QueryReply {
    /// The query could not be built.
    NotBuilt(String),
    /// The query could not be answered.
    Failed(String),
    /// The documents, by identifier, in the order of the query.
    Page(Vec<(Identifier, Option<Document>)>),
}

/// The contents of a `QueryReply`.
pub enum ReplyModel {
    NotBuilt(Seq<char>),
    Failed(Seq<char>),
    Page(Seq<(Identifier, Option<Document>)>),
}

impl View for QueryReply {
    type V = ReplyModel;

    open spec fn view(&self) -> ReplyModel {
        match self {
            QueryReply::NotBuilt(e) => ReplyModel::NotBuilt(e@),
            QueryReply::Failed(e) => ReplyModel::Failed(e@),
            QueryReply::Page(page) => ReplyModel::Page(page@),
        }
    }
}

/// What a load asks the platform for.
enum QueryStage {
    /// The requests that the identity sent.
    Outgoing { identity_id: Identifier, pages: Pagination<Document> },
    /// The requests that it received.
    Incoming { identity_id: Identifier, sent_to: Vec<Identifier>, pages: Pagination<Document> },
    /// What it noted about its contacts.
    Infos { contacts: Vec<Identifier>, pages: Pagination<Document> },
    /// The profile of the contact at `at`.
    Profile { list: Vec<ContactData>, at: usize, query: DocumentQuery },
    /// The registered name of the contact at `at`.
    Name { list: Vec<ContactData>, at: usize, query: DocumentQuery },
}

/// A load that waits for the answer to a query.
pub struct ContactsQuery {
    stage: QueryStage,
}

/// A load that waits for the keys of the contact-info document at `at`.
pub struct ContactsKeys {
    contacts: Vec<Identifier>,
    infos: Vec<(Identifier, Document)>,
    at: usize,
    derivation_index: u32,
    known: Vec<ContactData>,
}

/// What to do next.
pub enum LoadStep {
    /// Run the query and resume with the answer.
    Query(ContactsQuery),
    /// Derive the keys for the index and resume with them.
    DeriveKeys(ContactsKeys),
    /// The load is over.
    Done(Result<BackendTaskSuccessResult, String>),
}

/// The contents of a `LoadStep`.
pub enum LoadModel {
    Outgoing { identity_id: Seq<u8>, pages: PagesModel<Document> },
    Incoming { identity_id: Seq<u8>, sent_to: Seq<Identifier>, pages: PagesModel<Document> },
    Infos { contacts: Seq<Identifier>, pages: PagesModel<Document> },
    Keys {
        contacts: Seq<Identifier>,
        infos: Seq<(Identifier, Document)>,
        at: int,
        known: Seq<ContactModel>,
    },
    Profile { list: Seq<ContactModel>, at: int },
    Name { list: Seq<ContactModel>, at: int },
    Finished(Seq<ContactModel>),
    Failed(Seq<char>),
}

impl QueryStage {
    /// The load that waits.
    spec fn model(&self) -> LoadModel {
        match self {
            QueryStage::Outgoing { identity_id, pages } => LoadModel::Outgoing {
                identity_id: identity_id@,
                pages: pages@,
            },
            QueryStage::Incoming { identity_id, sent_to, pages } => LoadModel::Incoming {
                identity_id: identity_id@,
                sent_to: sent_to@,
                pages: pages@,
            },
            QueryStage::Infos { contacts, pages } => LoadModel::Infos {
                contacts: contacts@,
                pages: pages@,
            },
            QueryStage::Profile { list, at, query } => LoadModel::Profile {
                list: contact_models(list@),
                at: *at as int,
            },
            QueryStage::Name { list, at, query } => LoadModel::Name {
                list: contact_models(list@),
                at: *at as int,
            },
        }
    }
}

impl View for ContactsQuery {
    type V = LoadModel;

    closed spec fn view(&self) -> LoadModel {
        self.stage.model()
    }
}

impl View for ContactsKeys {
    type V = LoadModel;

    closed spec fn view(&self) -> LoadModel {
        LoadModel::Keys {
            contacts: self.contacts@,
            infos: self.infos@,
            at: self.at as int,
            known: contact_models(self.known@),
        }
    }
}

impl View for LoadStep {
    type V = LoadModel;

    open spec fn view(&self) -> LoadModel {
        match self {
            LoadStep::Query(query) => query@,
            LoadStep::DeriveKeys(keys) => keys@,
            LoadStep::Done(Ok(result)) => LoadModel::Finished(
                contact_models(result->DashPayContactsWithInfo_0@),
            ),
            LoadStep::Done(Err(message)) => LoadModel::Failed(message@),
        }
    }
}

/// The derivation index that a contact-info document names.
pub open spec fn derivation_index(info: (Identifier, Document)) -> Option<u32> {
    info.1.u32_at("derivationEncryptionKeyIndex"@)
}

impl LoadModel {
    /// Whether the load stands at something that is there.
    pub open spec fn well_formed(self) -> bool {
        match self {
            LoadModel::Keys { contacts, infos, at, known } => 0 <= at < infos.len()
                && derivation_index(infos[at]) is Some,
            LoadModel::Profile { list, at } => 0 <= at < list.len(),
            LoadModel::Name { list, at } => 0 <= at < list.len(),
            _ => true,
        }
    }

    /// The query that the load waits for.
    pub open spec fn query(self) -> QueryModel {
        match self {
            LoadModel::Outgoing { identity_id, pages } => pages.query,
            LoadModel::Incoming { identity_id, sent_to, pages } => pages.query,
            LoadModel::Infos { contacts, pages } => pages.query,
            LoadModel::Profile { list, at } => profile_of(list[at].identity_id),
            LoadModel::Name { list, at } => name_of(list[at].identity_id),
            _ => arbitrary(),
        }
    }
}

impl QueryStage {
    /// Whether the load stands at a contact, and asks for that one.
    spec fn asks_for_its_contact(&self) -> bool {
        &&& self.model().well_formed()
        &&& match self {
            QueryStage::Profile { list, at, query } => query@ == self.model().query(),
            QueryStage::Name { list, at, query } => query@ == self.model().query(),
            _ => true,
        }
    }
}

impl ContactsQuery {
    /// Where the load asks for a contact, it is the one that it stands at.
    #[verifier::type_invariant]
    spec fn asks_for_its_contact(self) -> bool {
        self.stage.asks_for_its_contact()
    }
}

impl ContactsKeys {
    /// The load stands at a document, and asks for the index of that one.
    #[verifier::type_invariant]
    spec fn asks_for_its_index(self) -> bool {
        &&& self.at < self.infos@.len()
        &&& derivation_index(self.infos@[self.at as int]) == Some(self.derivation_index)
    }
}

impl LoadStep {
    /// Whether the load stands at something that is there, or ended with a contact list.
    pub open spec fn well_formed(self) -> bool {
        &&& self@.well_formed()
        &&& self matches LoadStep::Done(Ok(result)) ==> result is DashPayContactsWithInfo
    }
}

/// A load that has not begun.
pub open spec fn fresh_load(identity_id: Seq<u8>) -> LoadModel {
    LoadModel::Outgoing {
        identity_id,
        pages: fresh_pages(outgoing_requests(identity_id), "outgoing contact requests"@),
    }
}

/// The load once the contact list stands: profiles and names are fetched, if there is a contact.
pub open spec fn with_list(list: Seq<ContactModel>) -> LoadModel {
    if list.len() == 0 {
        LoadModel::Finished(list)
    } else {
        LoadModel::Profile { list, at: 0 }
    }
}

/// The load at the first document from `at` on that names a derivation index; documents without
/// one are passed over.
pub open spec fn at_next_info(
    contacts: Seq<Identifier>,
    infos: Seq<(Identifier, Document)>,
    at: int,
    known: Seq<ContactModel>,
) -> LoadModel
    decreases infos.len() - at,
{
    if at >= infos.len() {
        with_list(contact_list(contacts, known))
    } else if derivation_index(infos[at]) is Some {
        LoadModel::Keys { contacts, infos, at, known }
    } else {
        at_next_info(contacts, infos, at + 1, known)
    }
}

/// A page step as a query reply calls for it.
pub open spec fn page_step(
    pages: PagesModel<Document>,
    reply: ReplyModel,
) -> PageStepModel<Document> {
    match reply {
        ReplyModel::NotBuilt(e) => PageStepModel::Failed("Failed to create query: "@ + e),
        ReplyModel::Failed(e) => after_answer(pages, Err(e)),
        ReplyModel::Page(page) => after_answer(pages, Ok(page)),
    }
}

/// The first document of a reply, where it has one.
pub open spec fn first_document(reply: ReplyModel) -> Option<Document> {
    match reply {
        ReplyModel::Page(page) => if page.len() > 0 {
            page[0].1
        } else {
            None
        },
        _ => None,
    }
}

/// The paginated fetch that a load waits for, if it waits for one.
pub open spec fn fetch_of(load: LoadModel) -> Option<PagesModel<Document>> {
    match load {
        LoadModel::Outgoing { identity_id, pages } => Some(pages),
        LoadModel::Incoming { identity_id, sent_to, pages } => Some(pages),
        LoadModel::Infos { contacts, pages } => Some(pages),
        _ => None,
    }
}

/// The load with its fetch at these pages.
pub open spec fn with_pages(load: LoadModel, pages: PagesModel<Document>) -> LoadModel {
    match load {
        LoadModel::Outgoing { identity_id, pages: _ } => LoadModel::Outgoing { identity_id, pages },
        LoadModel::Incoming { identity_id, sent_to, pages: _ } => LoadModel::Incoming {
            identity_id,
            sent_to,
            pages,
        },
        LoadModel::Infos { contacts, pages: _ } => LoadModel::Infos { contacts, pages },
        _ => load,
    }
}

/// The load once its fetch came to these documents.
pub open spec fn after_fetch(load: LoadModel, fetched: Seq<(Identifier, Document)>) -> LoadModel {
    match load {
        LoadModel::Outgoing { identity_id, pages } => LoadModel::Incoming {
            identity_id,
            sent_to: recipients(fetched),
            pages: fresh_pages(incoming_requests(identity_id), "incoming contact requests"@),
        },
        LoadModel::Incoming { identity_id, sent_to, pages } => LoadModel::Infos {
            contacts: mutual_contacts(owners(fetched), sent_to),
            pages: fresh_pages(contact_infos(identity_id), "contact info"@),
        },
        LoadModel::Infos { contacts, pages } => at_next_info(contacts, fetched, 0, seq![]),
        _ => load,
    }
}

/// The load after a query was answered. Profiles and names that cannot be fetched are left out.
pub open spec fn after_reply(load: LoadModel, reply: ReplyModel) -> LoadModel {
    match load {
        LoadModel::Outgoing { .. } | LoadModel::Incoming { .. } | LoadModel::Infos { .. } =>
        match page_step(fetch_of(load)->0, reply) {
            PageStepModel::More(pages) => with_pages(load, pages),
            PageStepModel::Finished(fetched) => after_fetch(load, fetched),
            PageStepModel::Failed(message) => LoadModel::Failed(message),
        },
        LoadModel::Profile { list, at } => match reply {
            ReplyModel::NotBuilt(e) => LoadModel::Failed("Failed to create profile query: "@ + e),
            _ => LoadModel::Name {
                list: match first_document(reply) {
                    Some(doc) => with_profile_of(list, list[at].identity_id, doc),
                    None => list,
                },
                at,
            },
        },
        LoadModel::Name { list, at } => match reply {
            ReplyModel::NotBuilt(e) => LoadModel::Failed("Failed to create DPNS query: "@ + e),
            _ => {
                let named = match first_document(reply) {
                    Some(doc) => with_name_of(list, list[at].identity_id, doc),
                    None => list,
                };
                if at + 1 < list.len() {
                    LoadModel::Profile { list: named, at: at + 1 }
                } else {
                    LoadModel::Finished(named)
                }
            },
        },
        _ => load,
    }
}

/// What is known after a document was read, given the keys that were derived for it. A document
/// whose keys could not be derived, or that cannot be decrypted with them, is passed over.
pub open spec fn known_after(
    known: Seq<ContactModel>,
    info: (Identifier, Document),
    keys: Option<(Seq<u8>, Seq<u8>)>,
) -> Seq<ContactModel> {
    match keys {
        Some(keys) => match contact_info(info.1, keys.0, keys.1) {
            Some(contact) => known.push(contact),
            None => known,
        },
        None => known,
    }
}

/// The load after keys were derived.
pub open spec fn after_keys(load: LoadModel, keys: Option<(Seq<u8>, Seq<u8>)>) -> LoadModel {
    match load {
        LoadModel::Keys { contacts, infos, at, known } => at_next_info(
            contacts,
            infos,
            at + 1,
            known_after(known, infos[at], keys),
        ),
        _ => load,
    }
}

/// Waits for the answer to a query.
fn wait_for(stage: QueryStage) -> (r: LoadStep)
    requires
        stage.asks_for_its_contact(),
    ensures
        r.well_formed(),
        r@ == stage.model(),
{
    LoadStep::Query(ContactsQuery { stage })
}

/// Begins to load the contacts of an identity.
pub fn load_contacts(identity_id: Identifier) -> (r: LoadStep)
    ensures
        r.well_formed(),
        r@ == fresh_load(identity_id@),
{
    wait_for(
        QueryStage::Outgoing {
            identity_id,
            pages: Pagination::begin(
                outgoing_requests_query(identity_id),
                "outgoing contact requests",
            ),
        },
    )
}

/// Feeds a query reply to a paginated fetch.
fn feed_pages(pages: Pagination<Document>, reply: QueryReply) -> (r: PageStep<Document>)
    ensures
        r@ == page_step(pages@, reply@),
{
    match reply {
        QueryReply::NotBuilt(e) => PageStep::Failed(
            "Failed to create query: ".to_owned().concat(e.as_str()),
        ),
        QueryReply::Failed(e) => pages.resume(Err(e)),
        QueryReply::Page(page) => pages.resume(Ok(page)),
    }
}

/// Takes the first document out of a reply.
fn take_first(reply: QueryReply) -> (r: Option<Document>)
    ensures
        r == first_document(reply@),
{
    match reply {
        QueryReply::Page(page) => {
            let mut page = page;
            if page.len() > 0 {
                let (_, doc) = page.swap_remove(0);
                doc
            } else {
                None
            }
        },
        _ => None,
    }
}

/// Goes on once the contact list stands.
fn go_on_with_list(list: Vec<ContactData>) -> (r: LoadStep)
    ensures
        r.well_formed(),
        r@ == with_list(contact_models(list@)),
{
    if list.len() == 0 {
        return LoadStep::Done(Ok(BackendTaskSuccessResult::DashPayContactsWithInfo(list)));
    }
    let query = profile_query(list[0].identity_id);
    wait_for(QueryStage::Profile { list, at: 0, query })
}

/// Goes on at the first document from `at` on that names a derivation index.
fn go_on_with_infos(
    contacts: Vec<Identifier>,
    infos: Vec<(Identifier, Document)>,
    at: usize,
    known: Vec<ContactData>,
) -> (r: LoadStep)
    requires
        at <= infos@.len(),
    ensures
        r.well_formed(),
        r@ == at_next_info(contacts@, infos@, at as int, contact_models(known@)),
{
    let mut i: usize = at;
    while i < infos.len()
        invariant
            at <= i <= infos@.len(),
            at_next_info(contacts@, infos@, at as int, contact_models(known@)) == at_next_info(
                contacts@,
                infos@,
                i as int,
                contact_models(known@),
            ),
        decreases infos@.len() - i,
    {
        if let Some(derivation_index) = infos[i].1.get_u32("derivationEncryptionKeyIndex") {
            return LoadStep::DeriveKeys(
                ContactsKeys { contacts, infos, at: i, derivation_index, known },
            );
        }
        i = i + 1;
    }
    go_on_with_list(make_contact_list(&contacts, &known))
}

impl ContactsQuery {
    /// The query to run.
    pub fn query(&self) -> (r: &DocumentQuery)
        ensures
            r@ == self@.query(),
    {
        proof {
            use_type_invariant(self);
        }
        match &self.stage {
            QueryStage::Outgoing { identity_id, pages } => pages.query(),
            QueryStage::Incoming { identity_id, sent_to, pages } => pages.query(),
            QueryStage::Infos { contacts, pages } => pages.query(),
            QueryStage::Profile { list, at, query } => query,
            QueryStage::Name { list, at, query } => query,
        }
    }

    /// Goes on after the query was answered.
    pub fn resume(self, reply: QueryReply) -> (r: LoadStep)
        ensures
            r.well_formed(),
            r@ == after_reply(self@, reply@),
    {
        proof {
            use_type_invariant(&self);
        }
        match self.stage {
            QueryStage::Outgoing { identity_id, pages } => match feed_pages(pages, reply) {
                PageStep::More(pages) => wait_for(
                    QueryStage::Outgoing { identity_id, pages },
                ),
                PageStep::Finished(requests) => wait_for(
                    QueryStage::Incoming {
                        identity_id,
                        sent_to: request_recipients(&requests),
                        pages: Pagination::begin(
                            incoming_requests_query(identity_id),
                            "incoming contact requests",
                        ),
                    },
                ),
                PageStep::Failed(message) => LoadStep::Done(Err(message)),
            },
            QueryStage::Incoming { identity_id, sent_to, pages } => match feed_pages(
                pages,
                reply,
            ) {
                PageStep::More(pages) => wait_for(
                    QueryStage::Incoming { identity_id, sent_to, pages },
                ),
                PageStep::Finished(requests) => wait_for(
                    QueryStage::Infos {
                        contacts: find_mutual_contacts(request_owners(&requests), sent_to),
                        pages: Pagination::begin(contact_infos_query(identity_id), "contact info"),
                    },
                ),
                PageStep::Failed(message) => LoadStep::Done(Err(message)),
            },
            QueryStage::Infos { contacts, pages } => match feed_pages(pages, reply) {
                PageStep::More(pages) => wait_for(QueryStage::Infos { contacts, pages }),
                PageStep::Finished(infos) => {
                    let known: Vec<ContactData> = Vec::new();
                    assert(contact_models(known@) =~= seq![]);
                    go_on_with_infos(contacts, infos, 0, known)
                },
                PageStep::Failed(message) => LoadStep::Done(Err(message)),
            },
            QueryStage::Profile { list, at, query } => {
                if let QueryReply::NotBuilt(e) = &reply {
                    return LoadStep::Done(
                        Err("Failed to create profile query: ".to_owned().concat(e.as_str())),
                    );
                }
                let mut list = list;
                let id = list[at].identity_id;
                let ghost before = contact_models(list@);
                assert(before[at as int].identity_id == id@);
                if let Some(profile) = take_first(reply) {
                    apply_profile(&mut list, &id, &profile);
                    proof {
                        lemma_profile_keeps_ids(before, id@, profile);
                        assert(contact_models(list@)[at as int].identity_id == id@);
                    }
                }
                wait_for(QueryStage::Name { list, at, query: name_query(id) })
            },
            QueryStage::Name { list, at, query } => {
                if let QueryReply::NotBuilt(e) = &reply {
                    return LoadStep::Done(
                        Err("Failed to create DPNS query: ".to_owned().concat(e.as_str())),
                    );
                }
                let mut list = list;
                let id = list[at].identity_id;
                let ghost before = contact_models(list@);
                assert(before[at as int].identity_id == id@);
                if let Some(domain) = take_first(reply) {
                    apply_name(&mut list, &id, &domain);
                    proof {
                        lemma_name_keeps_ids(before, id@, domain);
                    }
                }
                let count: usize = list.len();
                assert(at < count);
                let next: usize = at + 1;
                if next < count {
                    let query = profile_query(list[next].identity_id);
                    wait_for(QueryStage::Profile { list, at: next, query })
                } else {
                    LoadStep::Done(Ok(BackendTaskSuccessResult::DashPayContactsWithInfo(list)))
                }
            },
        }
    }
}

impl ContactsKeys {
    /// The index to derive the keys for: the one that the document names.
    pub fn derivation_index(&self) -> (r: u32)
        ensures
            self@ matches LoadModel::Keys { contacts, infos, at, known } && 0 <= at < infos.len()
                && derivation_index(infos[at]) == Some(r),
    {
        proof {
            use_type_invariant(self);
        }
        self.derivation_index
    }

    /// Goes on after the keys were derived, or could not be: the key of the contact's identifier
    /// and the key of the private data.
    pub fn resume(self, keys: Result<([u8; 32], [u8; 32]), String>) -> (r: LoadStep)
        ensures
            r.well_formed(),
            r@ == after_keys(
                self@,
                match keys {
                    Ok(keys) => Some((keys.0@, keys.1@)),
                    Err(_) => None,
                },
            ),
    {
        proof {
            use_type_invariant(&self);
        }
        let count: usize = self.infos.len();
        assert(self.at < count);
        let mut known = self.known;
        let ghost before = contact_models(known@);
        if let Ok((user_id_key, private_data_key)) = keys {
            if let Some(contact) = read_contact_info(
                &self.infos[self.at].1,
                &user_id_key,
                &private_data_key,
            ) {
                known.push(contact);
                assert(contact_models(known@) =~= before.push(contact@));
            }
        }
        go_on_with_infos(self.contacts, self.infos, self.at + 1, known)
    }
}

/// The identifiers of a list of contacts.
pub open spec fn ids_of(list: Seq<ContactModel>) -> Seq<Seq<u8>> {
    list.map_values(|c: ContactModel| c.identity_id)
}

/// A profile changes no identifier.
pub proof fn lemma_profile_keeps_ids(list: Seq<ContactModel>, id: Seq<u8>, profile: Document)
    ensures
        ids_of(with_profile_of(list, id, profile)) == ids_of(list),
        with_profile_of(list, id, profile).len() == list.len(),
        forall|i: int|
            0 <= i < list.len() ==> (#[trigger] with_profile_of(
                list,
                id,
                profile,
            )[i]).identity_id == list[i].identity_id,
{
    assert(ids_of(with_profile_of(list, id, profile)) =~= ids_of(list));
}

/// A registered name changes no identifier.
pub proof fn lemma_name_keeps_ids(list: Seq<ContactModel>, id: Seq<u8>, domain: Document)
    ensures
        ids_of(with_name_of(list, id, domain)) == ids_of(list),
        with_name_of(list, id, domain).len() == list.len(),
{
    assert(ids_of(with_name_of(list, id, domain)) =~= ids_of(list));
}

/// The answers that a load meets on its way.
pub struct Answers {
    pub outgoing: Seq<Seq<(Identifier, Option<Document>)>>,
    pub incoming: Seq<Seq<(Identifier, Option<Document>)>>,
    pub infos: Seq<Seq<(Identifier, Option<Document>)>>,
    /// The keys that are derived for the contact-info document at a place, if they can be.
    pub keys: spec_fn(int) -> Option<(Seq<u8>, Seq<u8>)>,
    /// The answer to the profile query of an identity.
    pub profile: spec_fn(Seq<u8>) -> ReplyModel,
    /// The answer to the name query of an identity.
    pub name: spec_fn(Seq<u8>) -> ReplyModel,
}

impl Answers {
    /// Whether the paginated queries are answered to their end, and every query can be built.
    pub open spec fn well_formed(self) -> bool {
        &&& complete(self.outgoing)
        &&& complete(self.incoming)
        &&& complete(self.infos)
        &&& forall|id: Seq<u8>| !(#[trigger] (self.profile)(id) is NotBuilt)
        &&& forall|id: Seq<u8>| !(#[trigger] (self.name)(id) is NotBuilt)
    }
}

/// The load after pages came in one by one.
pub open spec fn after_pages(
    load: LoadModel,
    pages: Seq<Seq<(Identifier, Option<Document>)>>,
) -> LoadModel
    decreases pages.len(),
{
    if pages.len() == 0 {
        load
    } else {
        after_pages(after_reply(load, ReplyModel::Page(pages[0])), pages.skip(1))
    }
}

/// The number of contact-info documents that are still to be read.
pub open spec fn infos_left(load: LoadModel) -> int {
    match load {
        LoadModel::Keys { contacts, infos, at, known } => infos.len() - at,
        _ => 0,
    }
}

/// The load only ever moves on to a later document.
pub proof fn lemma_at_next_info(
    contacts: Seq<Identifier>,
    infos: Seq<(Identifier, Document)>,
    at: int,
    known: Seq<ContactModel>,
)
    requires
        at >= 0,
    ensures
        at < infos.len() ==> 0 <= infos_left(at_next_info(contacts, infos, at, known))
            <= infos.len() - at,
        at >= infos.len() ==> infos_left(at_next_info(contacts, infos, at, known)) == 0,
    decreases infos.len() - at,
{
    if at < infos.len() && derivation_index(infos[at]) is None {
        lemma_at_next_info(contacts, infos, at + 1, known);
    }
}

/// The load after all keys were derived.
pub open spec fn after_all_keys(
    load: LoadModel,
    keys: spec_fn(int) -> Option<(Seq<u8>, Seq<u8>)>,
) -> LoadModel
    decreases infos_left(load),
{
    match load {
        LoadModel::Keys { contacts, infos, at, known } => if 0 <= at < infos.len() {
            proof {
                lemma_at_next_info(contacts, infos, at + 1, known_after(known, infos[at], keys(at)));
            }
            after_all_keys(after_keys(load, keys(at)), keys)
        } else {
            load
        },
        _ => load,
    }
}

/// What the first `n` contact-info documents say, in their order, as far as they name a derivation
/// index and can be read.
pub open spec fn readable_infos(
    infos: Seq<(Identifier, Document)>,
    keys: spec_fn(int) -> Option<(Seq<u8>, Seq<u8>)>,
    n: int,
) -> Seq<ContactModel>
    decreases n,
{
    if n <= 0 {
        seq![]
    } else {
        let before = readable_infos(infos, keys, n - 1);
        if derivation_index(infos[n - 1]) is Some {
            known_after(before, infos[n - 1], keys(n - 1))
        } else {
            before
        }
    }
}

/// The number of queries about single contacts that are still to be run.
pub open spec fn lookups_left(load: LoadModel) -> int {
    match load {
        LoadModel::Profile { list, at } => 2 * (list.len() - at),
        LoadModel::Name { list, at } => 2 * (list.len() - at) - 1,
        _ => 0,
    }
}

/// The load after every contact was looked up.
pub open spec fn after_lookups(
    load: LoadModel,
    profile: spec_fn(Seq<u8>) -> ReplyModel,
    name: spec_fn(Seq<u8>) -> ReplyModel,
) -> LoadModel
    decreases lookups_left(load),
{
    match load {
        LoadModel::Profile { list, at } => if 0 <= at < list.len() {
            let reply = profile(list[at].identity_id);
            proof {
                if let Some(doc) = first_document(reply) {
                    lemma_profile_keeps_ids(list, list[at].identity_id, doc);
                }
            }
            after_lookups(after_reply(load, reply), profile, name)
        } else {
            load
        },
        LoadModel::Name { list, at } => if 0 <= at < list.len() {
            let reply = name(list[at].identity_id);
            proof {
                if let Some(doc) = first_document(reply) {
                    lemma_name_keeps_ids(list, list[at].identity_id, doc);
                }
            }
            after_lookups(after_reply(load, reply), profile, name)
        } else {
            load
        },
        _ => load,
    }
}

/// A contact with what its profile and its registered name say, where there are such.
pub open spec fn enriched(
    contact: ContactModel,
    profile: spec_fn(Seq<u8>) -> ReplyModel,
    name: spec_fn(Seq<u8>) -> ReplyModel,
) -> ContactModel {
    let profiled = match first_document(profile(contact.identity_id)) {
        Some(doc) => with_profile(contact, doc),
        None => contact,
    };
    match first_document(name(contact.identity_id)) {
        Some(doc) => with_name(profiled, doc),
        None => profiled,
    }
}

/// What a load comes to.
pub open spec fn loaded(identity_id: Seq<u8>, answers: Answers) -> LoadModel {
    let requests = after_pages(
        after_pages(fresh_load(identity_id), answers.outgoing),
        answers.incoming,
    );
    after_lookups(
        after_all_keys(after_pages(requests, answers.infos), answers.keys),
        answers.profile,
        answers.name,
    )
}

/// The contacts that the requests make.
pub open spec fn contacts_of(answers: Answers) -> Seq<Identifier> {
    mutual_contacts(
        owners(all_present(answers.incoming)),
        recipients(all_present(answers.outgoing)),
    )
}

/// What the contact-info documents say, as far as they can be read.
pub open spec fn notes_of(answers: Answers) -> Seq<ContactModel> {
    let infos = all_present(answers.infos);
    readable_infos(infos, answers.keys, infos.len() as int)
}

/// A fetch that is answered to its end comes to the documents of all its pages.
proof fn lemma_fetched(load: LoadModel, answers: Seq<Seq<(Identifier, Option<Document>)>>)
    requires
        fetch_of(load) is Some,
        complete(answers),
    ensures
        after_pages(load, answers) == after_fetch(
            load,
            fetch_of(load)->0.all + all_present(answers),
        ),
    decreases answers.len(),
{
    lemma_complete_rest(answers);
    let pages = fetch_of(load)->0;
    let next = after_reply(load, ReplyModel::Page(answers[0]));
    let rest = answers.skip(1);
    assert(after_pages(load, answers) == after_pages(next, rest));
    if let PageStepModel::More(more) = after_page(pages, answers[0]) {
        lemma_fetched(next, rest);
        assert(more.all + all_present(rest) =~= pages.all + all_present(answers));
    } else {
        assert(after_pages(next, rest) == next);
    }
}

proof fn lemma_all_keys(
    contacts: Seq<Identifier>,
    infos: Seq<(Identifier, Document)>,
    at: int,
    keys: spec_fn(int) -> Option<(Seq<u8>, Seq<u8>)>,
)
    requires
        0 <= at <= infos.len(),
    ensures
        after_all_keys(
            at_next_info(contacts, infos, at, readable_infos(infos, keys, at)),
            keys,
        ) == with_list(
            contact_list(contacts, readable_infos(infos, keys, infos.len() as int)),
        ),
    decreases infos.len() - at,
{
    if at < infos.len() {
        lemma_all_keys(contacts, infos, at + 1, keys);
        let load = at_next_info(contacts, infos, at, readable_infos(infos, keys, at));
        if derivation_index(infos[at]) is Some {
            assert(after_all_keys(load, keys) == after_all_keys(after_keys(load, keys(at)), keys));
        }
    }
}

proof fn lemma_lookups(
    list: Seq<ContactModel>,
    at: int,
    profile: spec_fn(Seq<u8>) -> ReplyModel,
    name: spec_fn(Seq<u8>) -> ReplyModel,
)
    requires
        0 <= at < list.len(),
        ids_of(list).no_duplicates(),
        forall|id: Seq<u8>| !(#[trigger] profile(id) is NotBuilt),
        forall|id: Seq<u8>| !(#[trigger] name(id) is NotBuilt),
    ensures
        after_lookups(LoadModel::Profile { list, at }, profile, name) == LoadModel::Finished(
            list.take(at) + list.skip(at).map_values(
                |c: ContactModel| enriched(c, profile, name),
            ),
        ),
    decreases list.len() - at,
{
    let id = list[at].identity_id;
    let load = LoadModel::Profile { list, at };
    let profiled = match first_document(profile(id)) {
        Some(doc) => with_profile_of(list, id, doc),
        None => list,
    };
    assert(ids_of(list)[at] == id);
    assert forall|j: int| 0 <= j < at implies (#[trigger] list[j]).identity_id != id by {
        assert(ids_of(list)[j] == list[j].identity_id);
    }
    assert(stands_at(list, id, at));
    if let Some(doc) = first_document(profile(id)) {
        lemma_replaced_at(list, id, |c: ContactModel| with_profile(c, doc), at);
        lemma_profile_keeps_ids(list, id, doc);
    }
    assert(ids_of(profiled) == ids_of(list));
    let middle = LoadModel::Name { list: profiled, at };
    assert(after_reply(load, profile(id)) == middle);
    assert(profiled[at].identity_id == id);
    assert forall|j: int| 0 <= j < at implies (#[trigger] profiled[j]).identity_id != id by {
        assert(ids_of(profiled)[j] == profiled[j].identity_id);
        assert(ids_of(list)[j] == list[j].identity_id);
    }
    assert(stands_at(profiled, id, at));
    let named = match first_document(name(id)) {
        Some(doc) => with_name_of(profiled, id, doc),
        None => profiled,
    };
    if let Some(doc) = first_document(name(id)) {
        lemma_replaced_at(profiled, id, |c: ContactModel| with_name(c, doc), at);
        lemma_name_keeps_ids(profiled, id, doc);
    }
    assert(ids_of(named) == ids_of(list));
    assert(named =~= list.update(at, enriched(list[at], profile, name)));
    let rich = |c: ContactModel| enriched(c, profile, name);
    let last = after_reply(middle, name(id));
    assert(after_lookups(load, profile, name) == after_lookups(middle, profile, name));
    assert(after_lookups(middle, profile, name) == after_lookups(last, profile, name));
    if at + 1 < list.len() {
        assert(last == LoadModel::Profile { list: named, at: at + 1 });
        lemma_lookups(named, at + 1, profile, name);
        assert(named.take(at + 1) + named.skip(at + 1).map_values(rich) =~= list.take(at)
            + list.skip(at).map_values(rich));
    } else {
        assert(last == LoadModel::Finished(named));
        assert(named =~= list.take(at) + list.skip(at).map_values(rich));
    }
}

/// The contacts in a list are those that it was made of.
proof fn lemma_list_ids(contacts: Seq<Identifier>, infos: Seq<ContactModel>)
    ensures
        ids_of(contact_list(contacts, infos)) == contacts.map_values(|id: Identifier| id@),
{
    let list = contact_list(contacts, infos);
    assert forall|i: int| 0 <= i < contacts.len() implies list[i].identity_id == (#[trigger]
    contacts[i])@ by {
        lemma_latest_id(infos, contacts[i]@);
    }
    assert(ids_of(list) =~= contacts.map_values(|id: Identifier| id@));
}

/// What was last noted about an identity is about that identity.
proof fn lemma_latest_id(infos: Seq<ContactModel>, id: Seq<u8>)
    ensures
        latest(infos, id) matches Some(contact) ==> contact.identity_id == id,
    decreases infos.len(),
{
    if infos.len() > 0 {
        lemma_latest_id(infos.drop_last(), id);
    }
}

/// A load whose queries are answered ends with the mutual contacts, in their order. Each has
/// what was last noted about it in a document that could be read, what its profile publishes,
/// and its registered name.
pub proof fn law_load_gives_the_contacts(identity_id: Seq<u8>, answers: Answers)
    requires
        answers.well_formed(),
    ensures
        loaded(identity_id, answers) == LoadModel::Finished(
            contact_list(
                contacts_of(answers),
                notes_of(answers),
            ).map_values(|c: ContactModel| enriched(c, answers.profile, answers.name)),
        ),
        ids_of(
            contact_list(
                contacts_of(answers),
                notes_of(answers),
            ).map_values(|c: ContactModel| enriched(c, answers.profile, answers.name)),
        ) == contacts_of(answers).map_values(|id: Identifier| id@),
{
    let rich = |c: ContactModel| enriched(c, answers.profile, answers.name);
    let out = all_present(answers.outgoing);
    let inc = all_present(answers.incoming);
    let infos = all_present(answers.infos);
    let none: Seq<(Identifier, Document)> = seq![];
    assert(none + out =~= out);
    assert(none + inc =~= inc);
    assert(none + infos =~= infos);
    let contacts = contacts_of(answers);
    let first = fresh_load(identity_id);
    let second = after_pages(first, answers.outgoing);
    let third = after_pages(second, answers.incoming);
    lemma_fetched(first, answers.outgoing);
    lemma_fetched(second, answers.incoming);
    lemma_fetched(third, answers.infos);
    let known = notes_of(answers);
    lemma_all_keys(contacts, infos, 0, answers.keys);
    let list = contact_list(contacts, known);
    lemma_list_ids(contacts, known);
    assert(ids_of(list.map_values(rich)) =~= ids_of(list));
    law_mutual_contacts(owners(inc), recipients(out));
    assert(ids_of(list).no_duplicates()) by {
        assert forall|i: int, j: int|
            0 <= i < ids_of(list).len() && 0 <= j < ids_of(list).len() && i != j implies ids_of(
            list,
        )[i] != ids_of(list)[j] by {
            assert(contacts[i] != contacts[j]);
            if contacts[i]@ == contacts[j]@ {
                lemma_array_ext(contacts[i].bytes, contacts[j].bytes);
            }
        }
    }
    if list.len() == 0 {
        assert(list.map_values(rich) =~= list);
    } else {
        lemma_lookups(list, 0, answers.profile, answers.name);
        assert(list.take(0) + list.skip(0).map_values(rich) =~= list.map_values(rich));
    }
}

/// Whether pages are all full, so that another one follows.
pub open spec fn all_full(pages: Seq<Seq<(Identifier, Option<Document>)>>) -> bool {
    forall|i: int|
        0 <= i < pages.len() ==> (#[trigger] pages[i]).len() >= DASHPAY_QUERY_PAGE_SIZE
}

/// What a paginated fetch that got no page is answered with.
pub open spec fn fetch_failure(context: Seq<char>, reply: ReplyModel) -> LoadModel {
    match reply {
        ReplyModel::NotBuilt(e) => LoadModel::Failed("Failed to create query: "@ + e),
        ReplyModel::Failed(e) => LoadModel::Failed("Error fetching "@ + context + ": "@ + e),
        ReplyModel::Page(_) => arbitrary(),
    }
}

/// Behind full pages a fetch still waits for a page, and a reply that is none ends the load.
proof fn lemma_failed_fetch(
    load: LoadModel,
    full: Seq<Seq<(Identifier, Option<Document>)>>,
    reply: ReplyModel,
)
    requires
        fetch_of(load) is Some,
        all_full(full),
        !(reply is Page),
    ensures
        after_reply(after_pages(load, full), reply) == fetch_failure(fetch_of(load)->0.context, reply),
    decreases full.len(),
{
    if full.len() > 0 {
        let rest = full.skip(1);
        let next = after_reply(load, ReplyModel::Page(full[0]));
        assert(full[0].len() >= DASHPAY_QUERY_PAGE_SIZE);
        assert forall|i: int| 0 <= i < rest.len() implies (#[trigger] rest[i]).len()
            >= DASHPAY_QUERY_PAGE_SIZE by {
            assert(rest[i] == full[i + 1]);
        }
        assert(fetch_of(next)->0.context == fetch_of(load)->0.context);
        lemma_failed_fetch(next, rest, reply);
    }
}

/// The first paginated fetch that fails ends the load with its error: of the requests that were
/// sent, then of those that were received, then of the notes, after any number of full pages. What
/// comes after does not change that.
pub proof fn law_first_failed_fetch_ends_the_load(
    identity_id: Seq<u8>,
    outgoing: Seq<Seq<(Identifier, Option<Document>)>>,
    incoming: Seq<Seq<(Identifier, Option<Document>)>>,
    full: Seq<Seq<(Identifier, Option<Document>)>>,
    reply: ReplyModel,
    later: ReplyModel,
)
    requires
        complete(outgoing),
        complete(incoming),
        all_full(full),
        !(reply is Page),
    ensures
        after_reply(after_pages(fresh_load(identity_id), full), reply) == fetch_failure(
            "outgoing contact requests"@,
            reply,
        ),
        after_reply(
            after_pages(after_pages(fresh_load(identity_id), outgoing), full),
            reply,
        ) == fetch_failure("incoming contact requests"@, reply),
        after_reply(
            after_pages(
                after_pages(after_pages(fresh_load(identity_id), outgoing), incoming),
                full,
            ),
            reply,
        ) == fetch_failure("contact info"@, reply),
        forall|message: Seq<char>|
            #[trigger] after_reply(LoadModel::Failed(message), later) == LoadModel::Failed(message),
{
    let second = after_pages(fresh_load(identity_id), outgoing);
    lemma_failed_fetch(fresh_load(identity_id), full, reply);
    lemma_fetched(fresh_load(identity_id), outgoing);
    lemma_failed_fetch(second, full, reply);
    lemma_fetched(second, incoming);
    lemma_failed_fetch(after_pages(second, incoming), full, reply);
}

/// Once the notes were fetched, a load fails only where a profile or name query cannot be built:
/// neither keys that cannot be derived nor queries that cannot be answered end it.
pub proof fn law_lookups_do_not_fail(
    load: LoadModel,
    keys: Option<(Seq<u8>, Seq<u8>)>,
    reply: ReplyModel,
)
    ensures
        load is Keys ==> !(after_keys(load, keys) is Failed),
        load is Profile || load is Name ==> (after_reply(load, reply) is Failed
            <==> reply is NotBuilt),
{
    if let LoadModel::Keys { contacts, infos, at, known } = load {
        let read = known_after(known, infos[at], keys);
        lemma_no_failure_among_infos(contacts, infos, at + 1, read);
    }
}

proof fn lemma_no_failure_among_infos(
    contacts: Seq<Identifier>,
    infos: Seq<(Identifier, Document)>,
    at: int,
    known: Seq<ContactModel>,
)
    ensures
        !(at_next_info(contacts, infos, at, known) is Failed),
    decreases infos.len() - at,
{
    if at < infos.len() && derivation_index(infos[at]) is None {
        lemma_no_failure_among_infos(contacts, infos, at + 1, known);
    }
}

/// A contact-info document names a derivation index exactly where it holds a 32-bit number under
/// `derivationEncryptionKeyIndex`, and that number is the index.
pub proof fn law_derivation_index_is_stored(info: (Identifier, Document), n: u32)
    ensures
        derivation_index(info) == Some(n) <==> property(
            info.1.properties@,
            "derivationEncryptionKeyIndex"@,
        ) == Some(Value::U32(n)),
{
}

/// Whether the contact-info document at `n` names a derivation index, has keys, and tells with
/// them of the identity.
pub open spec fn tells_of(
    infos: Seq<(Identifier, Document)>,
    keys: spec_fn(int) -> Option<(Seq<u8>, Seq<u8>)>,
    n: int,
    id: Seq<u8>,
) -> bool {
    &&& property(infos[n].1.properties@, "derivationEncryptionKeyIndex"@) matches Some(
        Value::U32(_),
    )
    &&& keys(n) is Some
    &&& contact_info(infos[n].1, (keys(n)->0).0, (keys(n)->0).1) is Some
    &&& contact_info(infos[n].1, (keys(n)->0).0, (keys(n)->0).1)->0.identity_id == id
}

/// What the last document about an identity tells is what is known of it.
proof fn lemma_last_document_counts(
    infos: Seq<(Identifier, Document)>,
    keys: spec_fn(int) -> Option<(Seq<u8>, Seq<u8>)>,
    n: int,
    id: Seq<u8>,
    k: int,
)
    requires
        0 <= k < n,
        tells_of(infos, keys, k, id),
        forall|j: int| k < j < n ==> !tells_of(infos, keys, j, id),
    ensures
        latest(readable_infos(infos, keys, n), id) == contact_info(
            infos[k].1,
            (keys(k)->0).0,
            (keys(k)->0).1,
        ),
    decreases n,
{
    let before = readable_infos(infos, keys, n - 1);
    let all = readable_infos(infos, keys, n);
    if k < n - 1 {
        lemma_last_document_counts(infos, keys, n - 1, id, k);
        assert(!tells_of(infos, keys, n - 1, id));
    }
    if all.len() > before.len() {
        assert(all.drop_last() =~= before);
    }
}

/// Nothing is known of an identity that no document tells of.
proof fn lemma_no_document_tells(
    infos: Seq<(Identifier, Document)>,
    keys: spec_fn(int) -> Option<(Seq<u8>, Seq<u8>)>,
    n: int,
    id: Seq<u8>,
)
    requires
        forall|j: int| 0 <= j < n ==> !tells_of(infos, keys, j, id),
    ensures
        latest(readable_infos(infos, keys, n), id) is None,
    decreases n,
{
    if n > 0 {
        let before = readable_infos(infos, keys, n - 1);
        let all = readable_infos(infos, keys, n);
        lemma_no_document_tells(infos, keys, n - 1, id);
        assert(!tells_of(infos, keys, n - 1, id));
        if all.len() > before.len() {
            assert(all.drop_last() =~= before);
        }
    }
}

/// A document that a page of the answers lists.
pub open spec fn is_listed(
    pages: Seq<Seq<(Identifier, Option<Document>)>>,
    id: Identifier,
    doc: Document,
) -> bool {
    exists|p: int| 0 <= p < pages.len() && (#[trigger] pages[p]).contains((id, Some(doc)))
}

/// Whether an identity sent a request that the answers list.
pub open spec fn sent_a_request(
    incoming: Seq<Seq<(Identifier, Option<Document>)>>,
    id: Identifier,
) -> bool {
    exists|d: Identifier, doc: Document| #[trigger]
        is_listed(incoming, d, doc) && doc.owner_id == id
}

/// Whether an identity was sent a request that the answers list.
pub open spec fn was_sent_a_request(
    outgoing: Seq<Seq<(Identifier, Option<Document>)>>,
    id: Identifier,
) -> bool {
    exists|d: Identifier, doc: Document| #[trigger]
        is_listed(outgoing, d, doc) && property(doc.properties@, "toUserId"@) == Some(
            Value::Identifier(id.bytes),
        )
}

/// The contacts that the requests make are the identities that sent one and were sent one.
proof fn lemma_contacts_are_mutual(answers: Answers, id: Identifier)
    ensures
        contacts_of(answers).contains(id) <==> sent_a_request(answers.incoming, id)
            && was_sent_a_request(answers.outgoing, id),
        contacts_of(answers).no_duplicates(),
{
    let inc = all_present(answers.incoming);
    let out = all_present(answers.outgoing);
    law_mutual_contacts(owners(inc), recipients(out));
    law_recipients_are_named_in_requests(out);
    law_owners_are_those_of_the_requests(inc);
    law_all_present_are_the_listed(answers.incoming);
    law_all_present_are_the_listed(answers.outgoing);
    if owners(inc).contains(id) {
        let i = choose|i: int| 0 <= i < owners(inc).len() && owners(inc)[i] == id;
        assert(inc[i].1.owner_id == id);
        assert(inc.contains((inc[i].0, inc[i].1)));
        assert(is_listed(answers.incoming, inc[i].0, inc[i].1));
    }
    if sent_a_request(answers.incoming, id) {
        let (d, doc) = choose|d: Identifier, doc: Document| #[trigger]
            is_listed(answers.incoming, d, doc) && doc.owner_id == id;
        assert(inc.contains((d, doc)));
        let i = choose|i: int| 0 <= i < inc.len() && inc[i] == (d, doc);
        assert(owners(inc)[i] == id);
        assert(owners(inc).contains(id));
    }
    if recipients(out).contains(id) {
        let i = choose|i: int|
            0 <= i < out.len() && property((#[trigger] out[i]).1.properties@, "toUserId"@) == Some(
                Value::Identifier(id.bytes),
            );
        assert(out.contains((out[i].0, out[i].1)));
        assert(is_listed(answers.outgoing, out[i].0, out[i].1));
    }
    if was_sent_a_request(answers.outgoing, id) {
        let (d, doc) = choose|d: Identifier, doc: Document| #[trigger]
            is_listed(answers.outgoing, d, doc) && property(doc.properties@, "toUserId"@) == Some(
                Value::Identifier(id.bytes),
            );
        assert(out.contains((d, doc)));
        let i = choose|i: int| 0 <= i < out.len() && out[i] == (d, doc);
        assert(property(out[i].1.properties@, "toUserId"@) == Some(Value::Identifier(id.bytes)));
        assert(recipients(out).contains(id));
    }
}

/// Whether the first entry of an answered query holds this document.
pub open spec fn answers_with(reply: ReplyModel, doc: Document) -> bool {
    reply matches ReplyModel::Page(page) && page.len() > 0 && page[0].1 == Some(doc)
}

/// The list that a load ends with has each identity that sent a request and was sent one, once, and
/// no other. Of each contact it has the texts that the profile in the answer to its profile query
/// stores under `displayName`, `avatarUrl` and `bio`, and the text that the registration in the
/// answer to its name query stores under `label`, and none where there is no such document or text.
/// What is noted about it is what the last document that tells of it says, and nothing where none
/// does.
pub proof fn law_loaded_contacts_have_their_data(
    identity_id: Seq<u8>,
    answers: Answers,
    step: LoadStep,
)
    requires
        answers.well_formed(),
        step.well_formed(),
        step@ == loaded(identity_id, answers),
    ensures
        step matches LoadStep::Done(Ok(BackendTaskSuccessResult::DashPayContactsWithInfo(list)))
            && {
            let infos = all_present(answers.infos);
            &&& forall|i: int, j: int|
                0 <= i < list@.len() && 0 <= j < list@.len() && i != j ==> (
                #[trigger] list@[i]).identity_id != (#[trigger] list@[j]).identity_id
            &&& forall|id: Identifier|
                (exists|i: int| 0 <= i < list@.len() && (#[trigger] list@[i]).identity_id == id)
                    <==> #[trigger] sent_a_request(answers.incoming, id) && was_sent_a_request(
                    answers.outgoing,
                    id,
                )
            &&& forall|i: int, doc: Document|
                0 <= i < list@.len() && #[trigger] answers_with(
                    (answers.profile)(list@[i].identity_id@),
                    doc,
                ) ==> {
                    &&& match property(doc.properties@, "displayName"@) {
                        Some(Value::Text(text)) => list@[i].display_name is Some
                            && list@[i].display_name->0@ == text@,
                        _ => list@[i].display_name is None,
                    }
                    &&& match property(doc.properties@, "avatarUrl"@) {
                        Some(Value::Text(text)) => list@[i].avatar_url is Some
                            && list@[i].avatar_url->0@ == text@,
                        _ => list@[i].avatar_url is None,
                    }
                    &&& match property(doc.properties@, "bio"@) {
                        Some(Value::Text(text)) => list@[i].bio is Some && list@[i].bio->0@
                            == text@,
                        _ => list@[i].bio is None,
                    }
                }
            &&& forall|i: int|
                0 <= i < list@.len() && (forall|doc: Document|
                    !#[trigger] answers_with((answers.profile)(list@[i].identity_id@), doc)) ==> (
                #[trigger] list@[i]).display_name is None && list@[i].avatar_url is None
                    && list@[i].bio is None
            &&& forall|i: int, doc: Document|
                0 <= i < list@.len() && #[trigger] answers_with(
                    (answers.name)(list@[i].identity_id@),
                    doc,
                ) ==> match property(doc.properties@, "label"@) {
                    Some(Value::Text(text)) => list@[i].username is Some && list@[i].username->0@
                        == text@,
                    _ => list@[i].username is None,
                }
            &&& forall|i: int|
                0 <= i < list@.len() && (forall|doc: Document|
                    !#[trigger] answers_with((answers.name)(list@[i].identity_id@), doc)) ==> (
                #[trigger] list@[i]).username is None
            &&& forall|i: int, k: int|
                0 <= i < list@.len() && 0 <= k < infos.len() && #[trigger] tells_of(
                    infos,
                    answers.keys,
                    k,
                    list@[i].identity_id@,
                ) && (forall|j: int|
                    k < j < infos.len() ==> !#[trigger] tells_of(
                        infos,
                        answers.keys,
                        j,
                        list@[i].identity_id@,
                    )) ==> {
                    let told = contact_info(
                        infos[k].1,
                        ((answers.keys)(k)->0).0,
                        ((answers.keys)(k)->0).1,
                    )->0.noted;
                    &&& optional_text(list@[i].nickname) == told.nickname
                    &&& optional_text(list@[i].note) == told.note
                    &&& list@[i].is_hidden == told.is_hidden
                    &&& list@[i].account_reference == told.account_reference
                }
            &&& forall|i: int|
                0 <= i < list@.len() && (forall|j: int|
                    0 <= j < infos.len() ==> !#[trigger] tells_of(
                        infos,
                        answers.keys,
                        j,
                        list@[i].identity_id@,
                    )) ==> {
                    &&& (#[trigger] list@[i]).nickname is None
                    &&& list@[i].note is None
                    &&& !list@[i].is_hidden
                    &&& list@[i].account_reference == 0
                }
        },
{
    law_load_gives_the_contacts(identity_id, answers);
    let contacts = contacts_of(answers);
    let infos = all_present(answers.infos);
    let known = notes_of(answers);
    let rich = |c: ContactModel| enriched(c, answers.profile, answers.name);
    let models = contact_list(contacts, known).map_values(rich);
    assert(step@ == LoadModel::Finished(models));
    match step {
        LoadStep::Query(query) => {
            assert(!(query.stage.model() is Finished));
        },
        LoadStep::DeriveKeys(keys) => {},
        LoadStep::Done(_) => {},
    }
    let list = step->Done_0->Ok_0->DashPayContactsWithInfo_0@;
    assert(contact_models(list) == models);
    assert(list.len() == contacts.len()) by {
        assert(contact_models(list).len() == contacts.len());
    }
    assert forall|i: int| 0 <= i < list.len() implies (#[trigger] list[i])@ == enriched(
        contact_entry(known, contacts[i]),
        answers.profile,
        answers.name,
    ) && list[i].identity_id == contacts[i] by {
        assert(contact_models(list)[i] == models[i]);
        lemma_latest_id(known, contacts[i]@);
        lemma_array_ext(list[i].identity_id.bytes, contacts[i].bytes);
    }
    assert forall|i: int, j: int|
        0 <= i < list.len() && 0 <= j < list.len() && i != j implies (
    #[trigger] list[i]).identity_id != (#[trigger] list[j]).identity_id by {
        lemma_contacts_are_mutual(answers, contacts[i]);
    }
    assert forall|id: Identifier|
        (exists|i: int| 0 <= i < list.len() && (#[trigger] list[i]).identity_id == id)
            <==> #[trigger] sent_a_request(answers.incoming, id) && was_sent_a_request(
            answers.outgoing,
            id,
        ) by {
        lemma_contacts_are_mutual(answers, id);
        if contacts.contains(id) {
            let i = choose|i: int| 0 <= i < contacts.len() && contacts[i] == id;
            assert(list[i].identity_id == id);
        }
        if exists|i: int| 0 <= i < list.len() && (#[trigger] list[i]).identity_id == id {
            let i = choose|i: int| 0 <= i < list.len() && (#[trigger] list[i]).identity_id == id;
            assert(contacts[i] == id);
        }
    }
    assert forall|i: int| 0 <= i < list.len() implies {
        let entry = #[trigger] contact_entry(known, contacts[i]);
        entry.username is None && entry.display_name is None && entry.avatar_url is None
            && entry.bio is None
    } by {
        lemma_known_is_unpublished(infos, answers.keys, infos.len() as int, contacts[i]@);
    }
    assert forall|i: int|
        0 <= i < list.len() && (forall|doc: Document|
            !#[trigger] answers_with((answers.profile)(list[i].identity_id@), doc)) implies (
    #[trigger] list[i]).display_name is None && list[i].avatar_url is None
        && list[i].bio is None by {
        lemma_no_answer((answers.profile)(list[i].identity_id@));
        let entry = contact_entry(known, contacts[i]);
        assert(entry.identity_id == list[i].identity_id@);
    }
    assert forall|i: int|
        0 <= i < list.len() && (forall|doc: Document|
            !#[trigger] answers_with((answers.name)(list[i].identity_id@), doc)) implies (
    #[trigger] list[i]).username is None by {
        lemma_no_answer((answers.name)(list[i].identity_id@));
        let entry = contact_entry(known, contacts[i]);
        assert(entry.identity_id == list[i].identity_id@);
    }
    assert forall|i: int, k: int|
        0 <= i < list.len() && 0 <= k < infos.len() && #[trigger] tells_of(
            infos,
            answers.keys,
            k,
            list[i].identity_id@,
        ) && (forall|j: int|
            k < j < infos.len() ==> !#[trigger] tells_of(
                infos,
                answers.keys,
                j,
                list[i].identity_id@,
            )) implies list[i]@.noted == contact_info(
        infos[k].1,
        ((answers.keys)(k)->0).0,
        ((answers.keys)(k)->0).1,
    )->0.noted by {
        lemma_last_document_counts(
            infos,
            answers.keys,
            infos.len() as int,
            list[i].identity_id@,
            k,
        );
    }
    assert forall|i: int|
        0 <= i < list.len() && (forall|j: int|
            0 <= j < infos.len() ==> !#[trigger] tells_of(
                infos,
                answers.keys,
                j,
                list[i].identity_id@,
            )) implies (#[trigger] list[i])@.noted == blank_fields() by {
        lemma_no_document_tells(infos, answers.keys, infos.len() as int, list[i].identity_id@);
    }
}

/// The notes say nothing of what a contact publishes.
proof fn lemma_known_is_unpublished(
    infos: Seq<(Identifier, Document)>,
    keys: spec_fn(int) -> Option<(Seq<u8>, Seq<u8>)>,
    n: int,
    id: Seq<u8>,
)
    ensures
        latest(readable_infos(infos, keys, n), id) matches Some(c) ==> c.identity_id == id
            && c.username is None && c.display_name is None && c.avatar_url is None
            && c.bio is None,
    decreases n,
{
    if n > 0 {
        let before = readable_infos(infos, keys, n - 1);
        let all = readable_infos(infos, keys, n);
        lemma_known_is_unpublished(infos, keys, n - 1, id);
        if all.len() > before.len() {
            assert(all.drop_last() =~= before);
        }
    }
}

proof fn lemma_no_answer(reply: ReplyModel)
    requires
        forall|doc: Document| !#[trigger] answers_with(reply, doc),
    ensures
        first_document(reply) is None,
{
    if let Some(doc) = first_document(reply) {
        assert(answers_with(reply, doc));
    }
}

/// A load asks in turn for the requests that the identity sent, for those that it received and for
/// its notes, each from the first document on and a hundred at a time.
pub proof fn law_load_asks_about_its_identity(
    identity_id: Seq<u8>,
    outgoing: Seq<Seq<(Identifier, Option<Document>)>>,
    incoming: Seq<Seq<(Identifier, Option<Document>)>>,
)
    requires
        complete(outgoing),
        complete(incoming),
    ensures
        ({
            let first = fresh_load(identity_id);
            let second = after_pages(first, outgoing);
            let third = after_pages(second, incoming);
            &&& fetch_of(first) is Some && fetch_of(second) is Some && fetch_of(third) is Some
            &&& first.query().contract == Contract::DashPay
            &&& second.query().contract == Contract::DashPay
            &&& third.query().contract == Contract::DashPay
            &&& first.query().document_type == "contactRequest"@
            &&& second.query().document_type == "contactRequest"@
            &&& third.query().document_type == "contactInfo"@
            &&& first.query().field == "$ownerId"@
            &&& second.query().field == "toUserId"@
            &&& third.query().field == "$ownerId"@
            &&& first.query().value == identity_id
            &&& second.query().value == identity_id
            &&& third.query().value == identity_id
            &&& first.query().order_by == Some(("$createdAt"@, true))
            &&& second.query().order_by == Some(("$createdAt"@, true))
            &&& third.query().order_by is None
            &&& first.query().limit == 100
            &&& second.query().limit == 100
            &&& third.query().limit == 100
            &&& first.query().start_after is None
            &&& second.query().start_after is None
            &&& third.query().start_after is None
        }),
{
    lemma_fetched(fresh_load(identity_id), outgoing);
    lemma_fetched(after_pages(fresh_load(identity_id), outgoing), incoming);
}

/// Behind a page of a hundred entries or more, the load asks the same again from behind the last of
/// them on, and goes on as it would have gone on.
pub proof fn law_load_goes_on_behind_a_full_page(
    load: LoadModel,
    page: Seq<(Identifier, Option<Document>)>,
)
    requires
        fetch_of(load) is Some,
        page.len() >= 100,
    ensures
        ({
            let next = after_reply(load, ReplyModel::Page(page));
            &&& fetch_of(next) is Some
            &&& load is Outgoing <==> next is Outgoing
            &&& load is Incoming <==> next is Incoming
            &&& load is Infos <==> next is Infos
            &&& load is Outgoing ==> next->Outgoing_identity_id == load->Outgoing_identity_id
            &&& load is Incoming ==> next->Incoming_identity_id == load->Incoming_identity_id
                && next->sent_to == load->sent_to
            &&& load is Infos ==> next->Infos_contacts == load->Infos_contacts
            &&& next.query().start_after == Some(page[page.len() - 1].0.bytes@)
            &&& next.query().contract == load.query().contract
            &&& next.query().document_type == load.query().document_type
            &&& next.query().field == load.query().field
            &&& next.query().value == load.query().value
            &&& next.query().order_by == load.query().order_by
            &&& next.query().limit == load.query().limit
        }),
{
}

/// Each contact is looked up under its own identifier: first its profile, then its name, then the
/// next contact. The load ends behind the name of the last one.
pub proof fn law_contacts_are_looked_up_in_turn(
    list: Seq<ContactModel>,
    at: int,
    reply: ReplyModel,
)
    requires
        0 <= at < list.len(),
        !(reply is NotBuilt),
    ensures
        ({
            let profile = LoadModel::Profile { list, at };
            let name = LoadModel::Name { list, at };
            let named = after_reply(profile, reply);
            let next = after_reply(name, reply);
            &&& profile.query().contract == Contract::DashPay
            &&& profile.query().document_type == "profile"@
            &&& profile.query().field == "$ownerId"@
            &&& profile.query().value == list[at].identity_id
            &&& profile.query().limit == 1
            &&& profile.query().start_after is None
            &&& name.query().contract == Contract::Dpns
            &&& name.query().document_type == "domain"@
            &&& name.query().field == "records.identity"@
            &&& name.query().value == list[at].identity_id
            &&& name.query().limit == 1
            &&& name.query().start_after is None
            &&& named is Name && named->Name_at == at && named->Name_list.len() == list.len()
            &&& named.query().value == list[at].identity_id
            &&& at + 1 < list.len() ==> next is Profile && next->Profile_at == at + 1
                && next.query().value == list[at + 1].identity_id
            &&& at + 1 == list.len() ==> next is Finished
            &&& !(reply is Page) ==> named->Name_list == list
            &&& !(reply is Page) && at + 1 == list.len() ==> next->Finished_0 == list
        }),
{
    let id = list[at].identity_id;
    if let Some(doc) = first_document(reply) {
        lemma_profile_keeps_ids(list, id, doc);
        assert(with_profile_of(list, id, doc)[at].identity_id == id);
        lemma_name_keeps_ids(list, id, doc);
        let named = with_name_of(list, id, doc);
        if at + 1 < list.len() {
            assert(ids_of(named)[at + 1] == ids_of(list)[at + 1]);
        }
    }
}

/// A profile or name query that cannot be built ends the load with an error that says which.
pub proof fn law_unbuilt_lookups_end_the_load(
    list: Seq<ContactModel>,
    at: int,
    error: String,
    step: LoadStep,
)
    ensures
        step@ == after_reply(LoadModel::Profile { list, at }, QueryReply::NotBuilt(error)@)
            ==> step is Done && step->Done_0 is Err && step->Done_0->Err_0@
            == "Failed to create profile query: "@ + error@,
        step@ == after_reply(LoadModel::Name { list, at }, QueryReply::NotBuilt(error)@)
            ==> step is Done && step->Done_0 is Err && step->Done_0->Err_0@
            == "Failed to create DPNS query: "@ + error@,
{
    if let LoadStep::Query(query) = step {
        assert(!(query.stage.model() is Failed));
    }
}

/// A fetch that cannot be built or answered ends the load with an error that says so, and which
/// fetch could not be answered.
pub proof fn law_failed_fetch_is_reported(load: LoadModel, reply: QueryReply, step: LoadStep)
    requires
        fetch_of(load) is Some,
        !(reply is Page),
        step@ == after_reply(load, reply@),
    ensures
        step is Done,
        step->Done_0 is Err,
        reply matches QueryReply::NotBuilt(e) ==> step->Done_0->Err_0@
            == "Failed to create query: "@ + e@,
        reply matches QueryReply::Failed(e) ==> step->Done_0->Err_0@ == "Error fetching "@
            + fetch_of(load)->0.context + ": "@ + e@,
{
    if let LoadStep::Query(query) = step {
        assert(!(query.stage.model() is Failed));
    }
}

/// A reply shows the error or all entries that it holds.
pub proof fn law_reply_shows_what_it_holds(reply: QueryReply)
    ensures
        match reply {
            QueryReply::NotBuilt(e) => reply@ == ReplyModel::NotBuilt(e@),
            QueryReply::Failed(e) => reply@ == ReplyModel::Failed(e@),
            QueryReply::Page(page) => reply@ == ReplyModel::Page(page@),
        },
{
}

/// A load that shows an error ended with that error, and one that shows a list ended with it.
pub proof fn law_load_step_shows_its_end(step: LoadStep)
    requires
        step.well_formed(),
    ensures
        step@ matches LoadModel::Failed(message) ==> step is Done && step->Done_0 is Err
            && step->Done_0->Err_0@ == message,
        step@ matches LoadModel::Finished(models) ==> {
            &&& step is Done
            &&& step->Done_0 is Ok
            &&& step->Done_0->Ok_0 is DashPayContactsWithInfo
            &&& contact_models(step->Done_0->Ok_0->DashPayContactsWithInfo_0@) == models
        },
{
    if let LoadStep::Query(query) = step {
        assert(!(query.stage.model() is Failed) && !(query.stage.model() is Finished));
    }
}

} // verus!
