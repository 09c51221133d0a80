//! The document queries that load an identity's contacts.

use vstd::prelude::*;

use crate::identifier::{lemma_array_ext, Identifier};

verus! {

/// The contract whose documents a query asks for.
#[derive(Clone, Copy, Debug, PartialEq, Eq)]
pub enum Contract {
    DashPay,
    Dpns,
}

/// The order in which a query wants its documents.
#[derive(Clone, Copy, Debug, PartialEq, Eq)]
pub struct OrderClause {
    pub field: &'static str,
    pub ascending: bool,
}

/// A query for the documents of one type in which one field equals an identifier.
#[derive(Clone, Debug, PartialEq, Eq)]
pub struct DocumentQuery {
    pub contract: Contract,
    pub document_type: &'static str,
    pub field: &'static str,
    pub value: Identifier,
    pub order_by: Option<OrderClause>,
    /// The largest number of documents in one answer; 0 leaves it to the platform.
    pub limit: u32,
    /// The document behind which the answer begins.
    pub start_after: Option<Identifier>,
}

/// The contents of a `DocumentQuery`.
pub struct QueryModel {
    pub contract: Contract,
    pub document_type: Seq<char>,
    pub field: Seq<char>,
    pub value: Seq<u8>,
    pub order_by: Option<(Seq<char>, bool)>,
    pub limit: u32,
    pub start_after: Option<Seq<u8>>,
}

impl View for DocumentQuery {
    type V = QueryModel;

    open spec fn view(&self) -> QueryModel {
        QueryModel {
            contract: self.contract,
            document_type: self.document_type@,
            field: self.field@,
            value: self.value@,
            order_by: match self.order_by {
                Some(order) => Some((order.field@, order.ascending)),
                None => None,
            },
            limit: self.limit,
            start_after: match self.start_after {
                Some(id) => Some(id@),
                None => None,
            },
        }
    }
}

/// A query from the beginning, with no limit of its own.
pub open spec fn plain_query(
    contract: Contract,
    document_type: Seq<char>,
    field: Seq<char>,
    value: Seq<u8>,
    order_by: Option<(Seq<char>, bool)>,
) -> QueryModel {
    QueryModel { contract, document_type, field, value, order_by, limit: 0, start_after: None }
}

/// The contact requests that an identity sent, oldest first.
pub open spec fn outgoing_requests(id: Seq<u8>) -> QueryModel {
    plain_query(
        Contract::DashPay,
        "contactRequest"@,
        "$ownerId"@,
        id,
        Some(("$createdAt"@, true)),
    )
}

/// The contact requests that an identity received, oldest first.
pub open spec fn incoming_requests(id: Seq<u8>) -> QueryModel {
    plain_query(
        Contract::DashPay,
        "contactRequest"@,
        "toUserId"@,
        id,
        Some(("$createdAt"@, true)),
    )
}

/// The contact-info documents of an identity.
pub open spec fn contact_infos(id: Seq<u8>) -> QueryModel {
    plain_query(Contract::DashPay, "contactInfo"@, "$ownerId"@, id, None)
}

/// The profile of an identity.
pub open spec fn profile_of(id: Seq<u8>) -> QueryModel {
    QueryModel {
        limit: 1,
        ..plain_query(Contract::DashPay, "profile"@, "$ownerId"@, id, None)
    }
}

/// The name that is registered for an identity.
pub open spec fn name_of(id: Seq<u8>) -> QueryModel {
    QueryModel {
        limit: 1,
        ..plain_query(Contract::Dpns, "domain"@, "records.identity"@, id, None)
    }
}

/// The five queries ask for what they are named after: requests, infos and profiles of the DashPay
/// contract and names of the DPNS contract, found by the identity that sent, received, owns or
/// registered them. Requests come oldest first. A profile or a name is asked for once.
pub proof fn law_queries_find_their_documents(id: Identifier, query: DocumentQuery)
    ensures
        query@ == outgoing_requests(id@) ==> query.contract == Contract::DashPay
            && query.document_type@ == "contactRequest"@ && query.field@ == "$ownerId"@
            && query.value.bytes == id.bytes && query.order_by is Some
            && query.order_by->0.field@ == "$createdAt"@ && query.order_by->0.ascending,
        query@ == incoming_requests(id@) ==> query.contract == Contract::DashPay
            && query.document_type@ == "contactRequest"@ && query.field@ == "toUserId"@
            && query.value.bytes == id.bytes && query.order_by is Some
            && query.order_by->0.field@ == "$createdAt"@ && query.order_by->0.ascending,
        query@ == contact_infos(id@) ==> query.contract == Contract::DashPay
            && query.document_type@ == "contactInfo"@ && query.field@ == "$ownerId"@
            && query.value.bytes == id.bytes && query.order_by is None,
        query@ == profile_of(id@) ==> query.contract == Contract::DashPay
            && query.document_type@ == "profile"@ && query.field@ == "$ownerId"@
            && query.value.bytes == id.bytes && query.order_by is None && query.limit == 1,
        query@ == name_of(id@) ==> query.contract == Contract::Dpns
            && query.document_type@ == "domain"@ && query.field@ == "records.identity"@
            && query.value.bytes == id.bytes && query.order_by is None && query.limit == 1,
        query@ == outgoing_requests(id@) || query@ == incoming_requests(id@) || query@
            == contact_infos(id@) || query@ == profile_of(id@) || query@ == name_of(id@)
            ==> query.start_after is None,
{
    if query.value@ == id@ {
        lemma_array_ext(query.value.bytes, id.bytes);
    }
}

/// Asks for the contact requests that an identity sent.
///
/// The explicit order is needed: without one the platform can answer with no documents although
/// there are some.
pub fn outgoing_requests_query(id: Identifier) -> (r: DocumentQuery)
    ensures
        r@ == outgoing_requests(id@),
{
    DocumentQuery {
        contract: Contract::DashPay,
        document_type: "contactRequest",
        field: "$ownerId",
        value: id,
        order_by: Some(OrderClause { field: "$createdAt", ascending: true }),
        limit: 0,
        start_after: None,
    }
}

/// Asks for the contact requests that an identity received.
pub fn incoming_requests_query(id: Identifier) -> (r: DocumentQuery)
    ensures
        r@ == incoming_requests(id@),
{
    DocumentQuery {
        contract: Contract::DashPay,
        document_type: "contactRequest",
        field: "toUserId",
        value: id,
        order_by: Some(OrderClause { field: "$createdAt", ascending: true }),
        limit: 0,
        start_after: None,
    }
}

/// Asks for the contact-info documents of an identity.
pub fn contact_infos_query(id: Identifier) -> (r: DocumentQuery)
    ensures
        r@ == contact_infos(id@),
{
    DocumentQuery {
        contract: Contract::DashPay,
        document_type: "contactInfo",
        field: "$ownerId",
        value: id,
        order_by: None,
        limit: 0,
        start_after: None,
    }
}

/// Asks for the profile of an identity.
pub fn profile_query(id: Identifier) -> (r: DocumentQuery)
    ensures
        r@ == profile_of(id@),
{
    DocumentQuery {
        contract: Contract::DashPay,
        document_type: "profile",
        field: "$ownerId",
        value: id,
        order_by: None,
        limit: 1,
        start_after: None,
    }
}

/// Asks for the name that is registered for an identity.
pub fn name_query(id: Identifier) -> (r: DocumentQuery)
    ensures
        r@ == name_of(id@),
{
    DocumentQuery {
        contract: Contract::Dpns,
        document_type: "domain",
        field: "records.identity",
        value: id,
        order_by: None,
        limit: 1,
        start_after: None,
    }
}

/// A query shows each of its fields as it is.
pub proof fn law_query_shows_its_fields(query: DocumentQuery)
    ensures
        query@.contract == query.contract,
        query@.document_type == query.document_type@,
        query@.field == query.field@,
        query@.value == query.value.bytes@,
        query@.order_by is Some <==> query.order_by is Some,
        query.order_by matches Some(order) ==> query@.order_by == Some(
            (order.field@, order.ascending),
        ),
        query@.limit == query.limit,
        query@.start_after is Some <==> query.start_after is Some,
        query.start_after matches Some(id) ==> query@.start_after == Some(id.bytes@),
{
}

} // verus!
