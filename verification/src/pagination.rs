//! Fetching all documents of a query, page by page.

use vstd::prelude::*;
use vstd::string::*;

use crate::identifier::Identifier;
use crate::query::{DocumentQuery, QueryModel};

verus! {

/// The number of documents in a full page.
pub const DASHPAY_QUERY_PAGE_SIZE: u32 = 100;

/// A fetch in progress. The next thing to do is to run the query and to resume with the answer.
pub struct Pagination<D> {
    query: DocumentQuery,
    /// Names the query in error messages.
    context: &'static str,
    all: Vec<(Identifier, D)>,
}

/// What follows a page.
pub enum PageStep<D> {
    /// Another page is needed.
    More(Pagination<D>),
    /// These are all documents.
    Finished(Vec<(Identifier, D)>),
    /// The fetch failed.
    Failed(String),
}

/// The contents of a `Pagination`.
pub struct PagesModel<D> {
    pub query: QueryModel,
    pub context: Seq<char>,
    pub all: Seq<(Identifier, D)>,
}

/// The contents of a `PageStep`.
pub enum PageStepModel<D> {
    More(PagesModel<D>),
    Finished(Seq<(Identifier, D)>),
    Failed(Seq<char>),
}

impl<D> View for Pagination<D> {
    type V = PagesModel<D>;

    closed spec fn view(&self) -> PagesModel<D> {
        PagesModel { query: self.query@, context: self.context@, all: self.all@ }
    }
}

impl<D> View for PageStep<D> {
    type V = PageStepModel<D>;

    open spec fn view(&self) -> PageStepModel<D> {
        match self {
            PageStep::More(pages) => PageStepModel::More(pages@),
            PageStep::Finished(all) => PageStepModel::Finished(all@),
            PageStep::Failed(message) => PageStepModel::Failed(message@),
        }
    }
}

/// The documents of a page. A page may list identifiers without a document: those are left out.
pub open spec fn present<D>(page: Seq<(Identifier, Option<D>)>) -> Seq<(Identifier, D)>
    decreases page.len(),
{
    if page.len() == 0 {
        seq![]
    } else {
        let before = present(page.drop_last());
        match page.last().1 {
            Some(doc) => before.push((page.last().0, doc)),
            None => before,
        }
    }
}

/// The documents of several pages, one page after the other.
pub open spec fn all_present<D>(pages: Seq<Seq<(Identifier, Option<D>)>>) -> Seq<(Identifier, D)>
    decreases pages.len(),
{
    if pages.len() == 0 {
        seq![]
    } else {
        present(pages[0]) + all_present(pages.skip(1))
    }
}

/// The documents of a page that lists one entry more: a document is listed last, and an identifier
/// without a document adds nothing. An empty page has none.
pub proof fn law_page_lists_its_documents<D>(
    page: Seq<(Identifier, Option<D>)>,
    id: Identifier,
    doc: D,
)
    ensures
        present(page.push((id, Some(doc)))) == present(page).push((id, doc)),
        present(page.push((id, None))) == present(page),
        page.len() == 0 ==> present(page).len() == 0,
{
    assert(page.push((id, Some(doc))).drop_last() =~= page);
    assert(page.push((id, None::<D>)).drop_last() =~= page);
}

/// A document is among those of a page exactly where the page lists it under its identifier.
pub proof fn law_present_are_the_listed<D>(page: Seq<(Identifier, Option<D>)>)
    ensures
        forall|id: Identifier, doc: D| #[trigger]
            present(page).contains((id, doc)) <==> page.contains((id, Some(doc))),
    decreases page.len(),
{
    let all = present(page);
    if page.len() > 0 {
        let rest = page.drop_last();
        let before = present(rest);
        law_present_are_the_listed(rest);
        assert forall|id: Identifier, doc: D| #[trigger]
            all.contains((id, doc)) <==> page.contains((id, Some(doc))) by {
            if page.contains((id, Some(doc))) {
                let i = choose|i: int| 0 <= i < page.len() && page[i] == (id, Some(doc));
                if i < rest.len() {
                    assert(rest[i] == page[i]);
                    assert(before.contains((id, doc)));
                    let k = choose|k: int| 0 <= k < before.len() && before[k] == (id, doc);
                    assert(all[k] == (id, doc));
                } else {
                    assert(all.last() == (id, doc));
                }
            }
            if all.contains((id, doc)) {
                let k = choose|k: int| 0 <= k < all.len() && all[k] == (id, doc);
                if k < before.len() {
                    assert(before[k] == (id, doc));
                    assert(before.contains((id, doc)));
                    let i = choose|i: int| 0 <= i < rest.len() && rest[i] == (id, Some(doc));
                    assert(page[i] == (id, Some(doc)));
                } else {
                    assert(page[page.len() - 1] == (id, Some(doc)));
                }
            }
        }
    }
}

/// A document is among those of several pages exactly where one of the pages lists it.
pub proof fn law_all_present_are_the_listed<D>(pages: Seq<Seq<(Identifier, Option<D>)>>)
    ensures
        forall|id: Identifier, doc: D| #[trigger]
            all_present(pages).contains((id, doc)) <==> exists|p: int|
                0 <= p < pages.len() && (#[trigger] pages[p]).contains((id, Some(doc))),
    decreases pages.len(),
{
    let all = all_present(pages);
    if pages.len() > 0 {
        let rest = pages.skip(1);
        let first = present(pages[0]);
        let others = all_present(rest);
        law_present_are_the_listed(pages[0]);
        law_all_present_are_the_listed(rest);
        assert forall|id: Identifier, doc: D| #[trigger]
            all.contains((id, doc)) <==> exists|p: int|
                0 <= p < pages.len() && (#[trigger] pages[p]).contains((id, Some(doc))) by {
            if all.contains((id, doc)) {
                let k = choose|k: int| 0 <= k < all.len() && all[k] == (id, doc);
                if k < first.len() {
                    assert(first[k] == (id, doc));
                    assert(first.contains((id, doc)));
                } else {
                    assert(others[k - first.len()] == (id, doc));
                    assert(others.contains((id, doc)));
                    let p = choose|p: int|
                        0 <= p < rest.len() && (#[trigger] rest[p]).contains((id, Some(doc)));
                    assert(pages[p + 1] == rest[p]);
                }
            }
            if exists|p: int|
                0 <= p < pages.len() && (#[trigger] pages[p]).contains((id, Some(doc))) {
                let p = choose|p: int|
                    0 <= p < pages.len() && (#[trigger] pages[p]).contains((id, Some(doc)));
                if p == 0 {
                    assert(first.contains((id, doc)));
                    let k = choose|k: int| 0 <= k < first.len() && first[k] == (id, doc);
                    assert(all[k] == (id, doc));
                } else {
                    assert(rest[p - 1] == pages[p]);
                    assert(others.contains((id, doc)));
                    let k = choose|k: int| 0 <= k < others.len() && others[k] == (id, doc);
                    assert(all[first.len() + k] == (id, doc));
                }
            }
        }
    }
}

/// The documents of one page more come behind those of the pages before it.
pub proof fn law_pages_keep_their_order<D>(
    pages: Seq<Seq<(Identifier, Option<D>)>>,
    page: Seq<(Identifier, Option<D>)>,
)
    ensures
        all_present(pages.push(page)) == all_present(pages) + present(page),
        pages.len() == 0 ==> all_present(pages).len() == 0,
    decreases pages.len(),
{
    let more = pages.push(page);
    if pages.len() == 0 {
        assert(more.skip(1).len() == 0);
        assert(all_present(more.skip(1)).len() == 0);
        assert(all_present(more) =~= all_present(pages) + present(page));
    } else {
        let rest = pages.skip(1);
        law_pages_keep_their_order(rest, page);
        assert(more.skip(1) =~= rest.push(page));
        assert(all_present(more) =~= all_present(pages) + present(page));
    }
}

/// A fetch that has not begun.
pub open spec fn fresh_pages<D>(query: QueryModel, context: Seq<char>) -> PagesModel<D> {
    PagesModel {
        query: QueryModel { limit: DASHPAY_QUERY_PAGE_SIZE, ..query },
        context,
        all: seq![],
    }
}

/// What follows a page: a page that is not full is the last one, and behind a full page the
/// fetch goes on after the last identifier of that page.
pub open spec fn after_page<D>(
    pages: PagesModel<D>,
    page: Seq<(Identifier, Option<D>)>,
) -> PageStepModel<D> {
    let all = pages.all + present(page);
    if page.len() < DASHPAY_QUERY_PAGE_SIZE {
        PageStepModel::Finished(all)
    } else {
        PageStepModel::More(
            PagesModel {
                query: QueryModel { start_after: Some(page.last().0@), ..pages.query },
                all,
                ..pages
            },
        )
    }
}

/// What follows an answer: a page, or the text of an error.
pub open spec fn after_answer<D>(
    pages: PagesModel<D>,
    answer: Result<Seq<(Identifier, Option<D>)>, Seq<char>>,
) -> PageStepModel<D> {
    match answer {
        Ok(page) => after_page(pages, page),
        Err(e) => PageStepModel::Failed("Error fetching "@ + pages.context + ": "@ + e),
    }
}

/// The contents of an answer.
pub open spec fn answer_model<D>(
    answer: Result<Vec<(Identifier, Option<D>)>, String>,
) -> Result<Seq<(Identifier, Option<D>)>, Seq<char>> {
    match answer {
        Ok(page) => Ok(page@),
        Err(e) => Err(e@),
    }
}

impl<D> Pagination<D> {
    /// Begins to fetch all documents of a query.
    pub fn begin(query: DocumentQuery, context: &'static str) -> (r: Pagination<D>)
        ensures
            r@ == fresh_pages::<D>(query@, context@),
    {
        let mut query = query;
        query.limit = DASHPAY_QUERY_PAGE_SIZE;
        let r = Pagination { query, context, all: Vec::new() };
        assert(r@.all =~= fresh_pages::<D>(query@, context@).all);
        r
    }

    /// The query to run.
    pub fn query(&self) -> (r: &DocumentQuery)
        ensures
            r@ == self@.query,
    {
        &self.query
    }

    /// Takes the answer to the query.
    pub fn resume(self, answer: Result<Vec<(Identifier, Option<D>)>, String>) -> (r: PageStep<D>)
        ensures
            r@ == after_answer(self@, answer_model(answer)),
    {
        let page = match answer {
            Ok(page) => page,
            Err(e) => {
                return PageStep::Failed(
                    "Error fetching ".to_owned().concat(self.context).concat(": ").concat(
                        e.as_str(),
                    ),
                );
            },
        };
        let mut query = self.query;
        let mut all = self.all;
        let len: usize = page.len();
        let full = len >= DASHPAY_QUERY_PAGE_SIZE as usize;
        if full {
            query.start_after = Some(page[len - 1].0);
        }
        let ghost fetched = all@;
        let ghost entries = page@;
        for entry in it: page
            invariant
                it.seq() == entries,
                all@ == fetched + present(entries.take(it.index() as int)),
        {
            proof {
                let n = it.index() as int;
                assert(entries.take(n + 1).drop_last() =~= entries.take(n));
                assert(entries.take(n + 1).last() == entry);
            }
            let (id, doc) = entry;
            if let Some(doc) = doc {
                all.push((id, doc));
            }
            assert(all@ =~= fetched + present(entries.take(it.index() as int + 1)));
        }
        assert(entries.take(entries.len() as int) =~= entries);
        if full {
            PageStep::More(Pagination { query, context: self.context, all })
        } else {
            PageStep::Finished(all)
        }
    }
}

/// A fetch asks for the documents that its query asks for, a hundred at a time, and has none yet.
pub proof fn law_fetch_begins_with_its_query<D>(query: DocumentQuery, context: Seq<char>)
    ensures
        ({
            let pages = fresh_pages::<D>(query@, context);
            &&& pages.query.contract == query.contract
            &&& pages.query.document_type == query.document_type@
            &&& pages.query.field == query.field@
            &&& pages.query.value == query.value.bytes@
            &&& pages.query.order_by is Some <==> query.order_by is Some
            &&& query.order_by matches Some(order) ==> (pages.query.order_by->0).0 == order.field@
                && (pages.query.order_by->0).1 == order.ascending
            &&& pages.query.limit == 100
            &&& pages.query.start_after is Some <==> query.start_after is Some
            &&& query.start_after matches Some(id) ==> pages.query.start_after->0 == id.bytes@
            &&& pages.context == context
            &&& pages.all.len() == 0
        }),
{
}

/// A page of fewer than a hundred entries ends the fetch with what was fetched before and the
/// documents of this page. A longer page is followed by the same query, which starts behind the
/// last entry of this page, whether or not that entry has a document. An error ends the fetch and
/// is reported with the name of the query.
pub proof fn law_page_step<D>(
    pages: Pagination<D>,
    answer: Result<Vec<(Identifier, Option<D>)>, String>,
    step: PageStep<D>,
)
    requires
        step@ == after_answer(pages@, answer_model(answer)),
    ensures
        match answer {
            Ok(page) if page@.len() < 100 => {
                &&& step is Finished
                &&& step->Finished_0@ == pages@.all + present(page@)
            },
            Ok(page) => {
                &&& step is More
                &&& step->More_0@.all == pages@.all + present(page@)
                &&& step->More_0@.context == pages@.context
                &&& step->More_0@.query.start_after is Some
                &&& step->More_0@.query.start_after->0 == page@[page@.len() - 1].0.bytes@
                &&& step->More_0@.query.limit == pages@.query.limit
                &&& step->More_0@.query.contract == pages@.query.contract
                &&& step->More_0@.query.document_type == pages@.query.document_type
                &&& step->More_0@.query.field == pages@.query.field
                &&& step->More_0@.query.value == pages@.query.value
                &&& step->More_0@.query.order_by == pages@.query.order_by
            },
            Err(e) => {
                &&& step is Failed
                &&& step->Failed_0@ == "Error fetching "@ + pages@.context + ": "@ + e@
            },
        },
{
}

/// What a fetch comes to when the platform answers with these pages in turn, or nothing where
/// they run out before the last one.
pub open spec fn fetch_all<D>(
    pages: PagesModel<D>,
    answers: Seq<Seq<(Identifier, Option<D>)>>,
) -> Option<Seq<(Identifier, D)>>
    decreases answers.len(),
{
    if answers.len() == 0 {
        None
    } else {
        match after_page(pages, answers[0]) {
            PageStepModel::More(next) => fetch_all(next, answers.skip(1)),
            PageStepModel::Finished(all) => Some(all),
            PageStepModel::Failed(_) => None,
        }
    }
}

/// Whether pages are what the platform answers with: full ones, and a last one that is not.
pub open spec fn complete<D>(answers: Seq<Seq<(Identifier, Option<D>)>>) -> bool {
    &&& answers.len() > 0
    &&& answers.last().len() < DASHPAY_QUERY_PAGE_SIZE
    &&& forall|i: int|
        0 <= i < answers.len() - 1 ==> (#[trigger] answers[i]).len() >= DASHPAY_QUERY_PAGE_SIZE
}

/// The first of complete pages is full where others follow, and those are complete again.
pub proof fn lemma_complete_rest<D>(answers: Seq<Seq<(Identifier, Option<D>)>>)
    requires
        complete(answers),
    ensures
        answers.len() == 1 <==> answers[0].len() < DASHPAY_QUERY_PAGE_SIZE,
        answers.len() > 1 ==> complete(answers.skip(1)),
        answers.len() == 1 ==> all_present(answers) == present(answers[0]),
{
    let rest = answers.skip(1);
    if answers.len() > 1 {
        assert(rest.last() == answers.last());
        assert forall|i: int| 0 <= i < rest.len() - 1 implies (#[trigger] rest[i]).len()
            >= DASHPAY_QUERY_PAGE_SIZE by {
            assert(rest[i] == answers[i + 1]);
        }
        assert(answers[0].len() >= DASHPAY_QUERY_PAGE_SIZE);
    } else {
        assert(all_present(rest).len() == 0);
        assert(all_present(answers) =~= present(answers[0]));
    }
}

/// No page is lost and none is fetched beyond the last: full pages followed by one that is not
/// full give the documents of all of them, in the order in which they came.
pub proof fn law_all_pages_are_collected<D>(
    pages: PagesModel<D>,
    answers: Seq<Seq<(Identifier, Option<D>)>>,
)
    requires
        complete(answers),
    ensures
        fetch_all(pages, answers) == Some(pages.all + all_present(answers)),
    decreases answers.len(),
{
    let rest = answers.skip(1);
    lemma_complete_rest(answers);
    if let PageStepModel::More(next) = after_page(pages, answers[0]) {
        law_all_pages_are_collected(next, rest);
        assert(next.all + all_present(rest) =~= pages.all + all_present(answers));
    }
}

} // verus!
