//! Full rebuild of the search index from the catalog, as a state machine: the caller carries
//! out each action against the index and the catalog store and hands back what happened.

use crate::catalog::{lemma_with_flag_members, page_of, soft_deleted, with_flag, Catalog, ProductEntity};
use crate::error::AppError;
use crate::search::{
    docs_of, to_search_documents, upsert_all, views_of, DocView, DocumentIndex,
    ProductSearchDocument,
};
use vstd::prelude::*;

verus! {

/// Where a rebuild stands.
#[derive(Clone, Copy, Debug, PartialEq, Eq, Structural)]
pub enum ReindexPhase {
    /// Waiting for the index to confirm that every document is gone.
    Clearing,
    /// Waiting for a page of active products.
    Fetching,
    /// Waiting for the index to take a page's documents.
    Pushing,
    /// Over.
    Finished,
}

/// A rebuild in progress: the phase, the page in hand (from 1) and the page size.
#[derive(Clone, Copy, Debug, PartialEq, Eq, Structural)]
pub struct Reindex {
    pub phase: ReindexPhase,
    pub page: usize,
    pub page_size: usize,
}

/// What happened to the last action.
#[derive(Debug, PartialEq, Eq)]
pub enum ReindexEvent {
    Cleared,
    ClearFailed(AppError),
    PageLoaded(Vec<ProductEntity>),
    PageFailed(AppError),
    BatchPushed,
    BatchFailed(AppError),
}

/// What the caller is to do next.
#[derive(Debug, PartialEq, Eq)]
pub enum ReindexAction {
    /// Delete every document and wait until the index confirms.
    ClearIndex,
    /// Load page `page` of `limit` active products, oldest first.
    FetchPage { page: usize, limit: usize },
    /// Add these documents to the index.
    PushBatch(Vec<ProductSearchDocument>),
    /// Stop, with this outcome.
    Finish(Result<(), AppError>),
}

impl Reindex {
    /// A rebuild that scans `page_size` products at a time; it starts by clearing the index.
    pub fn start(page_size: usize) -> (r: (Reindex, ReindexAction))
        ensures
            r.0 == (Reindex { phase: ReindexPhase::Clearing, page: 1, page_size }),
            r.1 == ReindexAction::ClearIndex,
    {
        (Reindex { phase: ReindexPhase::Clearing, page: 1, page_size }, ReindexAction::ClearIndex)
    }

    /// The next state and action. Once the clear is confirmed, pages are fetched from the
    /// first; each non-empty page is pushed, then the next one fetched; an empty page ends the
    /// rebuild successfully. A failed clear, fetch or push ends it with that error. An event
    /// that does not answer the pending action ends it with `InternalServerError`.
    pub fn step(self, event: ReindexEvent) -> (r: (Reindex, ReindexAction))
        ensures
            r.0.page_size == self.page_size,
            match (self.phase, event) {
                (ReindexPhase::Clearing, ReindexEvent::Cleared) => r.0 == Reindex {
                    phase: ReindexPhase::Fetching,
                    page: 1,
                    ..self
                } && r.1 == ReindexAction::FetchPage { page: 1, limit: self.page_size },
                (ReindexPhase::Fetching, ReindexEvent::PageLoaded(products)) => if products@.len() == 0 {
                    r.0.phase == ReindexPhase::Finished && r.1 == ReindexAction::Finish(Ok(()))
                } else {
                    r.0 == Reindex { phase: ReindexPhase::Pushing, ..self } && (r.1 matches ReindexAction::PushBatch(docs) && views_of(docs@) == docs_of(products@))
                },
                (ReindexPhase::Pushing, ReindexEvent::BatchPushed) => if self.page < usize::MAX {
                    r.0 == Reindex { phase: ReindexPhase::Fetching, page: (self.page + 1) as usize, ..self }
                        && r.1 == ReindexAction::FetchPage { page: (self.page + 1) as usize, limit: self.page_size }
                } else {
                    r.0.phase == ReindexPhase::Finished && r.1 == ReindexAction::Finish(Ok(()))
                },
                (ReindexPhase::Clearing, ReindexEvent::ClearFailed(e)) => r.0.phase == ReindexPhase::Finished
                    && r.1 == ReindexAction::Finish(Err(e)),
                (ReindexPhase::Fetching, ReindexEvent::PageFailed(e)) => r.0.phase == ReindexPhase::Finished
                    && r.1 == ReindexAction::Finish(Err(e)),
                (ReindexPhase::Pushing, ReindexEvent::BatchFailed(e)) => r.0.phase == ReindexPhase::Finished
                    && r.1 == ReindexAction::Finish(Err(e)),
                _ => r.0.phase == ReindexPhase::Finished && r.1 matches ReindexAction::Finish(Err(AppError::InternalServerError(_))),
            },
    {
        let finished = Reindex { phase: ReindexPhase::Finished, ..self };
        match (self.phase, event) {
            (ReindexPhase::Clearing, ReindexEvent::Cleared) => (
                Reindex { phase: ReindexPhase::Fetching, page: 1, ..self },
                ReindexAction::FetchPage { page: 1, limit: self.page_size },
            ),
            (ReindexPhase::Fetching, ReindexEvent::PageLoaded(products)) => {
                if products.len() == 0 {
                    (finished, ReindexAction::Finish(Ok(())))
                } else {
                    (
                        Reindex { phase: ReindexPhase::Pushing, ..self },
                        ReindexAction::PushBatch(to_search_documents(&products)),
                    )
                }
            },
            (ReindexPhase::Pushing, ReindexEvent::BatchPushed) => {
                if self.page < usize::MAX {
                    let next = self.page + 1;
                    (
                        Reindex { phase: ReindexPhase::Fetching, page: next, ..self },
                        ReindexAction::FetchPage { page: next, limit: self.page_size },
                    )
                } else {
                    // No page past this one can be addressed.
                    (finished, ReindexAction::Finish(Ok(())))
                }
            },
            (ReindexPhase::Clearing, ReindexEvent::ClearFailed(e)) => (finished, ReindexAction::Finish(Err(e))),
            (ReindexPhase::Fetching, ReindexEvent::PageFailed(e)) => (finished, ReindexAction::Finish(Err(e))),
            (ReindexPhase::Pushing, ReindexEvent::BatchFailed(e)) => (finished, ReindexAction::Finish(Err(e))),
            _ => (
                finished,
                ReindexAction::Finish(
                    Err(AppError::InternalServerError("Unexpected reindex event".to_owned())),
                ),
            ),
        }
    }
}

/// The index that a rebuild aims at: a document for each active product, in creation order.
pub open spec fn rebuilt(catalog: Seq<ProductEntity>) -> Map<u128, DocView> {
    upsert_all(Map::empty(), docs_of(with_flag(catalog, true)))
}

proof fn lemma_upsert_keys(m: Map<u128, DocView>, batch: Seq<DocView>, k: u128)
    requires
        upsert_all(m, batch).contains_key(k),
    ensures
        m.contains_key(k) || exists|i: int| 0 <= i < batch.len() && batch[i].id == k,
    decreases batch.len(),
{
    if batch.len() > 0 {
        let t = batch.drop_last();
        if batch.last().id != k {
            lemma_upsert_keys(m, t, k);
            if !m.contains_key(k) {
                let i = choose|i: int| 0 <= i < t.len() && t[i].id == k;
                assert(batch[i] == t[i]);
            }
        }
    }
}

/// A product soft-deleted before a rebuild has no document once the rebuild is done.
pub proof fn lemma_soft_deleted_not_rebuilt(catalog: Seq<ProductEntity>, id: u128)
    ensures
        !rebuilt(soft_deleted(catalog, id)).contains_key(id),
{
    let t = soft_deleted(catalog, id);
    let active = with_flag(t, true);
    lemma_with_flag_members(t, true);
    let docs = docs_of(active);
    if rebuilt(t).contains_key(id) {
        lemma_upsert_keys(Map::empty(), docs, id);
        let i = choose|i: int| 0 <= i < docs.len() && docs[i].id == id;
        assert(active[i].is_active);
        let j = choose|j: int| 0 <= j < t.len() && t[j] == active[i];
        assert(t[j].id == id);
        assert(!t[j].is_active);
    }
}

proof fn lemma_upsert_all_append(m: Map<u128, DocView>, a: Seq<DocView>, b: Seq<DocView>)
    ensures
        upsert_all(m, a + b) == upsert_all(upsert_all(m, a), b),
    decreases b.len(),
{
    if b.len() == 0 {
        assert(a + b =~= a);
    } else {
        assert((a + b).drop_last() =~= a + b.drop_last());
        lemma_upsert_all_append(m, a, b.drop_last());
    }
}

/// Pushing the next page's documents extends the prefix of documents already in the index.
proof fn lemma_push_page(active: Seq<ProductEntity>, page: int, limit: int)
    requires
        page >= 1,
        limit >= 1,
        (page - 1) * limit < active.len(),
    ensures
        ({
            let c = (page - 1) * limit;
            let w = page_of(active, page, limit);
            let c2 = c + w.len();
            &&& w.len() >= 1
            &&& c2 <= active.len()
            &&& c2 == if page * limit <= active.len() { page * limit } else { active.len() as int }
            &&& upsert_all(upsert_all(Map::empty(), docs_of(active.take(c))), docs_of(w))
                == upsert_all(Map::empty(), docs_of(active.take(c2)))
        }),
{
    let c = (page - 1) * limit;
    assert(page * limit == c + limit) by (nonlinear_arith)
        requires
            c == (page - 1) * limit,
    ;
    let w = page_of(active, page, limit);
    let c2 = c + w.len();
    assert(active.take(c2) =~= active.take(c) + w);
    assert(docs_of(active.take(c2)) =~= docs_of(active.take(c)) + docs_of(w));
    lemma_upsert_all_append(Map::empty(), docs_of(active.take(c)), docs_of(w));
}

/// How many active products the pages before `page` cover.
pub open spec fn scanned(page: int, page_size: int, n: int) -> int {
    let c = (page - 1) * page_size;
    if c <= n {
        c
    } else {
        n
    }
}

proof fn lemma_with_flag_len(s: Seq<ProductEntity>, flag: bool)
    ensures
        with_flag(s, flag).len() <= s.len(),
    decreases s.len(),
{
    if s.len() > 0 {
        lemma_with_flag_len(s.drop_last(), flag);
    }
}

proof fn lemma_upsert_none(m: Map<u128, DocView>, s: Seq<DocView>)
    requires
        s.len() == 0,
    ensures
        upsert_all(m, s) == m,
{
}

/// The measure that each turn of a rebuild driven to completion decreases.
pub open spec fn remaining(state: Reindex, action: ReindexAction, n: int) -> int {
    match action {
        ReindexAction::ClearIndex => 2 * n + 4,
        ReindexAction::FetchPage { page, limit } => 2 * (n - scanned(page as int, limit as int, n)) + 2,
        ReindexAction::PushBatch(docs) => 2 * (n - (state.page - 1) * state.page_size - docs@.len()) + 3,
        ReindexAction::Finish(_) => 0,
    }
}

/// Runs a whole rebuild of `index` from `catalog`, `page_size` products at a time. With a
/// positive page size the index ends up holding exactly one document per active product,
/// whatever it held before, so products soft-deleted before the rebuild are gone; with a page
/// size of 0 the first page is empty and the index ends up empty.
pub fn reindex_all(catalog: &Catalog, index: &mut DocumentIndex, page_size: usize) -> (r: Result<(), AppError>)
    requires
        old(index).wf(),
    ensures
        r is Ok,
        final(index).wf(),
        page_size >= 1 ==> final(index)@ == rebuilt(catalog.products@),
        page_size == 0 ==> final(index)@ == Map::<u128, DocView>::empty(),
{
    let ghost active = with_flag(catalog.products@, true);
    let ghost n = active.len() as int;
    let stored = catalog.products.len();
    proof {
        lemma_with_flag_len(catalog.products@, true);
        assert(n <= stored);
    }
    let started = Reindex::start(page_size);
    let mut state = started.0;
    let mut action = started.1;
    loop
        invariant
            index.wf(),
            state.page_size == page_size,
            active == with_flag(catalog.products@, true),
            n == active.len(),
            n <= usize::MAX,
            match action {
                ReindexAction::ClearIndex => state == Reindex { phase: ReindexPhase::Clearing, page: 1, page_size },
                ReindexAction::FetchPage { page, limit } => {
                    &&& state == Reindex { phase: ReindexPhase::Fetching, page, page_size }
                    &&& limit == page_size
                    &&& page >= 1
                    &&& index@ == upsert_all(Map::empty(), docs_of(active.take(scanned(page as int, page_size as int, n))))
                },
                ReindexAction::PushBatch(docs) => {
                    &&& state.phase == ReindexPhase::Pushing
                    &&& page_size >= 1
                    &&& state.page >= 1
                    &&& (state.page - 1) * page_size < n
                    &&& views_of(docs@) == docs_of(page_of(active, state.page as int, page_size as int))
                    &&& index@ == upsert_all(Map::empty(), docs_of(active.take((state.page - 1) * page_size)))
                },
                ReindexAction::Finish(r) => {
                    &&& r is Ok
                    &&& page_size >= 1 ==> index@ == upsert_all(Map::empty(), docs_of(active))
                    &&& page_size == 0 ==> index@ == Map::<u128, DocView>::empty()
                },
            },
        decreases remaining(state, action, n),
    {
        let ghost before_state = state;
        let ghost before_action = remaining(state, action, n);
        let event = match action {
            ReindexAction::ClearIndex => {
                index.delete_all();
                proof {
                    assert(active.take(0) =~= Seq::<ProductEntity>::empty());
                    assert(docs_of(active.take(0)) =~= Seq::<DocView>::empty());
                    lemma_upsert_none(Map::empty(), docs_of(active.take(0)));
                    assert(scanned(1, page_size as int, n) == 0);
                }
                ReindexEvent::Cleared
            },
            ReindexAction::FetchPage { page, limit } => {
                let products = catalog.list_page(page, limit, true);
                proof {
                    let c = (page - 1) * page_size;
                    if products@.len() == 0 {
                        if page_size >= 1 {
                            assert(c >= n);
                            assert(active.take(n) =~= active);
                        } else {
                            assert(c == 0) by (nonlinear_arith)
                                requires
                                    page_size == 0,
                                    c == (page - 1) * page_size,
                            ;
                            assert(docs_of(active.take(0)) =~= Seq::<DocView>::empty());
                            lemma_upsert_none(Map::empty(), docs_of(active.take(0)));
                        }
                    } else {
                        assert(page_size >= 1);
                        assert(c < n);
                        assert(docs_of(products@).len() == products@.len());
                    }
                    assert(scanned(page as int, page_size as int, n) <= n);
                }
                ReindexEvent::PageLoaded(products)
            },
            ReindexAction::PushBatch(docs) => {
                let ghost w = page_of(active, state.page as int, page_size as int);
                let ghost docs_len = docs@.len();
                proof {
                    assert(views_of(docs@).len() == docs_len);
                    assert(docs_of(w).len() == w.len());
                }
                index.upsert_documents(docs);
                proof {
                    lemma_push_page(active, state.page as int, page_size as int);
                    assert(before_action == 2 * (n - (state.page - 1) * page_size - w.len()) + 3);
                    let p = state.page as int;
                    let c2 = (p - 1) * page_size + w.len();
                    if p < usize::MAX {
                        assert(p * page_size == ((p + 1) - 1) * page_size);
                        assert(scanned(p + 1, page_size as int, n) == c2);
                    } else {
                        assert(p * page_size >= p) by (nonlinear_arith)
                            requires
                                page_size >= 1,
                                p >= 1,
                        ;
                        assert(c2 == n);
                        assert(active.take(n) =~= active);
                    }
                }
                ReindexEvent::BatchPushed
            },
            ReindexAction::Finish(r) => {
                return r;
            },
        };
        let next = state.step(event);
        state = next.0;
        action = next.1;
        proof {
            assert(remaining(state, action, n) < before_action);
        }
    }
}

} // verus!
