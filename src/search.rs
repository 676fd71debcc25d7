//! Search documents, the commands that keep the search index in step with the catalog, and the
//! document set that those commands leave in the index.

use crate::catalog::ProductEntity;
use crate::error::AppError;
use crate::money::Money;
use std::collections::HashMap;
use vstd::prelude::*;

verus! {

broadcast use vstd::std_specs::hash::group_hash_axioms;

/// The projection of a product that the search index stores, keyed by the product id.
#[derive(Debug, PartialEq, Eq)]
pub struct ProductSearchDocument {
    pub id: u128,
    pub name: String,
    pub description: String,
    pub price: Money,
    pub category_id: u128,
    pub image_url: Option<String>,
}

/// The name of the index that holds product documents.
pub const INDEX_NAME: &'static str = "products";

/// The name of the document field that keys the index.
pub const PRIMARY_KEY: &'static str = "id";

impl ProductSearchDocument {
    /// A field-by-field copy.
    pub fn duplicate(&self) -> (r: ProductSearchDocument)
        ensures
            r == *self,
    {
        ProductSearchDocument {
            id: self.id,
            name: self.name.clone(),
            description: self.description.clone(),
            price: self.price,
            category_id: self.category_id,
            image_url: crate::catalog::copy_text(&self.image_url),
        }
    }
}

/// A search document as plain values.
pub struct DocView {
    pub id: u128,
    pub name: Seq<char>,
    pub description: Seq<char>,
    pub price: Money,
    pub category_id: u128,
    pub image_url: Option<Seq<char>>,
}

impl View for ProductSearchDocument {
    type V = DocView;

    open spec fn view(&self) -> DocView {
        DocView {
            id: self.id,
            name: self.name@,
            description: self.description@,
            price: self.price,
            category_id: self.category_id,
            image_url: match self.image_url {
                Some(u) => Some(u@),
                None => None,
            },
        }
    }
}

/// The document of a product: an absent description becomes the empty string, and there is no
/// image.
pub open spec fn doc_of(p: ProductEntity) -> DocView {
    DocView {
        id: p.id,
        name: p.name@,
        description: match p.description {
            Some(d) => d@,
            None => Seq::empty(),
        },
        price: p.price,
        category_id: p.category_id,
        image_url: None,
    }
}

pub open spec fn docs_of(s: Seq<ProductEntity>) -> Seq<DocView> {
    s.map_values(|p: ProductEntity| doc_of(p))
}

pub open spec fn views_of(s: Seq<ProductSearchDocument>) -> Seq<DocView> {
    s.map_values(|d: ProductSearchDocument| d@)
}

/// The index after adding or replacing each document of `batch` in turn, keyed by id.
pub open spec fn upsert_all(m: Map<u128, DocView>, batch: Seq<DocView>) -> Map<u128, DocView>
    decreases batch.len(),
{
    if batch.len() == 0 {
        m
    } else {
        upsert_all(m, batch.drop_last()).insert(batch.last().id, batch.last())
    }
}

/// Converts a product to its search document.
pub fn to_search_document(p: &ProductEntity) -> (r: ProductSearchDocument)
    ensures
        r@ == doc_of(*p),
{
    let description = match &p.description {
        Some(d) => d.clone(),
        None => String::new(),
    };
    ProductSearchDocument {
        id: p.id,
        name: p.name.clone(),
        description,
        price: p.price,
        category_id: p.category_id,
        image_url: None,
    }
}

/// Converts products to search documents, in order.
pub fn to_search_documents(products: &Vec<ProductEntity>) -> (r: Vec<ProductSearchDocument>)
    ensures
        views_of(r@) == docs_of(products@),
{
    let mut out: Vec<ProductSearchDocument> = Vec::new();
    let n = products.len();
    let mut i: usize = 0;
    while i < n
        invariant
            n == products@.len(),
            i <= n,
            out@.len() == i,
            views_of(out@) == docs_of(products@.take(i as int)),
        decreases n - i,
    {
        let ghost before = out@;
        out.push(to_search_document(&products[i]));
        proof {
            let next = products@.take(i + 1);
            assert forall|j: int| 0 <= j < i + 1 implies views_of(out@)[j] == docs_of(next)[j] by {
                if j < i {
                    assert(out@[j] == before[j]);
                    assert(views_of(before)[j] == docs_of(products@.take(i as int))[j]);
                    assert(next[j] == products@.take(i as int)[j]);
                }
            }
            assert(views_of(out@) =~= docs_of(next));
        }
        i = i + 1;
    }
    proof {
        assert(products@.take(n as int) =~= products@);
    }
    out
}

/// What the synchronizer asks of the search index.
#[derive(Debug, PartialEq, Eq)]
pub enum IndexCommand {
    /// Add each document, replacing any with the same id.
    Upsert(Vec<ProductSearchDocument>),
    /// Remove the document with this id, if any.
    Delete(u128),
    /// Remove every document, and wait until the index confirms.
    DeleteAll,
}

/// The command that brings a created or updated product into the index.
pub fn sync_upsert(p: &ProductEntity) -> (r: IndexCommand)
    ensures
        r matches IndexCommand::Upsert(batch) && views_of(batch@) == seq![doc_of(*p)],
{
    let mut batch: Vec<ProductSearchDocument> = Vec::new();
    batch.push(to_search_document(p));
    proof {
        assert(views_of(batch@) =~= seq![doc_of(*p)]);
    }
    IndexCommand::Upsert(batch)
}

/// The command that takes a soft-deleted product out of the index.
pub fn sync_delete(id: u128) -> (r: IndexCommand)
    ensures
        r == IndexCommand::Delete(id),
{
    IndexCommand::Delete(id)
}

/// The command that brings a batch of products, created together, into the index.
pub fn bulk_sync(products: &Vec<ProductEntity>) -> (r: IndexCommand)
    ensures
        r matches IndexCommand::Upsert(batch) && views_of(batch@) == docs_of(products@),
{
    IndexCommand::Upsert(to_search_documents(products))
}

/// The outcome of a catalog write once its incidental index sync has run: a sync failure is
/// dropped, since the catalog write has already committed and the index is a derived view.
pub fn settle_sync<T>(written: Result<T, AppError>, synced: Result<(), AppError>) -> (r: Result<T, AppError>)
    ensures
        r == written,
{
    written
}

/// The documents held by a search index, by id: the effect of each command.
pub struct DocumentIndex {
    docs: HashMap<u128, ProductSearchDocument>,
}

impl View for DocumentIndex {
    type V = Map<u128, DocView>;

    closed spec fn view(&self) -> Map<u128, DocView> {
        Map::new(|k: u128| self.docs@.contains_key(k), |k: u128| self.docs@[k]@)
    }
}

impl DocumentIndex {
    /// Each document is stored under its own id.
    pub closed spec fn wf(&self) -> bool {
        forall|k: u128| #[trigger] self.docs@.contains_key(k) ==> self.docs@[k].id == k
    }

    pub fn new() -> (r: DocumentIndex)
        ensures
            r.wf(),
            r@ == Map::<u128, DocView>::empty(),
    {
        let r = DocumentIndex { docs: HashMap::new() };
        proof {
            assert(r@ =~= Map::<u128, DocView>::empty());
        }
        r
    }

    /// Adds or replaces each document of `batch` in turn.
    pub fn upsert_documents(&mut self, batch: Vec<ProductSearchDocument>)
        requires
            old(self).wf(),
        ensures
            final(self).wf(),
            final(self)@ == upsert_all(old(self)@, views_of(batch@)),
    {
        let n = batch.len();
        let mut i: usize = 0;
        while i < n
            invariant
                n == batch@.len(),
                i <= n,
                self.wf(),
                self@ == upsert_all(old(self)@, views_of(batch@.take(i as int))),
            decreases n - i,
        {
            let d = batch[i].duplicate();
            let ghost before = self@;
            self.docs.insert(d.id, d);
            proof {
                let t = views_of(batch@.take(i + 1));
                assert(t.drop_last() =~= views_of(batch@.take(i as int)));
                assert(t.last() == batch@[i as int]@);
                assert(self@ =~= before.insert(d.id, d@));
            }
            i = i + 1;
        }
        proof {
            assert(batch@.take(n as int) =~= batch@);
        }
    }

    /// Removes the document with id `id`, if there is one.
    pub fn delete_document(&mut self, id: u128)
        requires
            old(self).wf(),
        ensures
            final(self).wf(),
            final(self)@ == old(self)@.remove(id),
    {
        self.docs.remove(&id);
        proof {
            assert(self@ =~= old(self)@.remove(id));
        }
    }

    /// Removes every document.
    pub fn delete_all(&mut self)
        ensures
            final(self).wf(),
            final(self)@ == Map::<u128, DocView>::empty(),
    {
        self.docs.clear();
        proof {
            assert(self@ =~= Map::<u128, DocView>::empty());
        }
    }

    /// Carries out one command.
    pub fn apply(&mut self, command: IndexCommand)
        requires
            old(self).wf(),
        ensures
            final(self).wf(),
            final(self)@ == match command {
                IndexCommand::Upsert(batch) => upsert_all(old(self)@, views_of(batch@)),
                IndexCommand::Delete(id) => old(self)@.remove(id),
                IndexCommand::DeleteAll => Map::empty(),
            },
    {
        match command {
            IndexCommand::Upsert(batch) => self.upsert_documents(batch),
            IndexCommand::Delete(id) => self.delete_document(id),
            IndexCommand::DeleteAll => self.delete_all(),
        }
    }

    /// The document stored under `id`.
    pub fn get(&self, id: u128) -> (r: Option<&ProductSearchDocument>)
        requires
            self.wf(),
        ensures
            match r {
                Some(d) => self@.contains_key(id) && d@ == self@[id],
                None => !self@.contains_key(id),
            },
    {
        self.docs.get(&id)
    }

    /// How many documents the index holds.
    pub fn len(&self) -> (r: usize)
        ensures
            r == self@.len(),
    {
        proof {
            assert(self@.dom() =~= self.docs@.dom());
        }
        self.docs.len()
    }
}

/// Syncing the same product twice leaves the index as syncing it once did: one document, under
/// the product's id, holding the product's projection.
pub proof fn lemma_sync_upsert_idempotent(m: Map<u128, DocView>, p: ProductEntity)
    ensures
        ({
            let once = upsert_all(m, seq![doc_of(p)]);
            &&& upsert_all(once, seq![doc_of(p)]) == once
            &&& once.contains_key(p.id)
            &&& once[p.id] == doc_of(p)
            &&& once.remove(p.id) == m.remove(p.id)
        }),
{
    let d = seq![doc_of(p)];
    assert(d.drop_last() =~= Seq::<DocView>::empty());
    assert(d.last() == doc_of(p));
    assert(upsert_all(m, d.drop_last()) == m);
    let once = upsert_all(m, d);
    assert(upsert_all(once, d.drop_last()) == once);
    assert(once == m.insert(p.id, doc_of(p)));
    assert(upsert_all(once, d) == once.insert(p.id, doc_of(p)));
    assert(once.insert(p.id, doc_of(p)) =~= once);
    assert(once.remove(p.id) =~= m.remove(p.id));
}

} // verus!
