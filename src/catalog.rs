//! Products: the authoritative catalog records, how requests create and patch them, and the
//! paged listing that a full reindex scans.

use crate::money::Money;
use vstd::prelude::*;

verus! {

/// A product as the catalog store holds it. Timestamps are microseconds since the Unix epoch;
/// the aggregate rating stays with the store adapter.
#[derive(Debug, PartialEq, Eq)]
pub struct ProductEntity {
    pub id: u128,
    pub category_id: u128,
    pub name: String,
    pub description: Option<String>,
    pub price: Money,
    pub stock: i32,
    pub review_count: i32,
    pub is_active: bool,
    pub created_at: i64,
    pub updated_at: Option<i64>,
}

/// The fields of a new product.
#[derive(Debug, PartialEq, Eq)]
pub struct ProductRequest {
    pub category_id: u128,
    pub name: String,
    pub description: Option<String>,
    pub is_active: Option<bool>,
    pub price: Money,
    pub stock: i32,
}

/// A patch: each field given replaces the stored one, each field left out keeps it.
#[derive(Debug, PartialEq, Eq)]
pub struct UpdateProductRequest {
    pub category_id: Option<u128>,
    pub name: Option<String>,
    pub description: Option<String>,
    pub is_active: Option<bool>,
    pub price: Option<Money>,
    pub stock: Option<i32>,
}

/// A copy of an optional string.
pub fn copy_text(s: &Option<String>) -> (r: Option<String>)
    ensures
        r == *s,
{
    match s {
        Some(t) => Some(t.clone()),
        None => None,
    }
}

impl ProductEntity {
    /// A field-by-field copy.
    pub fn duplicate(&self) -> (r: ProductEntity)
        ensures
            r == *self,
    {
        ProductEntity {
            id: self.id,
            category_id: self.category_id,
            name: self.name.clone(),
            description: copy_text(&self.description),
            price: self.price,
            stock: self.stock,
            review_count: self.review_count,
            is_active: self.is_active,
            created_at: self.created_at,
            updated_at: self.updated_at,
        }
    }
}

/// Relies on uuid's `Uuid::new_v4`, read back with `Uuid::as_u128`: a random identifier.
#[verifier::external_body]
pub(crate) fn new_id() -> (r: u128) {
    uuid::Uuid::new_v4().as_u128()
}

/// A new product from its request: active unless the request says otherwise, no reviews yet,
/// created at `now`, never updated.
pub fn new_product(req: ProductRequest, id: u128, now: i64) -> (r: ProductEntity)
    ensures
        r == (ProductEntity {
            id,
            category_id: req.category_id,
            name: req.name,
            description: req.description,
            price: req.price,
            stock: req.stock,
            review_count: 0,
            is_active: match req.is_active {
                Some(b) => b,
                None => true,
            },
            created_at: now,
            updated_at: None,
        }),
{
    let is_active = match req.is_active {
        Some(b) => b,
        None => true,
    };
    ProductEntity {
        id,
        category_id: req.category_id,
        name: req.name,
        description: req.description,
        price: req.price,
        stock: req.stock,
        review_count: 0,
        is_active,
        created_at: now,
        updated_at: None,
    }
}

/// Products for a bulk creation, one per request in order, each under a fresh random id and
/// all created at `now`.
pub fn prepare_bulk(requests: Vec<ProductRequest>, now: i64) -> (r: Vec<ProductEntity>)
    ensures
        r@.len() == requests@.len(),
        forall|i: int| #![auto] 0 <= i < r@.len() ==> r@[i] == (ProductEntity {
            id: r@[i].id,
            category_id: requests@[i].category_id,
            name: requests@[i].name,
            description: requests@[i].description,
            price: requests@[i].price,
            stock: requests@[i].stock,
            review_count: 0,
            is_active: match requests@[i].is_active {
                Some(b) => b,
                None => true,
            },
            created_at: now,
            updated_at: None,
        }),
{
    let ghost reqs = requests@;
    let mut out: Vec<ProductEntity> = Vec::new();
    let n = requests.len();
    let mut i: usize = 0;
    while i < n
        invariant
            n == reqs.len(),
            reqs == requests@,
            i <= n,
            out@.len() == i,
            forall|j: int| #![auto] 0 <= j < i ==> out@[j] == (ProductEntity {
                id: out@[j].id,
                category_id: reqs[j].category_id,
                name: reqs[j].name,
                description: reqs[j].description,
                price: reqs[j].price,
                stock: reqs[j].stock,
                review_count: 0,
                is_active: match reqs[j].is_active {
                    Some(b) => b,
                    None => true,
                },
                created_at: now,
                updated_at: None,
            }),
        decreases n - i,
    {
        let req = &requests[i];
        let copy = ProductRequest {
            category_id: req.category_id,
            name: req.name.clone(),
            description: copy_text(&req.description),
            is_active: req.is_active,
            price: req.price,
            stock: req.stock,
        };
        let id = new_id();
        out.push(new_product(copy, id, now));
        i = i + 1;
    }
    out
}

/// The product after a patch taken at `now`.
pub fn apply_update(p: ProductEntity, req: UpdateProductRequest, now: i64) -> (r: ProductEntity)
    ensures
        r.id == p.id,
        r.category_id == (match req.category_id { Some(v) => v, None => p.category_id }),
        r.name == (match req.name { Some(v) => v, None => p.name }),
        r.description == (match req.description { Some(v) => Some(v), None => p.description }),
        r.price == (match req.price { Some(v) => v, None => p.price }),
        r.stock == (match req.stock { Some(v) => v, None => p.stock }),
        r.is_active == (match req.is_active { Some(v) => v, None => p.is_active }),
        r.review_count == p.review_count,
        r.created_at == p.created_at,
        r.updated_at == Some(now),
{
    ProductEntity {
        id: p.id,
        category_id: match req.category_id { Some(v) => v, None => p.category_id },
        name: match req.name { Some(v) => v, None => p.name },
        description: match req.description { Some(v) => Some(v), None => p.description },
        price: match req.price { Some(v) => v, None => p.price },
        stock: match req.stock { Some(v) => v, None => p.stock },
        is_active: match req.is_active { Some(v) => v, None => p.is_active },
        review_count: p.review_count,
        created_at: p.created_at,
        updated_at: Some(now),
    }
}

/// The products whose activity flag is `flag`, in catalog order.
pub open spec fn with_flag(s: Seq<ProductEntity>, flag: bool) -> Seq<ProductEntity>
    decreases s.len(),
{
    if s.len() == 0 {
        Seq::empty()
    } else if s.last().is_active == flag {
        with_flag(s.drop_last(), flag).push(s.last())
    } else {
        with_flag(s.drop_last(), flag)
    }
}

/// The records after soft-deleting `id`: each record with that id is marked inactive.
pub open spec fn soft_deleted(s: Seq<ProductEntity>, id: u128) -> Seq<ProductEntity> {
    s.map_values(
        |p: ProductEntity|
            if p.id == id {
                ProductEntity { is_active: false, ..p }
            } else {
                p
            },
    )
}

/// Each record kept by `with_flag` comes from the input and carries the flag.
pub proof fn lemma_with_flag_members(s: Seq<ProductEntity>, flag: bool)
    ensures
        forall|k: int|
            0 <= k < with_flag(s, flag).len() ==> (#[trigger] with_flag(s, flag)[k]).is_active == flag
                && exists|j: int| 0 <= j < s.len() && s[j] == with_flag(s, flag)[k],
    decreases s.len(),
{
    if s.len() > 0 {
        let t = s.drop_last();
        lemma_with_flag_members(t, flag);
        assert forall|k: int| 0 <= k < with_flag(s, flag).len() implies (#[trigger] with_flag(s, flag)[k]).is_active == flag
            && exists|j: int| 0 <= j < s.len() && s[j] == with_flag(s, flag)[k] by {
            if k < with_flag(t, flag).len() {
                assert(with_flag(s, flag)[k] == with_flag(t, flag)[k]);
                let j = choose|j: int| 0 <= j < t.len() && t[j] == with_flag(t, flag)[k];
                assert(s[j] == t[j]);
            } else {
                assert(s[s.len() - 1] == with_flag(s, flag)[k]);
            }
        }
    }
}

/// Page `page` (counted from 1) of `limit` items: empty for page 0 or past the end.
pub open spec fn page_of<T>(s: Seq<T>, page: int, limit: int) -> Seq<T> {
    let offset = (page - 1) * limit;
    if page < 1 || limit < 1 || offset >= s.len() {
        Seq::empty()
    } else if offset + limit <= s.len() {
        s.subrange(offset, offset + limit)
    } else {
        s.subrange(offset, s.len() as int)
    }
}

/// The catalog store's records in creation order.
#[derive(Debug, PartialEq, Eq)]
pub struct Catalog {
    pub products: Vec<ProductEntity>,
}

impl Catalog {
    pub fn new() -> (r: Catalog)
        ensures
            r.products@ == Seq::<ProductEntity>::empty(),
    {
        Catalog { products: Vec::new() }
    }

    /// Soft-deletes product `id`: every record with that id is marked inactive, nothing is
    /// removed. Tells whether such a record was found.
    pub fn soft_delete(&mut self, id: u128) -> (r: bool)
        ensures
            final(self).products@ == soft_deleted(old(self).products@, id),
            r == exists|i: int| 0 <= i < old(self).products@.len() && old(self).products@[i].id == id,
    {
        let n = self.products.len();
        let mut found = false;
        let mut i: usize = 0;
        while i < n
            invariant
                n == self.products@.len(),
                n == old(self).products@.len(),
                i <= n,
                forall|j: int| #![auto] 0 <= j < n ==> self.products@[j] == if j < i {
                    soft_deleted(old(self).products@, id)[j]
                } else {
                    old(self).products@[j]
                },
                found == exists|j: int| 0 <= j < i && old(self).products@[j].id == id,
            decreases n - i,
        {
            if self.products[i].id == id {
                let p = self.products[i].duplicate();
                self.products.set(i, ProductEntity { is_active: false, ..p });
                found = true;
            }
            i = i + 1;
        }
        proof {
            assert(self.products@ =~= soft_deleted(old(self).products@, id));
        }
        found
    }

    /// Page `page` (from 1) of `limit` products whose activity flag is `is_active`, in creation
    /// order.
    pub fn list_page(&self, page: usize, limit: usize, is_active: bool) -> (r: Vec<ProductEntity>)
        ensures
            r@ == page_of(with_flag(self.products@, is_active), page as int, limit as int),
    {
        let ghost s = self.products@;
        let mut selected: Vec<ProductEntity> = Vec::new();
        let n = self.products.len();
        let mut i: usize = 0;
        while i < n
            invariant
                n == s.len(),
                s == self.products@,
                i <= n,
                selected@ == with_flag(s.take(i as int), is_active),
            decreases n - i,
        {
            proof {
                assert(s.take(i + 1).drop_last() =~= s.take(i as int));
            }
            if self.products[i].is_active == is_active {
                selected.push(self.products[i].duplicate());
            }
            i = i + 1;
        }
        proof {
            assert(s.take(n as int) =~= s);
        }
        let ghost all = selected@;
        let total = selected.len();
        if page == 0 || limit == 0 {
            return Vec::new();
        }
        let offset = match (page - 1).checked_mul(limit) {
            Some(o) => o,
            None => {
                return Vec::new();
            },
        };
        if offset >= total {
            return Vec::new();
        }
        let end = if limit <= total - offset { offset + limit } else { total };
        let mut out: Vec<ProductEntity> = Vec::new();
        let mut k: usize = offset;
        while k < end
            invariant
                selected@ == all,
                offset <= k <= end <= all.len(),
                out@ == all.subrange(offset as int, k as int),
            decreases end - k,
        {
            out.push(selected[k].duplicate());
            proof {
                assert(all.subrange(offset as int, k + 1) =~= all.subrange(offset as int, k as int).push(all[k as int]));
            }
            k = k + 1;
        }
        proof {
            assert(offset as int == (page as int - 1) * limit as int);
            if offset + limit <= all.len() {
                assert(end == offset + limit);
            } else {
                assert(end == all.len());
            }
        }
        out
    }
}

} // verus!
