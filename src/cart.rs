//! The per-user cart: line-item merging, absolute quantity updates and removal.

use crate::error::AppError;
use vstd::prelude::*;

verus! {

/// One line of a cart: a product and how many of it.
#[derive(Clone, Copy, Debug, PartialEq, Eq, Structural)]
pub struct CartItem {
    pub item_id: u128,
    pub product_id: u128,
    pub quantity: i32,
}

/// A user's cart. Its lines keep the order in which products were first added.
#[derive(Clone, Debug, PartialEq, Eq)]
pub struct Cart {
    pub id: u128,
    pub user_id: u128,
    pub items: Vec<CartItem>,
}

/// Every quantity is positive, and no two lines share a product or an item id.
pub open spec fn lines_wf(s: Seq<CartItem>) -> bool {
    &&& forall|i: int| 0 <= i < s.len() ==> s[i].quantity > 0
    &&& forall|i: int, j: int|
        0 <= i < j < s.len() ==> s[i].product_id != s[j].product_id && s[i].item_id != s[j].item_id
}

pub open spec fn has_product(s: Seq<CartItem>, product_id: u128) -> bool {
    exists|i: int| 0 <= i < s.len() && s[i].product_id == product_id
}

pub open spec fn has_item(s: Seq<CartItem>, item_id: u128) -> bool {
    exists|i: int| 0 <= i < s.len() && s[i].item_id == item_id
}

/// The position of the line holding `product_id` (meaningful when there is one).
pub open spec fn product_index(s: Seq<CartItem>, product_id: u128) -> int {
    choose|i: int| 0 <= i < s.len() && s[i].product_id == product_id
}

/// The position of the line with id `item_id` (meaningful when there is one).
pub open spec fn item_index(s: Seq<CartItem>, item_id: u128) -> int {
    choose|i: int| 0 <= i < s.len() && s[i].item_id == item_id
}

/// How many of `product_id` the lines hold (zero when none does).
pub open spec fn quantity_of(s: Seq<CartItem>, product_id: u128) -> int {
    if has_product(s, product_id) {
        s[product_index(s, product_id)].quantity as int
    } else {
        0
    }
}

/// How many lines hold `product_id`.
pub open spec fn count_product(s: Seq<CartItem>, product_id: u128) -> nat
    decreases s.len(),
{
    if s.len() == 0 {
        0
    } else {
        count_product(s.drop_last(), product_id) + if s.last().product_id == product_id {
            1nat
        } else {
            0nat
        }
    }
}

/// Whether adding `quantity` of `product_id` goes through: the quantity is positive, the merged
/// quantity fits, and a new line's id is not taken.
pub open spec fn add_accepted(s: Seq<CartItem>, product_id: u128, quantity: i32, fresh_item_id: u128) -> bool {
    &&& quantity > 0
    &&& quantity_of(s, product_id) + quantity <= i32::MAX
    &&& !has_product(s, product_id) ==> !has_item(s, fresh_item_id)
}

/// The lines after adding `quantity` of `product_id`: an existing line grows by `quantity`,
/// otherwise a new line is appended.
pub open spec fn added(s: Seq<CartItem>, product_id: u128, quantity: i32, fresh_item_id: u128) -> Seq<CartItem> {
    if has_product(s, product_id) {
        let k = product_index(s, product_id);
        s.update(
            k,
            CartItem {
                item_id: s[k].item_id,
                product_id,
                quantity: (s[k].quantity + quantity) as i32,
            },
        )
    } else {
        s.push(CartItem { item_id: fresh_item_id, product_id, quantity })
    }
}

proof fn lemma_product_index(s: Seq<CartItem>, product_id: u128, k: int)
    requires
        lines_wf(s),
        0 <= k < s.len(),
        s[k].product_id == product_id,
    ensures
        has_product(s, product_id),
        product_index(s, product_id) == k,
{
    assert(has_product(s, product_id));
    let j = product_index(s, product_id);
    assert(0 <= j < s.len() && s[j].product_id == product_id);
    if j < k {
        assert(s[j].product_id != s[k].product_id);
    } else if k < j {
        assert(s[k].product_id != s[j].product_id);
    }
}

proof fn lemma_item_index(s: Seq<CartItem>, item_id: u128, k: int)
    requires
        lines_wf(s),
        0 <= k < s.len(),
        s[k].item_id == item_id,
    ensures
        has_item(s, item_id),
        item_index(s, item_id) == k,
{
    assert(has_item(s, item_id));
    let j = item_index(s, item_id);
    assert(0 <= j < s.len() && s[j].item_id == item_id);
    if j < k {
        assert(s[j].item_id != s[k].item_id);
    } else if k < j {
        assert(s[k].item_id != s[j].item_id);
    }
}

/// Well-formed lines hold each product at most once.
pub proof fn lemma_count_product(s: Seq<CartItem>, product_id: u128)
    requires
        lines_wf(s),
    ensures
        count_product(s, product_id) == if has_product(s, product_id) {
            1nat
        } else {
            0nat
        },
    decreases s.len(),
{
    if s.len() > 0 {
        let t = s.drop_last();
        assert(lines_wf(t)) by {
            assert forall|i: int, j: int| 0 <= i < j < t.len() implies t[i].product_id
                != t[j].product_id && t[i].item_id != t[j].item_id by {
                assert(t[i] == s[i] && t[j] == s[j]);
            }
        }
        lemma_count_product(t, product_id);
        if s.last().product_id == product_id {
            if has_product(t, product_id) {
                let j = choose|j: int| 0 <= j < t.len() && t[j].product_id == product_id;
                assert(s[j].product_id != s[s.len() - 1].product_id);
            }
        } else {
            if has_product(s, product_id) {
                let j = choose|j: int| 0 <= j < s.len() && s[j].product_id == product_id;
                assert(t[j] == s[j]);
            }
        }
        if has_product(t, product_id) {
            let j = choose|j: int| 0 <= j < t.len() && t[j].product_id == product_id;
            assert(s[j] == t[j]);
        }
    }
}

/// Adding keeps the lines well formed.
proof fn lemma_added_wf(s: Seq<CartItem>, product_id: u128, quantity: i32, fresh_item_id: u128)
    requires
        lines_wf(s),
        add_accepted(s, product_id, quantity, fresh_item_id),
    ensures
        lines_wf(added(s, product_id, quantity, fresh_item_id)),
{
    let t = added(s, product_id, quantity, fresh_item_id);
    if has_product(s, product_id) {
        let k = product_index(s, product_id);
        assert forall|i: int, j: int| 0 <= i < j < t.len() implies t[i].product_id
            != t[j].product_id && t[i].item_id != t[j].item_id by {
            assert(s[i].product_id != s[j].product_id && s[i].item_id != s[j].item_id);
        }
    } else {
        assert forall|i: int, j: int| 0 <= i < j < t.len() implies t[i].product_id
            != t[j].product_id && t[i].item_id != t[j].item_id by {
            if j == s.len() {
                assert(s[i].product_id != product_id);
                assert(s[i].item_id != fresh_item_id);
            } else {
                assert(s[i].product_id != s[j].product_id && s[i].item_id != s[j].item_id);
            }
        }
    }
}

impl Cart {
    pub open spec fn wf(&self) -> bool {
        lines_wf(self.items@)
    }

    /// An empty cart.
    pub fn new(id: u128, user_id: u128) -> (r: Cart)
        ensures
            r.id == id,
            r.user_id == user_id,
            r.items@ == Seq::<CartItem>::empty(),
            r.wf(),
    {
        Cart { id, user_id, items: Vec::new() }
    }

    /// Adds `quantity` of `product_id`. A product already in the cart has its quantity raised
    /// by `quantity` rather than getting a second line; otherwise a new line with id
    /// `fresh_item_id` is appended. A non-positive quantity, a merged quantity beyond `i32`, or
    /// a taken `fresh_item_id` is rejected and the cart left as it was.
    pub fn add_item(&mut self, product_id: u128, quantity: i32, fresh_item_id: u128) -> (r: Result<(), AppError>)
        requires
            old(self).wf(),
        ensures
            final(self).wf(),
            final(self).id == old(self).id,
            final(self).user_id == old(self).user_id,
            r is Ok <==> add_accepted(old(self).items@, product_id, quantity, fresh_item_id),
            r is Ok ==> final(self).items@ == added(old(self).items@, product_id, quantity, fresh_item_id),
            r is Err ==> *final(self) == *old(self),
            quantity <= 0 ==> r matches Err(AppError::ValidationError(_)),
            quantity > 0 && quantity_of(old(self).items@, product_id) + quantity > i32::MAX
                ==> r matches Err(AppError::ValidationError(_)),
            quantity > 0 && !has_product(old(self).items@, product_id) && has_item(old(self).items@, fresh_item_id)
                ==> r matches Err(AppError::InternalServerError(_)),
    {
        if quantity <= 0 {
            return Err(AppError::ValidationError("Quantity must be greater than zero".to_owned()));
        }
        let n = self.items.len();
        let mut i: usize = 0;
        while i < n
            invariant
                n == self.items.len(),
                *self == *old(self),
                self.wf(),
                i <= n,
                quantity > 0,
                forall|j: int| 0 <= j < i ==> self.items@[j].product_id != product_id,
            decreases n - i,
        {
            if self.items[i].product_id == product_id {
                proof {
                    lemma_product_index(self.items@, product_id, i as int);
                }
                let current = self.items[i];
                assert(current.quantity > 0);
                if current.quantity > i32::MAX - quantity {
                    return Err(AppError::ValidationError("Quantity is too large".to_owned()));
                }
                let merged = CartItem {
                    item_id: current.item_id,
                    product_id,
                    quantity: current.quantity + quantity,
                };
                self.items.set(i, merged);
                proof {
                    lemma_added_wf(old(self).items@, product_id, quantity, fresh_item_id);
                }
                return Ok(());
            }
            i = i + 1;
        }
        let mut j: usize = 0;
        while j < n
            invariant
                n == self.items.len(),
                *self == *old(self),
                j <= n,
                quantity > 0,
                self.wf(),
                forall|k: int| 0 <= k < n ==> self.items@[k].product_id != product_id,
                forall|k: int| 0 <= k < j ==> self.items@[k].item_id != fresh_item_id,
            decreases n - j,
        {
            if self.items[j].item_id == fresh_item_id {
                return Err(AppError::InternalServerError("Cart item id already in use".to_owned()));
            }
            j = j + 1;
        }
        self.items.push(CartItem { item_id: fresh_item_id, product_id, quantity });
        proof {
            lemma_added_wf(old(self).items@, product_id, quantity, fresh_item_id);
        }
        Ok(())
    }

    /// Sets the quantity of line `item_id` to `quantity` (not additive). A non-positive
    /// quantity is rejected, and a line that is not in the cart is not found; either way the
    /// cart is left as it was.
    pub fn update_item(&mut self, item_id: u128, quantity: i32) -> (r: Result<(), AppError>)
        requires
            old(self).wf(),
        ensures
            final(self).wf(),
            final(self).id == old(self).id,
            final(self).user_id == old(self).user_id,
            quantity <= 0 ==> r matches Err(AppError::ValidationError(_)),
            quantity > 0 && !has_item(old(self).items@, item_id) ==> r matches Err(AppError::NotFound(_)),
            r is Ok <==> quantity > 0 && has_item(old(self).items@, item_id),
            r is Ok ==> ({
                let s = old(self).items@;
                let k = item_index(s, item_id);
                final(self).items@ == s.update(
                    k,
                    CartItem { item_id, product_id: s[k].product_id, quantity },
                )
            }),
            r is Err ==> *final(self) == *old(self),
    {
        if quantity <= 0 {
            return Err(AppError::ValidationError("Quantity must be greater than zero".to_owned()));
        }
        let n = self.items.len();
        let mut i: usize = 0;
        while i < n
            invariant
                n == self.items.len(),
                *self == *old(self),
                self.wf(),
                i <= n,
                quantity > 0,
                forall|j: int| 0 <= j < i ==> self.items@[j].item_id != item_id,
            decreases n - i,
        {
            if self.items[i].item_id == item_id {
                proof {
                    lemma_item_index(self.items@, item_id, i as int);
                }
                let current = self.items[i];
                self.items.set(i, CartItem { item_id, product_id: current.product_id, quantity });
                proof {
                    let s = self.items@;
                    assert forall|a: int, b: int| 0 <= a < b < s.len() implies s[a].product_id
                        != s[b].product_id && s[a].item_id != s[b].item_id by {
                        assert(old(self).items@[a].product_id != old(self).items@[b].product_id);
                        assert(old(self).items@[a].item_id != old(self).items@[b].item_id);
                    }
                }
                return Ok(());
            }
            i = i + 1;
        }
        Err(AppError::NotFound("Cart item not found".to_owned()))
    }

    /// Deletes line `item_id`, keeping the order of the others; a line that is not in the cart
    /// is not found and the cart left as it was.
    pub fn remove_item(&mut self, item_id: u128) -> (r: Result<(), AppError>)
        requires
            old(self).wf(),
        ensures
            final(self).wf(),
            final(self).id == old(self).id,
            final(self).user_id == old(self).user_id,
            r is Ok <==> has_item(old(self).items@, item_id),
            r is Ok ==> final(self).items@ == old(self).items@.remove(item_index(old(self).items@, item_id)),
            r is Err ==> *final(self) == *old(self) && r matches Err(AppError::NotFound(_)),
    {
        let n = self.items.len();
        let mut i: usize = 0;
        while i < n
            invariant
                n == self.items.len(),
                *self == *old(self),
                self.wf(),
                i <= n,
                forall|j: int| 0 <= j < i ==> self.items@[j].item_id != item_id,
            decreases n - i,
        {
            if self.items[i].item_id == item_id {
                proof {
                    lemma_item_index(self.items@, item_id, i as int);
                }
                self.items.remove(i);
                proof {
                    let s = self.items@;
                    let o = old(self).items@;
                    assert forall|a: int, b: int| 0 <= a < b < s.len() implies s[a].product_id
                        != s[b].product_id && s[a].item_id != s[b].item_id by {
                        let a2 = if a < i { a } else { a + 1 };
                        let b2 = if b < i { b } else { b + 1 };
                        assert(s[a] == o[a2] && s[b] == o[b2]);
                        assert(o[a2].product_id != o[b2].product_id && o[a2].item_id != o[b2].item_id);
                    }
                    assert forall|a: int| 0 <= a < s.len() implies s[a].quantity > 0 by {
                        let a2 = if a < i { a } else { a + 1 };
                        assert(s[a] == o[a2]);
                    }
                }
                return Ok(());
            }
            i = i + 1;
        }
        Err(AppError::NotFound("Cart item not found".to_owned()))
    }
}

/// Adding the same product twice leaves exactly one line for it, holding the sum of both
/// quantities on top of what the cart held before (nothing, for a product not yet in it);
/// both additions go through when the quantities are positive, the sum fits, and the first
/// line's id is free.
pub proof fn lemma_add_twice_merges(
    s: Seq<CartItem>,
    product_id: u128,
    q1: i32,
    q2: i32,
    id1: u128,
    id2: u128,
)
    requires
        lines_wf(s),
        q1 > 0,
        q2 > 0,
        quantity_of(s, product_id) + q1 + q2 <= i32::MAX,
        !has_product(s, product_id) ==> !has_item(s, id1),
    ensures
        add_accepted(s, product_id, q1, id1),
        add_accepted(added(s, product_id, q1, id1), product_id, q2, id2),
        ({
            let t = added(added(s, product_id, q1, id1), product_id, q2, id2);
            &&& lines_wf(t)
            &&& count_product(t, product_id) == 1
            &&& quantity_of(t, product_id) == quantity_of(s, product_id) + q1 + q2
        }),
{
    let s1 = added(s, product_id, q1, id1);
    lemma_added_wf(s, product_id, q1, id1);
    let k1 = if has_product(s, product_id) {
        product_index(s, product_id)
    } else {
        s.len() as int
    };
    assert(s1[k1].product_id == product_id);
    lemma_product_index(s1, product_id, k1);
    assert(quantity_of(s1, product_id) == quantity_of(s, product_id) + q1);
    let s2 = added(s1, product_id, q2, id2);
    lemma_added_wf(s1, product_id, q2, id2);
    lemma_product_index(s2, product_id, k1);
    lemma_count_product(s2, product_id);
}

} // verus!
