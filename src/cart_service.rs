//! The cart aggregator: one cart per user, created on first access, whose every change is
//! answered with the freshly computed cart view.

use crate::cart::{added, has_item, has_product, item_index, quantity_of, Cart, CartItem};
use crate::cart_view::{amounts_bounded, build_cart_response, prices_wf, shows, sum_quantities, CartItemDetail, CartResponse};
use crate::catalog::{new_id, Catalog, ProductEntity};
use crate::dto::{AddToCartRequest, UpdateCartItemRequest};
use crate::error::AppError;
use vstd::prelude::*;

verus! {

/// The position of the first product with id `id`, or -1.
pub open spec fn find_product(products: Seq<ProductEntity>, id: u128) -> int
    decreases products.len(),
{
    if products.len() == 0 {
        -1
    } else {
        let k = find_product(products.drop_last(), id);
        if k >= 0 {
            k
        } else if products.last().id == id {
            products.len() - 1
        } else {
            -1
        }
    }
}

/// The cart lines joined with their products' names and prices, in line order; a line whose
/// product is not in the catalog is left out.
pub open spec fn joined(lines: Seq<CartItem>, products: Seq<ProductEntity>) -> Seq<CartItemDetail>
    decreases lines.len(),
{
    if lines.len() == 0 {
        Seq::empty()
    } else {
        let rest = joined(lines.drop_last(), products);
        let line = lines.last();
        let k = find_product(products, line.product_id);
        if k >= 0 {
            rest.push(
                CartItemDetail {
                    item_id: line.item_id,
                    product_id: line.product_id,
                    product_name: products[k].name,
                    price: products[k].price,
                    quantity: line.quantity,
                },
            )
        } else {
            rest
        }
    }
}

/// Whether the view of these lines fits: its amounts within a decimal's range and its item
/// count within `i32`.
pub open spec fn view_fits(lines: Seq<CartItem>, products: Seq<ProductEntity>) -> bool {
    &&& amounts_bounded(joined(lines, products))
    &&& i32::MIN <= sum_quantities(joined(lines, products)) <= i32::MAX
}

pub open spec fn catalog_prices_wf(products: Seq<ProductEntity>) -> bool {
    forall|i: int| 0 <= i < products.len() ==> #[trigger] products[i].price.wf()
}

proof fn lemma_find_product(products: Seq<ProductEntity>, id: u128)
    ensures
        -1 <= find_product(products, id) < products.len(),
        find_product(products, id) >= 0 ==> products[find_product(products, id)].id == id,
        find_product(products, id) < 0 ==> forall|j: int| 0 <= j < products.len() ==> products[j].id != id,
        forall|j: int| 0 <= j < find_product(products, id) ==> products[j].id != id,
    decreases products.len(),
{
    if products.len() > 0 {
        let t = products.drop_last();
        lemma_find_product(t, id);
        assert forall|j: int| 0 <= j < t.len() implies t[j] == products[j] by {}
    }
}

proof fn lemma_joined_prices(lines: Seq<CartItem>, products: Seq<ProductEntity>)
    requires
        catalog_prices_wf(products),
    ensures
        prices_wf(joined(lines, products)),
    decreases lines.len(),
{
    if lines.len() > 0 {
        lemma_joined_prices(lines.drop_last(), products);
        lemma_find_product(products, lines.last().product_id);
    }
}

/// The position of `product_id` in the catalog, as `find_product` gives it.
fn locate_product(catalog: &Catalog, product_id: u128) -> (r: Option<usize>)
    ensures
        match r {
            Some(k) => k as int == find_product(catalog.products@, product_id),
            None => find_product(catalog.products@, product_id) < 0,
        },
{
    proof {
        lemma_find_product(catalog.products@, product_id);
    }
    let n = catalog.products.len();
    let mut i: usize = 0;
    while i < n
        invariant
            n == catalog.products@.len(),
            i <= n,
            forall|j: int| 0 <= j < i ==> catalog.products@[j].id != product_id,
            find_product(catalog.products@, product_id) < 0 ==> forall|j: int| 0 <= j < n ==> catalog.products@[j].id != product_id,
            -1 <= find_product(catalog.products@, product_id) < n,
            find_product(catalog.products@, product_id) >= 0 ==> catalog.products@[find_product(catalog.products@, product_id)].id == product_id,
            forall|j: int| 0 <= j < find_product(catalog.products@, product_id) ==> catalog.products@[j].id != product_id,
        decreases n - i,
    {
        if catalog.products[i].id == product_id {
            return Some(i);
        }
        i = i + 1;
    }
    None
}

/// The lines of `cart` joined with the catalog.
pub fn cart_details(cart: &Cart, catalog: &Catalog) -> (r: Vec<CartItemDetail>)
    ensures
        r@ == joined(cart.items@, catalog.products@),
{
    let mut out: Vec<CartItemDetail> = Vec::new();
    let n = cart.items.len();
    let mut i: usize = 0;
    while i < n
        invariant
            n == cart.items@.len(),
            i <= n,
            out@ == joined(cart.items@.take(i as int), catalog.products@),
        decreases n - i,
    {
        let line = cart.items[i];
        proof {
            assert(cart.items@.take(i + 1).drop_last() =~= cart.items@.take(i as int));
            lemma_find_product(catalog.products@, line.product_id);
        }
        match locate_product(catalog, line.product_id) {
            Some(k) => {
                let p = &catalog.products[k];
                out.push(
                    CartItemDetail {
                        item_id: line.item_id,
                        product_id: line.product_id,
                        product_name: p.name.clone(),
                        price: p.price,
                        quantity: line.quantity,
                    },
                );
            },
            None => {},
        }
        i = i + 1;
    }
    proof {
        assert(cart.items@.take(n as int) =~= cart.items@);
    }
    out
}

/// The carts of all users.
pub struct CartService {
    carts: Vec<Cart>,
}

impl CartService {
    /// Every cart is well formed and no user has two.
    pub closed spec fn wf(&self) -> bool {
        &&& forall|i: int| 0 <= i < self.carts@.len() ==> #[trigger] self.carts@[i].wf()
        &&& forall|i: int, j: int| 0 <= i < j < self.carts@.len() ==> self.carts@[i].user_id != self.carts@[j].user_id
    }

    pub closed spec fn has_cart(&self, user_id: u128) -> bool {
        exists|i: int| 0 <= i < self.carts@.len() && self.carts@[i].user_id == user_id
    }

    /// The cart of `user_id` (meaningful when there is one).
    pub closed spec fn cart_of(&self, user_id: u128) -> Cart {
        self.carts@[choose|i: int| 0 <= i < self.carts@.len() && self.carts@[i].user_id == user_id]
    }

    /// The lines in the cart of `user_id`; none when the user has no cart yet.
    pub open spec fn lines_of(&self, user_id: u128) -> Seq<CartItem> {
        if self.has_cart(user_id) {
            self.cart_of(user_id).items@
        } else {
            Seq::empty()
        }
    }

    pub fn new() -> (r: CartService)
        ensures
            r.wf(),
            forall|u: u128| !r.has_cart(u),
    {
        CartService { carts: Vec::new() }
    }

    proof fn lemma_cart_at(&self, user_id: u128, k: int)
        requires
            self.wf(),
            0 <= k < self.carts@.len(),
            self.carts@[k].user_id == user_id,
        ensures
            self.has_cart(user_id),
            self.cart_of(user_id) == self.carts@[k],
    {
        let j = choose|i: int| 0 <= i < self.carts@.len() && self.carts@[i].user_id == user_id;
        if j != k {
            if j < k {
                assert(self.carts@[j].user_id != self.carts@[k].user_id);
            } else {
                assert(self.carts@[k].user_id != self.carts@[j].user_id);
            }
        }
    }

    /// Where the cart of `user_id` stands.
    fn cart_index(&self, user_id: u128) -> (r: Option<usize>)
        requires
            self.wf(),
        ensures
            match r {
                Some(k) => k < self.carts@.len() && self.carts@[k as int].user_id == user_id
                    && self.has_cart(user_id) && self.cart_of(user_id) == self.carts@[k as int],
                None => !self.has_cart(user_id),
            },
    {
        let n = self.carts.len();
        let mut i: usize = 0;
        while i < n
            invariant
                n == self.carts@.len(),
                i <= n,
                self.wf(),
                forall|j: int| 0 <= j < i ==> self.carts@[j].user_id != user_id,
            decreases n - i,
        {
            if self.carts[i].user_id == user_id {
                proof {
                    self.lemma_cart_at(user_id, i as int);
                }
                return Some(i);
            }
            i = i + 1;
        }
        None
    }

    /// The id of the cart of `user_id`, created empty under a fresh random id on first
    /// access. Other users' carts are untouched.
    pub fn get_or_create_cart_id(&mut self, user_id: u128) -> (r: u128)
        requires
            old(self).wf(),
        ensures
            final(self).wf(),
            final(self).has_cart(user_id),
            final(self).cart_of(user_id).id == r,
            old(self).has_cart(user_id) ==> *final(self) == *old(self) && r == old(self).cart_of(user_id).id,
            !old(self).has_cart(user_id) ==> final(self).lines_of(user_id) == Seq::<CartItem>::empty(),
            forall|u: u128| u != user_id ==> final(self).has_cart(u) == old(self).has_cart(u)
                && (old(self).has_cart(u) ==> final(self).cart_of(u) == old(self).cart_of(u)),
    {
        match self.cart_index(user_id) {
            Some(k) => self.carts[k].id,
            None => {
                let id = new_id();
                self.carts.push(Cart::new(id, user_id));
                proof {
                    let n = self.carts@.len() - 1;
                    assert forall|i: int, j: int| 0 <= i < j < self.carts@.len() implies self.carts@[i].user_id != self.carts@[j].user_id by {
                        if j == n {
                            assert(self.carts@[i] == old(self).carts@[i]);
                        } else {
                            assert(old(self).carts@[i].user_id != old(self).carts@[j].user_id);
                        }
                    }
                    assert forall|i: int| 0 <= i < self.carts@.len() implies #[trigger] self.carts@[i].wf() by {
                        if i < n {
                            assert(self.carts@[i] == old(self).carts@[i]);
                            assert(old(self).carts@[i].wf());
                        }
                    }
                    self.lemma_cart_at(user_id, n);
                    assert forall|u: u128| u != user_id implies self.has_cart(u) == old(self).has_cart(u)
                        && (old(self).has_cart(u) ==> self.cart_of(u) == old(self).cart_of(u)) by {
                        if old(self).has_cart(u) {
                            let j = choose|i: int| 0 <= i < old(self).carts@.len() && old(self).carts@[i].user_id == u;
                            assert(self.carts@[j] == old(self).carts@[j]);
                            old(self).lemma_cart_at(u, j);
                            self.lemma_cart_at(u, j);
                        }
                        if self.has_cart(u) {
                            let j = choose|i: int| 0 <= i < self.carts@.len() && self.carts@[i].user_id == u;
                            assert(j < n);
                            assert(old(self).carts@[j] == self.carts@[j]);
                        }
                    }
                }
                id
            },
        }
    }

    /// The view of the cart at position `k`.
    fn respond(&self, k: usize, catalog: &Catalog) -> (r: Result<CartResponse, AppError>)
        requires
            self.wf(),
            k < self.carts@.len(),
            catalog_prices_wf(catalog.products@),
        ensures
            r matches Ok(resp) ==> shows(
                resp,
                self.carts@[k as int].id,
                self.carts@[k as int].user_id,
                joined(self.carts@[k as int].items@, catalog.products@),
            ),
            r is Err ==> r matches Err(AppError::InternalServerError(_)),
            view_fits(self.carts@[k as int].items@, catalog.products@) ==> r is Ok,
    {
        let details = cart_details(&self.carts[k], catalog);
        proof {
            lemma_joined_prices(self.carts@[k as int].items@, catalog.products@);
        }
        build_cart_response(self.carts[k].id, self.carts[k].user_id, details)
    }

    /// Replaces the cart at position `k`, keeping every user's cart where it was.
    fn put_back(&mut self, k: usize, cart: Cart)
        requires
            old(self).wf(),
            k < old(self).carts@.len(),
            cart.wf(),
            cart.user_id == old(self).carts@[k as int].user_id,
        ensures
            final(self).wf(),
            final(self).carts@ == old(self).carts@.update(k as int, cart),
            final(self).cart_of(cart.user_id) == cart,
            final(self).has_cart(cart.user_id),
            forall|u: u128| u != cart.user_id ==> final(self).has_cart(u) == old(self).has_cart(u)
                && (old(self).has_cart(u) ==> final(self).cart_of(u) == old(self).cart_of(u)),
    {
        self.carts.set(k, cart);
        proof {
            assert forall|i: int, j: int| 0 <= i < j < self.carts@.len() implies self.carts@[i].user_id != self.carts@[j].user_id by {
                assert(old(self).carts@[i].user_id != old(self).carts@[j].user_id);
            }
            assert forall|i: int| 0 <= i < self.carts@.len() implies #[trigger] self.carts@[i].wf() by {
                if i != k {
                    assert(old(self).carts@[i].wf());
                }
            }
            self.lemma_cart_at(cart.user_id, k as int);
            assert forall|u: u128| u != cart.user_id implies self.has_cart(u) == old(self).has_cart(u)
                && (old(self).has_cart(u) ==> self.cart_of(u) == old(self).cart_of(u)) by {
                if old(self).has_cart(u) {
                    let j = choose|i: int| 0 <= i < old(self).carts@.len() && old(self).carts@[i].user_id == u;
                    old(self).lemma_cart_at(u, j);
                    self.lemma_cart_at(u, j);
                }
                if self.has_cart(u) {
                    let j = choose|i: int| 0 <= i < self.carts@.len() && self.carts@[i].user_id == u;
                    assert(self.carts@[j] == old(self).carts@[j]);
                }
            }
        }
    }

    /// The view of the cart of `user_id`, created empty on first access.
    pub fn get_cart(&mut self, catalog: &Catalog, user_id: u128) -> (r: Result<CartResponse, AppError>)
        requires
            old(self).wf(),
            catalog_prices_wf(catalog.products@),
        ensures
            final(self).wf(),
            final(self).has_cart(user_id),
            final(self).lines_of(user_id) == old(self).lines_of(user_id),
            r matches Ok(resp) ==> shows(resp, final(self).cart_of(user_id).id, user_id, joined(final(self).lines_of(user_id), catalog.products@)),
            r is Err ==> r matches Err(AppError::InternalServerError(_)),
            view_fits(old(self).lines_of(user_id), catalog.products@) ==> r is Ok,
    {
        self.get_or_create_cart_id(user_id);
        let k = self.cart_index(user_id).unwrap();
        self.respond(k, catalog)
    }

    /// Adds `req.quantity` of `req.product_id` to the cart of `user_id` (created on first
    /// access) and answers with the new view. A non-positive quantity is rejected before
    /// anything is touched. A product already in the cart has its line's quantity raised;
    /// otherwise a line under a fresh random id is appended.
    pub fn add_to_cart(&mut self, catalog: &Catalog, user_id: u128, req: AddToCartRequest) -> (r: Result<CartResponse, AppError>)
        requires
            old(self).wf(),
            catalog_prices_wf(catalog.products@),
        ensures
            final(self).wf(),
            req.quantity <= 0 ==> (r matches Err(AppError::ValidationError(_))) && *final(self) == *old(self),
            req.quantity > 0 && quantity_of(old(self).lines_of(user_id), req.product_id) + req.quantity > i32::MAX
                ==> (r matches Err(AppError::ValidationError(_))) && final(self).lines_of(user_id) == old(self).lines_of(user_id),
            r is Ok ==> exists|fresh: u128| final(self).lines_of(user_id) == #[trigger] added(old(self).lines_of(user_id), req.product_id, req.quantity, fresh),
            r is Ok && has_product(old(self).lines_of(user_id), req.product_id) ==> final(self).lines_of(user_id) == added(old(self).lines_of(user_id), req.product_id, req.quantity, 0),
            r matches Ok(resp) ==> shows(resp, final(self).cart_of(user_id).id, user_id, joined(final(self).lines_of(user_id), catalog.products@)),
            r matches Err(AppError::ValidationError(_)) ==> final(self).lines_of(user_id) == old(self).lines_of(user_id),
            forall|u: u128| u != user_id ==> final(self).lines_of(u) == old(self).lines_of(u),
            req.quantity > 0 && has_product(old(self).lines_of(user_id), req.product_id)
                && quantity_of(old(self).lines_of(user_id), req.product_id) + req.quantity <= i32::MAX
                && view_fits(added(old(self).lines_of(user_id), req.product_id, req.quantity, 0), catalog.products@)
                ==> r is Ok,
    {
        if req.quantity <= 0 {
            return Err(AppError::ValidationError("Quantity must be greater than zero".to_owned()));
        }
        self.get_or_create_cart_id(user_id);
        let k = self.cart_index(user_id).unwrap();
        let mut cart = Cart { id: self.carts[k].id, user_id, items: self.carts[k].items.clone() };
        assert(cart.items@ =~= self.carts@[k as int].items@);
        let fresh = new_id();
        let ghost before = cart.items@;
        proof {
            assert(self.carts@[k as int].wf());
            assert(before == old(self).lines_of(user_id));
        }
        match cart.add_item(req.product_id, req.quantity, fresh) {
            Ok(()) => {},
            Err(e) => {
                return Err(e);
            },
        }
        proof {
            if has_product(before, req.product_id) {
                assert(added(before, req.product_id, req.quantity, fresh) == added(before, req.product_id, req.quantity, 0));
            }
        }
        self.put_back(k, cart);
        self.respond(k, catalog)
    }

    /// Sets line `item_id` of the cart of `user_id` to `req.quantity` and answers with the new
    /// view. A non-positive quantity is rejected; a line that is not in the user's cart is not
    /// found. Either way nothing changes.
    pub fn update_item(&mut self, catalog: &Catalog, user_id: u128, item_id: u128, req: UpdateCartItemRequest) -> (r: Result<CartResponse, AppError>)
        requires
            old(self).wf(),
            catalog_prices_wf(catalog.products@),
        ensures
            final(self).wf(),
            req.quantity <= 0 ==> r matches Err(AppError::ValidationError(_)),
            req.quantity > 0 && !has_item(old(self).lines_of(user_id), item_id) ==> r matches Err(AppError::NotFound(_)),
            !(req.quantity > 0 && has_item(old(self).lines_of(user_id), item_id)) ==> *final(self) == *old(self),
            req.quantity > 0 && has_item(old(self).lines_of(user_id), item_id) ==> ({
                let s = old(self).lines_of(user_id);
                let k = item_index(s, item_id);
                final(self).lines_of(user_id) == s.update(k, CartItem { item_id, product_id: s[k].product_id, quantity: req.quantity })
            }),
            r matches Ok(resp) ==> shows(resp, final(self).cart_of(user_id).id, user_id, joined(final(self).lines_of(user_id), catalog.products@)),
            forall|u: u128| u != user_id ==> final(self).lines_of(u) == old(self).lines_of(u),
            req.quantity > 0 && has_item(old(self).lines_of(user_id), item_id) && view_fits(final(self).lines_of(user_id), catalog.products@) ==> r is Ok,
    {
        if req.quantity <= 0 {
            return Err(AppError::ValidationError("Quantity must be greater than zero".to_owned()));
        }
        let k = match self.cart_index(user_id) {
            Some(k) => k,
            None => {
                return Err(AppError::NotFound("Cart item not found".to_owned()));
            },
        };
        let mut cart = Cart { id: self.carts[k].id, user_id, items: self.carts[k].items.clone() };
        assert(cart.items@ =~= self.carts@[k as int].items@);
        assert(self.carts@[k as int].wf());
        match cart.update_item(item_id, req.quantity) {
            Ok(()) => {},
            Err(e) => {
                return Err(e);
            },
        }
        self.put_back(k, cart);
        self.respond(k, catalog)
    }

    /// Deletes line `item_id` from the cart of `user_id` and answers with the new view; a line
    /// that is not in the user's cart is not found and nothing changes.
    pub fn remove_item(&mut self, catalog: &Catalog, user_id: u128, item_id: u128) -> (r: Result<CartResponse, AppError>)
        requires
            old(self).wf(),
            catalog_prices_wf(catalog.products@),
        ensures
            final(self).wf(),
            !has_item(old(self).lines_of(user_id), item_id) ==> (r matches Err(AppError::NotFound(_))) && *final(self) == *old(self),
            has_item(old(self).lines_of(user_id), item_id) ==> final(self).lines_of(user_id) == old(self).lines_of(user_id).remove(item_index(old(self).lines_of(user_id), item_id)),
            r matches Ok(resp) ==> shows(resp, final(self).cart_of(user_id).id, user_id, joined(final(self).lines_of(user_id), catalog.products@)),
            forall|u: u128| u != user_id ==> final(self).lines_of(u) == old(self).lines_of(u),
            has_item(old(self).lines_of(user_id), item_id) && view_fits(final(self).lines_of(user_id), catalog.products@) ==> r is Ok,
    {
        let k = match self.cart_index(user_id) {
            Some(k) => k,
            None => {
                return Err(AppError::NotFound("Cart item not found".to_owned()));
            },
        };
        let mut cart = Cart { id: self.carts[k].id, user_id, items: self.carts[k].items.clone() };
        assert(cart.items@ =~= self.carts@[k as int].items@);
        assert(self.carts@[k as int].wf());
        match cart.remove_item(item_id) {
            Ok(()) => {},
            Err(e) => {
                return Err(e);
            },
        }
        self.put_back(k, cart);
        self.respond(k, catalog)
    }
}

} // verus!
