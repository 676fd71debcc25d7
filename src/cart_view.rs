//! The cart as shown to its owner: one subtotal per line, the total price and the item count,
//! computed fresh on every read.

use crate::error::AppError;
use crate::money::{abs, fits_mantissa, lemma_at_scale_step, lemma_pow10_positive, pow10, Money, MAX_MANTISSA, MAX_SCALE};
use vstd::prelude::*;

verus! {

/// A cart line joined with the product's current name and price.
#[derive(Clone, Debug, PartialEq, Eq)]
pub struct CartItemDetail {
    pub item_id: u128,
    pub product_id: u128,
    pub product_name: String,
    pub price: Money,
    pub quantity: i32,
}

/// A cart line with its subtotal.
#[derive(Clone, Debug, PartialEq, Eq)]
pub struct CartItemResponse {
    pub item_id: u128,
    pub product_id: u128,
    pub product_name: String,
    pub price: Money,
    pub quantity: i32,
    pub subtotal: Money,
}

/// A whole cart with its totals.
#[derive(Clone, Debug, PartialEq, Eq)]
pub struct CartResponse {
    pub id: u128,
    pub user_id: u128,
    pub items: Vec<CartItemResponse>,
    pub total_price: Money,
    pub total_items: i32,
}

pub open spec fn prices_wf(s: Seq<CartItemDetail>) -> bool {
    forall|i: int| 0 <= i < s.len() ==> s[i].price.wf()
}

/// Σ price × quantity, in units of 10^-28.
pub open spec fn sum_amounts(s: Seq<CartItemDetail>) -> int
    decreases s.len(),
{
    if s.len() == 0 {
        0
    } else {
        sum_amounts(s.drop_last()) + s.last().price.units() * s.last().quantity
    }
}

/// Σ quantity.
pub open spec fn sum_quantities(s: Seq<CartItemDetail>) -> int
    decreases s.len(),
{
    if s.len() == 0 {
        0
    } else {
        sum_quantities(s.drop_last()) + s.last().quantity
    }
}

/// The largest scale among the prices (0 for no lines).
pub open spec fn max_scale(s: Seq<CartItemDetail>) -> nat
    decreases s.len(),
{
    if s.len() == 0 {
        0
    } else {
        let m = max_scale(s.drop_last());
        if s.last().price.scale > m {
            s.last().price.scale as nat
        } else {
            m
        }
    }
}

/// Σ |price × quantity|, every price written with `scale` digits after the point.
pub open spec fn abs_amounts(s: Seq<CartItemDetail>, scale: nat) -> int
    decreases s.len(),
{
    if s.len() == 0 {
        0
    } else {
        abs_amounts(s.drop_last(), scale) + abs(s.last().price.at_scale(scale) * s.last().quantity)
    }
}

/// Whether every subtotal and every running total, written at the largest scale among the
/// prices, fits in a decimal.
pub open spec fn amounts_bounded(s: Seq<CartItemDetail>) -> bool {
    abs_amounts(s, max_scale(s)) <= MAX_MANTISSA
}

/// A response line carries the detail's fields and its exact subtotal.
pub open spec fn line_matches(r: CartItemResponse, d: CartItemDetail) -> bool {
    &&& r.item_id == d.item_id
    &&& r.product_id == d.product_id
    &&& r.product_name == d.product_name
    &&& r.price == d.price
    &&& r.quantity == d.quantity
    &&& r.subtotal.wf()
    &&& r.subtotal.units() == d.price.units() * d.quantity
}

/// `resp` is the view of cart `cart_id` of `user_id` whose lines are `items`: each line with
/// its exact subtotal, the exact total price and the item count.
pub open spec fn shows(resp: CartResponse, cart_id: u128, user_id: u128, items: Seq<CartItemDetail>) -> bool {
    &&& resp.id == cart_id
    &&& resp.user_id == user_id
    &&& resp.items@.len() == items.len()
    &&& forall|i: int| 0 <= i < items.len() ==> line_matches(#[trigger] resp.items@[i], items[i])
    &&& resp.total_price.wf()
    &&& resp.total_price.units() == sum_amounts(items)
    &&& resp.total_items == sum_quantities(items)
}

proof fn lemma_max_scale(s: Seq<CartItemDetail>)
    requires
        prices_wf(s),
    ensures
        max_scale(s) <= MAX_SCALE,
        forall|i: int| 0 <= i < s.len() ==> s[i].price.scale <= max_scale(s),
    decreases s.len(),
{
    if s.len() > 0 {
        let t = s.drop_last();
        assert forall|i: int| 0 <= i < t.len() implies t[i].price.wf() by {
            assert(t[i] == s[i]);
        }
        lemma_max_scale(t);
        assert forall|i: int| 0 <= i < s.len() implies s[i].price.scale <= max_scale(s) by {
            if i < t.len() {
                assert(t[i] == s[i]);
            }
        }
    }
}

proof fn lemma_abs_amounts_prefix(s: Seq<CartItemDetail>, k: int, scale: nat)
    requires
        0 <= k <= s.len(),
    ensures
        0 <= abs_amounts(s.take(k), scale) <= abs_amounts(s, scale),
    decreases s.len(),
{
    if k == s.len() {
        assert(s.take(k) =~= s);
        lemma_abs_amounts_nonneg(s, scale);
    } else {
        let t = s.drop_last();
        assert(s.take(k) =~= t.take(k));
        lemma_abs_amounts_prefix(t, k, scale);
    }
}

proof fn lemma_abs_amounts_nonneg(s: Seq<CartItemDetail>, scale: nat)
    ensures
        abs_amounts(s, scale) >= 0,
    decreases s.len(),
{
    if s.len() > 0 {
        lemma_abs_amounts_nonneg(s.drop_last(), scale);
    }
}

proof fn lemma_cancel(a: int, b: int, e: int)
    requires
        e >= 1,
        a * e == b * e,
    ensures
        a == b,
{
    assert((a - b) * e == 0) by (nonlinear_arith)
        requires
            a * e == b * e,
    ;
    assert(a - b == 0) by (nonlinear_arith)
        requires
            (a - b) * e == 0,
            e >= 1,
    ;
}

/// An amount's units, read at a scale between its own and the maximum.
proof fn lemma_units_at(x: Money, scale: nat)
    requires
        x.scale <= scale <= MAX_SCALE,
    ensures
        x.units() == x.at_scale(scale) * pow10((MAX_SCALE - scale) as nat),
{
    lemma_at_scale_step(x, scale, MAX_SCALE as nat);
}

/// Under the bound, the product of one more line fits, and so does its sum with the running
/// total; the new total keeps the bound on the prefix.
proof fn lemma_line_fits(
    total: Money,
    sub: Money,
    price: Money,
    quantity: i32,
    scale: nat,
    before: int,
    after: int,
)
    requires
        total.wf(),
        price.wf(),
        total.scale <= scale,
        price.scale <= scale <= MAX_SCALE,
        abs(total.at_scale(scale)) <= before,
        after == before + abs(price.at_scale(scale) * quantity),
        after <= MAX_MANTISSA,
    ensures
        fits_mantissa(price.mantissa * quantity),
        sub.wf() && sub.units() == price.units() * quantity && sub.scale <= price.scale ==> (
        total.mantissa == 0 || sub.mantissa == 0 || crate::money::add_fits(total, sub)),
{
    let p = pow10((scale - price.scale) as nat);
    lemma_pow10_positive((scale - price.scale) as nat);
    let m = price.mantissa as int;
    let q = quantity as int;
    assert(abs(m * q) <= abs(m * p * q)) by (nonlinear_arith)
        requires
            p >= 1,
    ;
    assert(m * p * q == price.at_scale(scale) * q);
    if sub.wf() && sub.units() == price.units() * quantity && sub.scale <= price.scale {
        let e = pow10((MAX_SCALE - scale) as nat);
        lemma_pow10_positive((MAX_SCALE - scale) as nat);
        lemma_units_at(sub, scale);
        lemma_units_at(price, scale);
        assert(price.at_scale(scale) * e * q == price.at_scale(scale) * q * e) by (nonlinear_arith);
        lemma_cancel(sub.at_scale(scale), price.at_scale(scale) * q, e);
        let s2: nat = if total.scale >= sub.scale { total.scale as nat } else { sub.scale as nat };
        lemma_at_scale_step(total, s2, scale);
        lemma_at_scale_step(sub, s2, scale);
        let f = pow10((scale - s2) as nat);
        lemma_pow10_positive((scale - s2) as nat);
        let x = total.at_scale(s2);
        let y = sub.at_scale(s2);
        assert(abs(x + y) <= abs(x * f + y * f)) by (nonlinear_arith)
            requires
                f >= 1,
        ;
    }
}

/// The view of a cart: each line with its subtotal, the total price (Σ price × quantity) and
/// the item count (Σ quantity), all exact. It fails with `InternalServerError` only where a
/// total does not fit: always when the item count leaves `i32`, never when the amounts stay
/// within a decimal's range.
pub fn build_cart_response(cart_id: u128, user_id: u128, items: Vec<CartItemDetail>) -> (r: Result<CartResponse, AppError>)
    requires
        prices_wf(items@),
    ensures
        r matches Ok(resp) ==> shows(resp, cart_id, user_id, items@),
        r is Err ==> r matches Err(AppError::InternalServerError(_)),
        amounts_bounded(items@) && i32::MIN <= sum_quantities(items@) <= i32::MAX ==> r is Ok,
        !(i32::MIN <= sum_quantities(items@) <= i32::MAX) ==> r is Err,
{
    let ghost s = items@;
    let ghost scale = max_scale(s);
    proof {
        lemma_max_scale(s);
    }
    let n = items.len();
    let mut lines: Vec<CartItemResponse> = Vec::new();
    let mut total = Money::zero();
    let mut count: i128 = 0;
    let mut i: usize = 0;
    while i < n
        invariant
            n == items.len(),
            s == items@,
            prices_wf(s),
            scale == max_scale(s),
            scale <= MAX_SCALE,
            forall|j: int| 0 <= j < s.len() ==> s[j].price.scale <= scale,
            i <= n,
            lines@.len() == i,
            forall|j: int| 0 <= j < i ==> line_matches(#[trigger] lines@[j], s[j]),
            total.wf(),
            total.scale <= scale,
            total.units() == sum_amounts(s.take(i as int)),
            abs(total.at_scale(scale)) <= abs_amounts(s.take(i as int), scale),
            count == sum_quantities(s.take(i as int)),
            -(i as int) * 0x8000_0000 <= count <= (i as int) * 0x8000_0000,
        decreases n - i,
    {
        let d = &items[i];
        proof {
            assert(s.take(i + 1).drop_last() =~= s.take(i as int));
            lemma_abs_amounts_prefix(s, i + 1, scale);
            assert(d.price.wf());
        }
        let ghost before = abs_amounts(s.take(i as int), scale);
        let ghost after = abs_amounts(s.take(i + 1), scale);
        let sub = match d.price.times(d.quantity) {
            Some(m) => m,
            None => {
                proof {
                    if amounts_bounded(s) {
                        lemma_line_fits(total, total, d.price, d.quantity, scale, before, after);
                    }
                }
                return Err(AppError::InternalServerError("Cart total is out of range".to_owned()));
            },
        };
        proof {
            if amounts_bounded(s) {
                lemma_line_fits(total, sub, d.price, d.quantity, scale, before, after);
            }
        }
        let next = match total.plus(sub) {
            Some(m) => m,
            None => {
                return Err(AppError::InternalServerError("Cart total is out of range".to_owned()));
            },
        };
        proof {
            let e = pow10((MAX_SCALE - scale) as nat);
            lemma_pow10_positive((MAX_SCALE - scale) as nat);
            lemma_units_at(total, scale);
            lemma_units_at(sub, scale);
            lemma_units_at(next, scale);
            lemma_units_at(d.price, scale);
            let q = d.quantity as int;
            assert(d.price.at_scale(scale) * e * q == d.price.at_scale(scale) * q * e) by (nonlinear_arith);
            lemma_cancel(sub.at_scale(scale), d.price.at_scale(scale) * q, e);
            assert(total.at_scale(scale) * e + sub.at_scale(scale) * e == (total.at_scale(scale)
                + sub.at_scale(scale)) * e) by (nonlinear_arith);
            lemma_cancel(next.at_scale(scale), total.at_scale(scale) + sub.at_scale(scale), e);
        }
        lines.push(CartItemResponse {
            item_id: d.item_id,
            product_id: d.product_id,
            product_name: d.product_name.clone(),
            price: d.price,
            quantity: d.quantity,
            subtotal: sub,
        });
        total = next;
        count = count + d.quantity as i128;
        i = i + 1;
    }
    proof {
        assert(s.take(n as int) =~= s);
    }
    if count > i32::MAX as i128 || count < i32::MIN as i128 {
        return Err(AppError::InternalServerError("Cart item count is out of range".to_owned()));
    }
    Ok(CartResponse { id: cart_id, user_id, items: lines, total_price: total, total_items: count as i32 })
}

} // verus!
