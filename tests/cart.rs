use storefront::cart::{Cart, CartItem};
use storefront::cart_service::CartService;
use storefront::cart_view::{build_cart_response, CartItemDetail};
use storefront::catalog::{Catalog, ProductEntity};
use storefront::dto::{AddToCartRequest, UpdateCartItemRequest};
use storefront::error::AppError;
use storefront::money::{Money, MAX_MANTISSA};
use rust_decimal::Decimal;

fn product(id: u128, name: &str, price: Money, active: bool) -> ProductEntity {
    ProductEntity {
        id,
        category_id: 7,
        name: name.to_string(),
        description: None,
        price,
        stock: 100,
        review_count: 0,
        is_active: active,
        created_at: id as i64,
        updated_at: None,
    }
}

fn shown(m: Money) -> String {
    Decimal::from_i128_with_scale(m.mantissa, m.scale).to_string()
}

#[test]
fn scenario_add_merge_update_remove() {
    let mut catalog = Catalog::new();
    catalog.products.push(product(1, "A", Money { mantissa: 1000, scale: 2 }, true));
    let mut carts = CartService::new();
    let user: u128 = 42;

    let r = carts.add_to_cart(&catalog, user, AddToCartRequest { product_id: 1, quantity: 2 }).unwrap();
    assert_eq!(r.user_id, user);
    assert_eq!(r.items.len(), 1);
    assert_eq!(r.total_items, 2);
    assert_eq!(shown(r.total_price), "20.00");
    assert_eq!(shown(r.items[0].subtotal), "20.00");
    let item_id = r.items[0].item_id;

    let r = carts.add_to_cart(&catalog, user, AddToCartRequest { product_id: 1, quantity: 3 }).unwrap();
    assert_eq!(r.items.len(), 1);
    assert_eq!(r.items[0].item_id, item_id);
    assert_eq!(r.total_items, 5);
    assert_eq!(shown(r.total_price), "50.00");

    let r = carts.update_item(&catalog, user, item_id, UpdateCartItemRequest { quantity: 1 }).unwrap();
    assert_eq!(r.total_items, 1);
    assert_eq!(shown(r.total_price), "10.00");

    let r = carts.remove_item(&catalog, user, item_id).unwrap();
    assert_eq!(r.items.len(), 0);
    assert_eq!(r.total_items, 0);
    assert_eq!(r.total_price.mantissa, 0);
}

#[test]
fn one_cart_per_user() {
    let catalog = Catalog::new();
    let mut carts = CartService::new();
    let a = carts.get_or_create_cart_id(5);
    let b = carts.get_or_create_cart_id(5);
    assert_eq!(a, b);
    let c = carts.get_or_create_cart_id(6);
    assert_ne!(a, c);
    let view = carts.get_cart(&catalog, 5).unwrap();
    assert_eq!(view.id, a);
    assert_eq!(view.items.len(), 0);
}

#[test]
fn adding_twice_merges_into_one_line() {
    let mut cart = Cart::new(1, 2);
    cart.add_item(10, 4, 100).unwrap();
    cart.add_item(10, 6, 101).unwrap();
    assert_eq!(cart.items, vec![CartItem { item_id: 100, product_id: 10, quantity: 10 }]);
}

#[test]
fn non_positive_quantity_is_rejected() {
    let mut cart = Cart::new(1, 2);
    cart.add_item(10, 1, 100).unwrap();
    let before = cart.clone();
    assert!(matches!(cart.add_item(10, 0, 101), Err(AppError::ValidationError(_))));
    assert!(matches!(cart.add_item(11, -3, 101), Err(AppError::ValidationError(_))));
    assert_eq!(cart, before);

    let catalog = Catalog::new();
    let mut carts = CartService::new();
    let r = carts.add_to_cart(&catalog, 9, AddToCartRequest { product_id: 1, quantity: 0 });
    assert!(matches!(r, Err(AppError::ValidationError(_))));
}

#[test]
fn merged_quantity_beyond_i32_is_rejected() {
    let mut cart = Cart::new(1, 2);
    cart.add_item(10, i32::MAX, 100).unwrap();
    assert!(matches!(cart.add_item(10, 1, 101), Err(AppError::ValidationError(_))));
    assert_eq!(cart.items[0].quantity, i32::MAX);
}

#[test]
fn taken_item_id_is_refused() {
    let mut cart = Cart::new(1, 2);
    cart.add_item(10, 1, 100).unwrap();
    assert!(matches!(cart.add_item(11, 1, 100), Err(AppError::InternalServerError(_))));
    assert_eq!(cart.items.len(), 1);
}

#[test]
fn update_sets_absolute_quantity() {
    let mut cart = Cart::new(1, 2);
    cart.add_item(10, 4, 100).unwrap();
    cart.add_item(11, 1, 101).unwrap();
    cart.update_item(100, 7).unwrap();
    assert_eq!(cart.items[0].quantity, 7);
    assert!(matches!(cart.update_item(100, 0), Err(AppError::ValidationError(_))));
    assert!(matches!(cart.update_item(999, 2), Err(AppError::NotFound(_))));
    assert_eq!(cart.items[0].quantity, 7);
}

#[test]
fn remove_keeps_order_of_other_lines() {
    let mut cart = Cart::new(1, 2);
    cart.add_item(10, 1, 100).unwrap();
    cart.add_item(11, 2, 101).unwrap();
    cart.add_item(12, 3, 102).unwrap();
    cart.remove_item(101).unwrap();
    let ids: Vec<u128> = cart.items.iter().map(|i| i.product_id).collect();
    assert_eq!(ids, vec![10, 12]);
    assert!(matches!(cart.remove_item(101), Err(AppError::NotFound(_))));
}

#[test]
fn update_of_another_users_item_is_not_found() {
    let mut catalog = Catalog::new();
    catalog.products.push(product(1, "A", Money { mantissa: 5, scale: 0 }, true));
    let mut carts = CartService::new();
    let r = carts.add_to_cart(&catalog, 1, AddToCartRequest { product_id: 1, quantity: 1 }).unwrap();
    let item = r.items[0].item_id;
    let other = carts.update_item(&catalog, 2, item, UpdateCartItemRequest { quantity: 3 });
    assert!(matches!(other, Err(AppError::NotFound(_))));
    assert!(matches!(carts.remove_item(&catalog, 2, item), Err(AppError::NotFound(_))));
}

fn detail(id: u128, price: Money, quantity: i32) -> CartItemDetail {
    CartItemDetail { item_id: id, product_id: id + 1000, product_name: format!("p{}", id), price, quantity }
}

#[test]
fn totals_are_exact_across_scales() {
    let items = vec![
        detail(1, Money { mantissa: 15, scale: 1 }, 2),
        detail(2, Money { mantissa: 25, scale: 2 }, 3),
        detail(3, Money { mantissa: 1, scale: 3 }, 7),
    ];
    let r = build_cart_response(9, 8, items).unwrap();
    assert_eq!(r.id, 9);
    assert_eq!(r.user_id, 8);
    assert_eq!(r.total_items, 12);
    assert_eq!(shown(r.items[0].subtotal), "3.0");
    assert_eq!(shown(r.items[1].subtotal), "0.75");
    assert_eq!(shown(r.items[2].subtotal), "0.007");
    assert_eq!(shown(r.total_price), "3.757");
    assert_eq!(r.items[1].product_name, "p2");
}

#[test]
fn empty_cart_totals_are_zero() {
    let r = build_cart_response(1, 2, Vec::new()).unwrap();
    assert_eq!(r.total_items, 0);
    assert_eq!(r.total_price, Money { mantissa: 0, scale: 0 });
}

#[test]
fn item_count_beyond_i32_fails() {
    let items = vec![detail(1, Money { mantissa: 1, scale: 0 }, i32::MAX), detail(2, Money { mantissa: 1, scale: 0 }, 1)];
    assert!(matches!(build_cart_response(1, 2, items), Err(AppError::InternalServerError(_))));
}

#[test]
fn amount_beyond_decimal_range_fails() {
    let items = vec![detail(1, Money { mantissa: MAX_MANTISSA, scale: 0 }, 2)];
    assert!(matches!(build_cart_response(1, 2, items), Err(AppError::InternalServerError(_))));
}

#[test]
fn lines_without_product_are_left_out_of_the_view() {
    let mut catalog = Catalog::new();
    catalog.products.push(product(1, "A", Money { mantissa: 300, scale: 2 }, true));
    let mut carts = CartService::new();
    carts.add_to_cart(&catalog, 1, AddToCartRequest { product_id: 1, quantity: 2 }).unwrap();
    let r = carts.add_to_cart(&catalog, 1, AddToCartRequest { product_id: 77, quantity: 1 }).unwrap();
    assert_eq!(r.items.len(), 1);
    assert_eq!(r.total_items, 2);
    assert_eq!(shown(r.total_price), "6.00");
}
