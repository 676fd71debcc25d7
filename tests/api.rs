use storefront::catalog::{apply_update, new_product, prepare_bulk, Catalog, ProductRequest, UpdateProductRequest};
use storefront::dto::{required_username, CategoryEntity, CategoryResponse, FilterOptions, PagedResponse, UpdateUserRequest};
use storefront::error::{AppError, StoreError};
use storefront::money::Money;
use storefront::paging::{contains_pattern, resolve, total_pages, Listing, SortColumn, SortDirection};
use storefront::response::ApiResponse;

fn options() -> FilterOptions {
    FilterOptions { page: None, limit: None, search: None, sort_by: None, sort_dir: None, is_active: None }
}

#[test]
fn resolve_applies_defaults() {
    let q = resolve(&options(), Listing::Products).unwrap();
    assert_eq!(q.page, 1);
    assert_eq!(q.limit, 10);
    assert_eq!(q.offset, 0);
    assert_eq!(q.is_active, Some(true));
    assert_eq!(q.search_pattern, None);
    assert_eq!(q.sort, SortColumn::CreatedAt);
    assert_eq!(q.direction, SortDirection::Desc);
    assert_eq!(resolve(&options(), Listing::Users).unwrap().is_active, None);
}

#[test]
fn resolve_window_search_and_sort() {
    let mut o = options();
    o.page = Some(3);
    o.limit = Some(20);
    o.search = Some("phone".to_string());
    o.sort_by = Some("price".to_string());
    o.sort_dir = Some("asc".to_string());
    o.is_active = Some(false);
    let q = resolve(&o, Listing::Products).unwrap();
    assert_eq!(q.offset, 40);
    assert_eq!(q.search_pattern, Some("%phone%".to_string()));
    assert_eq!(q.sort, SortColumn::Price);
    assert_eq!(q.direction, SortDirection::Asc);
    assert_eq!(q.is_active, Some(false));
    let c = resolve(&o, Listing::Categories).unwrap();
    assert_eq!(c.sort, SortColumn::CreatedAt);
    o.sort_by = Some("username".to_string());
    o.sort_dir = Some("ASC".to_string());
    let u = resolve(&o, Listing::Users).unwrap();
    assert_eq!(u.sort, SortColumn::Username);
    assert_eq!(u.direction, SortDirection::Desc);
}

#[test]
fn resolve_rejects_bad_pages() {
    let mut o = options();
    o.page = Some(0);
    assert!(matches!(resolve(&o, Listing::Products), Err(AppError::ValidationError(_))));
    o.page = Some(usize::MAX);
    o.limit = Some(2);
    assert!(matches!(resolve(&o, Listing::Products), Err(AppError::ValidationError(_))));
}

#[test]
fn page_counts() {
    assert_eq!(total_pages(25, 10), 3);
    assert_eq!(total_pages(30, 10), 3);
    assert_eq!(total_pages(0, 10), 0);
    assert_eq!(total_pages(1, 1000), 1);
    assert_eq!(total_pages(5, 0), i64::MAX);
    assert_eq!(total_pages(0, 0), 0);
    let p = PagedResponse::new(vec![1, 2], 12, 2, 5);
    assert_eq!(p.total_pages, 3);
    assert_eq!(p.data, vec![1, 2]);
    assert_eq!(contains_pattern(&"x".to_string()), "%x%");
}

#[test]
fn error_reporting() {
    let e = AppError::DatabaseError("boom".to_string());
    assert_eq!(e.status_code(), 500);
    assert_eq!(e.app_code(), "5001");
    assert_eq!(e.description(), "Database error: boom");
    let n = AppError::NotFound("Product not found".to_string());
    assert_eq!((n.status_code(), n.app_code()), (404, "4004"));
    assert_eq!(n.description(), "Product not found");
    assert_eq!(AppError::ValidationError(String::new()).status_code(), 400);
    assert_eq!(AppError::AuthError(String::new()).app_code(), "4001");
    assert_eq!(AppError::InternalServerError(String::new()).app_code(), "5000");
    assert_eq!(AppError::SearchIndexError(String::new()).app_code(), "5002");
    let f: ApiResponse<()> = ApiResponse::failure(&e);
    assert_eq!(f.status.code, "5001");
    assert_eq!(f.status.description, "Database error: boom");
    assert!(f.data.is_none());
}

#[test]
fn store_errors_map_to_taxonomy() {
    assert_eq!(
        AppError::from_store(StoreError::RowNotFound, "Category not found"),
        AppError::NotFound("Category not found".to_string())
    );
    assert_eq!(
        AppError::from_store(StoreError::Other("lost".to_string()), "x"),
        AppError::DatabaseError("lost".to_string())
    );
}

#[test]
fn success_envelopes() {
    let r = ApiResponse::success(5u8, "1000", "Get cart successfully.");
    assert_eq!(r.status.code, "1000");
    assert_eq!(r.status.description, "Get cart successfully.");
    assert_eq!(r.data, Some(5));
    let n: ApiResponse<u8> = ApiResponse::success_no_data("1000", "Deleted.");
    assert_eq!(n.data, None);
    assert_eq!(n.status.description, "Deleted.");
}

#[test]
fn username_is_required() {
    assert_eq!(required_username(UpdateUserRequest { username: Some("bob".to_string()) }), Ok("bob".to_string()));
    assert!(matches!(required_username(UpdateUserRequest { username: None }), Err(AppError::ValidationError(_))));
}

fn request(name: &str, active: Option<bool>) -> ProductRequest {
    ProductRequest {
        category_id: 2,
        name: name.to_string(),
        description: None,
        is_active: active,
        price: Money { mantissa: 1999, scale: 2 },
        stock: 4,
    }
}

#[test]
fn new_products_default_to_active() {
    let p = new_product(request("a", None), 10, 77);
    assert!(p.is_active);
    assert_eq!(p.review_count, 0);
    assert_eq!(p.created_at, 77);
    assert_eq!(p.updated_at, None);
    assert!(!new_product(request("b", Some(false)), 11, 77).is_active);
}

#[test]
fn bulk_products_get_distinct_ids() {
    let out = prepare_bulk(vec![request("a", None), request("b", Some(false))], 5);
    assert_eq!(out.len(), 2);
    assert_eq!(out[0].name, "a");
    assert_eq!(out[1].name, "b");
    assert!(!out[1].is_active);
    assert_ne!(out[0].id, out[1].id);
}

#[test]
fn patch_replaces_only_given_fields() {
    let p = new_product(request("a", None), 10, 1);
    let patch = UpdateProductRequest {
        category_id: None,
        name: Some("renamed".to_string()),
        description: Some("d".to_string()),
        is_active: None,
        price: None,
        stock: Some(9),
    };
    let q = apply_update(p, patch, 50);
    assert_eq!(q.name, "renamed");
    assert_eq!(q.description, Some("d".to_string()));
    assert_eq!(q.stock, 9);
    assert_eq!(q.price, Money { mantissa: 1999, scale: 2 });
    assert_eq!(q.category_id, 2);
    assert_eq!(q.updated_at, Some(50));
}

#[test]
fn listing_pages_and_soft_delete() {
    let mut c = Catalog::new();
    for i in 0..5u128 {
        c.products.push(new_product(request(&format!("p{}", i), None), i, i as i64));
    }
    assert!(c.soft_delete(1));
    assert!(!c.soft_delete(42));
    let first = c.list_page(1, 3, true);
    let names: Vec<String> = first.iter().map(|p| p.name.clone()).collect();
    assert_eq!(names, vec!["p0", "p2", "p3"]);
    assert_eq!(c.list_page(2, 3, true).len(), 1);
    assert_eq!(c.list_page(3, 3, true).len(), 0);
    assert_eq!(c.list_page(0, 3, true).len(), 0);
    assert_eq!(c.list_page(1, 10, false).len(), 1);
}

#[test]
fn category_response_copies_fields() {
    let e = CategoryEntity { id: 1, name: "n".to_string(), description: None, is_active: true, created_at: 3, updated_at: Some(4) };
    let r = CategoryResponse::from_entity(e);
    assert_eq!(r.name, "n");
    assert_eq!(r.updated_at, Some(4));
}
