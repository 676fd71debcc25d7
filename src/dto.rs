//! Request and response shapes of the exposed operations. Identifiers are 128-bit values and
//! timestamps microseconds since the Unix epoch.

use crate::error::AppError;
use vstd::prelude::*;

verus! {

#[derive(Debug, Clone, PartialEq, Eq)]
pub struct RegisterRequest {
    pub username: String,
    pub password: String,
}

#[derive(Debug, Clone, PartialEq, Eq)]
pub struct LoginRequest {
    pub username: String,
    pub password: String,
}

#[derive(Debug, Clone, PartialEq, Eq)]
pub struct UpdateUserRequest {
    pub username: Option<String>,
}

/// Paging, search, sorting and activity filter of a list request.
#[derive(Debug, Clone, PartialEq, Eq)]
pub struct FilterOptions {
    pub page: Option<usize>,
    pub limit: Option<usize>,
    pub search: Option<String>,
    pub sort_by: Option<String>,
    pub sort_dir: Option<String>,
    pub is_active: Option<bool>,
}

#[derive(Debug, Clone, PartialEq, Eq)]
pub struct CategoryRequest {
    pub name: String,
    pub description: Option<String>,
    pub is_active: Option<bool>,
}

#[derive(Debug, Clone, PartialEq, Eq)]
pub struct UpdateCategoryRequest {
    pub name: Option<String>,
    pub description: Option<String>,
    pub is_active: Option<bool>,
}

#[derive(Debug, Clone, PartialEq, Eq)]
pub struct LoginResponse {
    pub token: String,
}

#[derive(Debug, Clone, PartialEq, Eq)]
pub struct UserResponse {
    pub id: u128,
    pub username: String,
    pub created_at: i64,
    pub updated_at: Option<i64>,
}

/// A category as the catalog store holds it.
#[derive(Debug, Clone, PartialEq, Eq)]
pub struct CategoryEntity {
    pub id: u128,
    pub name: String,
    pub description: Option<String>,
    pub is_active: bool,
    pub created_at: i64,
    pub updated_at: Option<i64>,
}

#[derive(Debug, Clone, PartialEq, Eq)]
pub struct CategoryResponse {
    pub id: u128,
    pub name: String,
    pub description: Option<String>,
    pub is_active: bool,
    pub created_at: i64,
    pub updated_at: Option<i64>,
}

impl CategoryResponse {
    /// The response for a stored category: the same fields.
    pub fn from_entity(e: CategoryEntity) -> (r: CategoryResponse)
        ensures
            r == (CategoryResponse {
                id: e.id,
                name: e.name,
                description: e.description,
                is_active: e.is_active,
                created_at: e.created_at,
                updated_at: e.updated_at,
            }),
    {
        CategoryResponse {
            id: e.id,
            name: e.name,
            description: e.description,
            is_active: e.is_active,
            created_at: e.created_at,
            updated_at: e.updated_at,
        }
    }
}

/// One page of a listing, with the count of all matching records.
#[derive(Debug, Clone, PartialEq, Eq)]
pub struct PagedResponse<T> {
    pub data: Vec<T>,
    pub total: i64,
    pub page: usize,
    pub limit: usize,
    pub total_pages: i64,
}

#[derive(Debug, Clone, Copy, PartialEq, Eq, Structural)]
pub struct AddToCartRequest {
    pub product_id: u128,
    pub quantity: i32,
}

#[derive(Debug, Clone, Copy, PartialEq, Eq, Structural)]
pub struct UpdateCartItemRequest {
    pub quantity: i32,
}

/// A full-text query on the search index.
#[derive(Debug, Clone, PartialEq, Eq)]
pub struct SearchQuery {
    pub q: Option<String>,
    pub filter: Option<String>,
    pub sort: Option<String>,
    pub limit: Option<usize>,
    pub offset: Option<usize>,
}

/// The new username of a profile update, which must be given.
pub fn required_username(req: UpdateUserRequest) -> (r: Result<String, AppError>)
    ensures
        match req.username {
            Some(u) => r == Ok::<String, AppError>(u),
            None => r matches Err(AppError::ValidationError(_)),
        },
{
    match req.username {
        Some(u) => Ok(u),
        None => Err(AppError::ValidationError("Username is required".to_owned())),
    }
}

} // verus!
