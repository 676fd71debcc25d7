//! Catalog–search consistency and cart aggregation: the verified core of a storefront service.
//!
//! - [`money`]: decimal amounts and their exact arithmetic.
//! - [`cart`], [`cart_view`], [`cart_service`]: cart lines, the derived totals, and one cart
//!   per user.
//! - [`catalog`], [`search`], [`reindex`]: products, their search documents, the commands that
//!   keep the index in step, and the full rebuild.
//! - [`dto`], [`paging`], [`error`], [`response`]: request shapes, list windows, the error
//!   taxonomy and the response envelope.

pub mod cart;
pub mod cart_service;
pub mod cart_view;
pub mod catalog;
pub mod dto;
pub mod error;
pub mod money;
pub mod paging;
pub mod reindex;
pub mod response;
pub mod search;
