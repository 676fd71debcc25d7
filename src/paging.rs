//! How a list request's options become a concrete query: defaults, the row window, the
//! activity filter, the search pattern and a whitelisted sort order; and the page count.

use crate::dto::{FilterOptions, PagedResponse};
use crate::error::AppError;
use vstd::prelude::*;
use vstd::string::*;

verus! {

pub const DEFAULT_PAGE: usize = 1;

pub const DEFAULT_LIMIT: usize = 10;

/// The records a listing ranges over.
#[derive(Debug, Clone, Copy, PartialEq, Eq, Structural)]
pub enum Listing {
    Products,
    Categories,
    Users,
}

/// The columns a listing may be ordered by.
#[derive(Debug, Clone, Copy, PartialEq, Eq, Structural)]
pub enum SortColumn {
    Name,
    Price,
    Stock,
    Username,
    CreatedAt,
}

#[derive(Debug, Clone, Copy, PartialEq, Eq, Structural)]
pub enum SortDirection {
    Asc,
    Desc,
}

/// A list request made concrete.
#[derive(Debug, Clone, PartialEq, Eq)]
pub struct ListQuery {
    pub page: usize,
    pub limit: usize,
    /// Rows skipped before the page: `(page - 1) * limit`.
    pub offset: usize,
    /// Only records whose activity flag equals this; `None` where the records have none.
    pub is_active: Option<bool>,
    /// A case-insensitive `LIKE` pattern matching names that contain the search text.
    pub search_pattern: Option<String>,
    pub sort: SortColumn,
    pub direction: SortDirection,
}

/// The column a listing is ordered by: a known column name of that listing, or else the
/// creation time.
pub open spec fn sort_column_of(listing: Listing, sort_by: Option<Seq<char>>) -> SortColumn {
    match sort_by {
        None => SortColumn::CreatedAt,
        Some(s) => match listing {
            Listing::Products => if s == "name"@ {
                SortColumn::Name
            } else if s == "price"@ {
                SortColumn::Price
            } else if s == "stock"@ {
                SortColumn::Stock
            } else {
                SortColumn::CreatedAt
            },
            Listing::Categories => if s == "name"@ {
                SortColumn::Name
            } else {
                SortColumn::CreatedAt
            },
            Listing::Users => if s == "username"@ {
                SortColumn::Username
            } else {
                SortColumn::CreatedAt
            },
        },
    }
}

/// Ascending only when a sort column is asked for with direction `asc`; newest first otherwise.
pub open spec fn direction_of(sort_by: Option<Seq<char>>, sort_dir: Option<Seq<char>>) -> SortDirection {
    if sort_by is Some && sort_dir == Some("asc"@) {
        SortDirection::Asc
    } else {
        SortDirection::Desc
    }
}

pub open spec fn text_of(s: Option<String>) -> Option<Seq<char>> {
    match s {
        Some(t) => Some(t@),
        None => None,
    }
}

fn same_text(a: &String, b: &str) -> (r: bool)
    ensures
        r == (a@ == b@),
{
    *a == b.to_owned()
}

/// The `LIKE` pattern that matches any text containing `search`.
pub fn contains_pattern(search: &String) -> (r: String)
    ensures
        r@ == "%"@ + search@ + "%"@,
{
    "%".to_owned().concat(search.as_str()).concat("%")
}

/// The concrete query of a list request. Page and limit default to 1 and 10; page 0, or a
/// window whose offset does not fit in `usize`, is rejected.
pub fn resolve(opts: &FilterOptions, listing: Listing) -> (r: Result<ListQuery, AppError>)
    ensures
        ({
            let page = match opts.page { Some(p) => p, None => DEFAULT_PAGE };
            let limit = match opts.limit { Some(l) => l, None => DEFAULT_LIMIT };
            match r {
                Ok(q) => {
                    &&& page >= 1
                    &&& q.page == page
                    &&& q.limit == limit
                    &&& q.offset == (page - 1) * limit
                    &&& q.is_active == if listing == Listing::Users {
                        None
                    } else {
                        Some(match opts.is_active { Some(b) => b, None => true })
                    }
                    &&& q.search_pattern is Some == opts.search is Some
                    &&& (opts.search is Some ==> q.search_pattern->0@ == "%"@ + opts.search->0@ + "%"@)
                    &&& q.sort == sort_column_of(listing, text_of(opts.sort_by))
                    &&& q.direction == direction_of(text_of(opts.sort_by), text_of(opts.sort_dir))
                },
                Err(e) => {
                    &&& e is ValidationError
                    &&& page == 0 || (page - 1) * limit > usize::MAX
                },
            }
        }),
{
    let page = match opts.page { Some(p) => p, None => DEFAULT_PAGE };
    let limit = match opts.limit { Some(l) => l, None => DEFAULT_LIMIT };
    if page == 0 {
        return Err(AppError::ValidationError("Page must be at least 1".to_owned()));
    }
    let offset = match (page - 1).checked_mul(limit) {
        Some(o) => o,
        None => {
            return Err(AppError::ValidationError("Page is out of range".to_owned()));
        },
    };
    let is_active = match listing {
        Listing::Users => None,
        _ => Some(match opts.is_active { Some(b) => b, None => true }),
    };
    let search_pattern = match &opts.search {
        Some(s) => Some(contains_pattern(s)),
        None => None,
    };
    let sort = match &opts.sort_by {
        None => SortColumn::CreatedAt,
        Some(s) => match listing {
            Listing::Products => if same_text(s, "name") {
                SortColumn::Name
            } else if same_text(s, "price") {
                SortColumn::Price
            } else if same_text(s, "stock") {
                SortColumn::Stock
            } else {
                SortColumn::CreatedAt
            },
            Listing::Categories => if same_text(s, "name") {
                SortColumn::Name
            } else {
                SortColumn::CreatedAt
            },
            Listing::Users => if same_text(s, "username") {
                SortColumn::Username
            } else {
                SortColumn::CreatedAt
            },
        },
    };
    let ascending = match (&opts.sort_by, &opts.sort_dir) {
        (Some(_), Some(d)) => same_text(d, "asc"),
        _ => false,
    };
    let direction = if ascending { SortDirection::Asc } else { SortDirection::Desc };
    Ok(ListQuery { page, limit, offset, is_active, search_pattern, sort, direction })
}

/// ⌈total / limit⌉. With a limit of 0 the count is unbounded: `i64::MAX` for a positive
/// total, `i64::MIN` for a negative one, 0 for none.
pub open spec fn total_pages_of(total: int, limit: int) -> int {
    if limit == 0 {
        if total > 0 {
            i64::MAX as int
        } else if total < 0 {
            i64::MIN as int
        } else {
            0
        }
    } else if total >= 0 {
        (total + limit - 1) / limit
    } else {
        -((-total) / limit)
    }
}

pub fn total_pages(total: i64, limit: usize) -> (r: i64)
    ensures
        r == total_pages_of(total as int, limit as int),
{
    if limit == 0 {
        if total > 0 {
            i64::MAX
        } else if total < 0 {
            i64::MIN
        } else {
            0
        }
    } else {
        let l: u128 = limit as u128;
        if total >= 0 {
            let t: u128 = total as u128 + l - 1;
            let q: u128 = t / l;
            proof {
                let a = total as int;
                let b = limit as int;
                assert(q as int == (a + b - 1) / b);
                assert((a + b - 1) / b <= a) by (nonlinear_arith)
                    requires
                        b >= 1,
                        a >= 0,
                ;
            }
            q as i64
        } else {
            let t: u128 = (-(total as i128)) as u128;
            let q: u128 = t / l;
            proof {
                assert(q <= t) by (nonlinear_arith)
                    requires
                        l >= 1,
                        q == t / l,
                ;
            }
            (-(q as i128)) as i64
        }
    }
}

impl<T> PagedResponse<T> {
    /// A page of `data` out of `total` records, with its page count.
    pub fn new(data: Vec<T>, total: i64, page: usize, limit: usize) -> (r: PagedResponse<T>)
        ensures
            r.data == data,
            r.total == total,
            r.page == page,
            r.limit == limit,
            r.total_pages == total_pages_of(total as int, limit as int),
    {
        let total_pages = total_pages(total, limit);
        PagedResponse { data, total, page, limit, total_pages }
    }
}

} // verus!
