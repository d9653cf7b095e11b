//! The pagination calculator: the item range of a page and the number of
//! pages of a listing. Pure arithmetic on counts and limits.

use crate::error::{Error, Parameter};
use crate::models::PaginationMeta;
use vstd::prelude::*;

verus! {

/// The page that a request without a page number asks for.
pub const DEFAULT_PAGE: u32 = 1;

/// The page size of a request that names none.
pub const DEFAULT_PAGE_SIZE: u32 = 10;

/// The parameter on whose account no listing can be made for
/// `(page, page_size)`: pages are counted from 1, a page holds at least one
/// item, and the number of the page's last item must not exceed `i64::MAX`.
pub open spec fn offending_parameter(page: int, page_size: int) -> Option<Parameter> {
    if page < 1 {
        Some(Parameter::Page)
    } else if page_size < 1 {
        Some(Parameter::PageSize)
    } else if page * page_size > i64::MAX {
        Some(Parameter::Page)
    } else {
        None
    }
}

/// `(page, page_size)` denotes a page of a listing.
pub open spec fn valid_pagination(page: int, page_size: int) -> bool {
    offending_parameter(page, page_size) is None
}

/// The number of rows that precede page `page`.
pub open spec fn offset_of(page: int, page_size: int) -> int {
    (page - 1) * page_size
}

/// The number, counted from 1, of the first item of page `page`.
pub open spec fn first_item(page: int, page_size: int) -> int {
    offset_of(page, page_size) + 1
}

/// The number of the last of the `returned_count` items of page `page`;
/// one less than `first_item` where the page is empty.
pub open spec fn last_item(page: int, page_size: int, returned_count: int) -> int {
    first_item(page, page_size) + returned_count - 1
}

/// The number of pages that `total_docs` documents fill, `page_size` to a
/// page: `total_docs / page_size` rounded up.
pub open spec fn page_count(total_docs: int, page_size: int) -> int {
    if total_docs % page_size == 0 {
        total_docs / page_size
    } else {
        total_docs / page_size + 1
    }
}

/// The metadata of page `page` of a listing of `total_docs` documents,
/// `page_size` to a page, of which the page holds `returned_count`.
pub open spec fn meta_of(total_docs: int, page: int, page_size: int, returned_count: int) -> PaginationMeta {
    PaginationMeta {
        current_page: page as i64,
        per_page: page_size as i64,
        from: first_item(page, page_size) as i64,
        to: last_item(page, page_size, returned_count) as i64,
        total_pages: page_count(total_docs, page_size) as i64,
        total_docs: total_docs as i64,
    }
}

impl PaginationMeta {
    /// `self` describes page `page` of a listing of `total_docs` documents,
    /// `page_size` to a page, of which the page holds `returned_count`.
    pub open spec fn describes(
        self,
        total_docs: int,
        page: int,
        page_size: int,
        returned_count: int,
    ) -> bool {
        &&& self.current_page == page
        &&& self.per_page == page_size
        &&& self.from == first_item(page, page_size)
        &&& self.to == last_item(page, page_size, returned_count)
        &&& self.total_pages == page_count(total_docs, page_size)
        &&& self.total_docs == total_docs
    }

    /// The metadata of page `page`, on which `returned_count` of the
    /// `total_docs` matching documents stand.
    pub fn compute(total_docs: i64, page: i64, page_size: i64, returned_count: i64) -> (meta:
        PaginationMeta)
        requires
            valid_pagination(page as int, page_size as int),
            0 <= total_docs,
            0 <= returned_count <= page_size,
        ensures
            meta == meta_of(total_docs as int, page as int, page_size as int, returned_count as int),
            meta.describes(total_docs as int, page as int, page_size as int, returned_count as int),
    {
        proof {
            lemma_page_within_bounds(page as int, page_size as int, returned_count as int);
            lemma_page_count_is_ceiling(total_docs as int, page_size as int);
        }
        let offset: i64 = (page - 1) * page_size;
        let from: i64 = offset + 1;
        let to: i64 = offset + returned_count;
        let whole: i64 = total_docs / page_size;
        let total_pages: i64 = if total_docs % page_size == 0 {
            whole
        } else {
            whole + 1
        };
        PaginationMeta {
            current_page: page,
            per_page: page_size,
            from,
            to,
            total_pages,
            total_docs,
        }
    }
}

/// Tells whether a listing can be made for `(page, page_size)`, and if not,
/// which of the two is out of range.
pub fn validate(page: i64, page_size: i64) -> (outcome: Result<(), Error>)
    ensures
        outcome == match offending_parameter(page as int, page_size as int) {
            Some(parameter) => Err::<(), Error>(Error::InvalidPagination { parameter }),
            None => Ok(()),
        },
{
    if page < 1 {
        Err(Error::InvalidPagination { parameter: Parameter::Page })
    } else if page_size < 1 {
        Err(Error::InvalidPagination { parameter: Parameter::PageSize })
    } else {
        match page.checked_mul(page_size) {
            Some(_) => Ok(()),
            None => Err(Error::InvalidPagination { parameter: Parameter::Page }),
        }
    }
}

/// The numbers of the items of a valid page lie between 1 and `i64::MAX`.
pub proof fn lemma_page_within_bounds(page: int, page_size: int, returned_count: int)
    requires
        valid_pagination(page, page_size),
        0 <= returned_count <= page_size,
    ensures
        0 <= offset_of(page, page_size),
        offset_of(page, page_size) + page_size == page * page_size,
        1 <= first_item(page, page_size) <= i64::MAX,
        0 <= last_item(page, page_size, returned_count) <= i64::MAX,
{
    assert((page - 1) * page_size + page_size == page * page_size) by (nonlinear_arith);
    assert(0 <= (page - 1) * page_size) by (nonlinear_arith)
        requires
            1 <= page,
            1 <= page_size,
    ;
}

/// Every field of the metadata of a valid page holds the number it stands
/// for.
pub proof fn lemma_meta_describes(total_docs: int, page: int, page_size: int, returned_count: int)
    requires
        valid_pagination(page, page_size),
        0 <= total_docs <= i64::MAX,
        0 <= returned_count <= page_size,
    ensures
        meta_of(total_docs, page, page_size, returned_count).describes(
            total_docs,
            page,
            page_size,
            returned_count,
        ),
{
    lemma_page_within_bounds(page, page_size, returned_count);
    lemma_page_count_is_ceiling(total_docs, page_size);
    assert(page <= page * page_size && page_size <= page * page_size) by (nonlinear_arith)
        requires
            1 <= page,
            1 <= page_size,
    ;
}

/// The range of a page: a page's first item follows the `page - 1` full
/// pages before it, a full page ends `page_size - 1` items after its first
/// item, and `to - from + 1` is the number of records on the page, so that
/// `from <= to` exactly when the page is not empty.
pub proof fn lemma_page_range(
    meta: PaginationMeta,
    total_docs: int,
    page: int,
    page_size: int,
    returned_count: int,
)
    requires
        valid_pagination(page, page_size),
        0 <= returned_count <= page_size,
        meta.describes(total_docs, page, page_size, returned_count),
    ensures
        meta.from == (page - 1) * page_size + 1,
        returned_count == page_size ==> meta.to == meta.from + page_size - 1,
        meta.to - meta.from + 1 == returned_count,
        meta.to - meta.from + 1 <= meta.per_page,
        meta.from <= meta.to <==> returned_count > 0,
{
}

/// `page_count` is the ceiling of `total_docs / page_size`: the pages hold
/// all documents, one page fewer would not, and there is no page only where
/// there is no document.
pub proof fn lemma_page_count_is_ceiling(total_docs: int, page_size: int)
    requires
        0 <= total_docs,
        1 <= page_size,
    ensures
        total_docs <= page_count(total_docs, page_size) * page_size,
        (page_count(total_docs, page_size) - 1) * page_size < total_docs || total_docs == 0,
        page_count(total_docs, page_size) == 0 <==> total_docs == 0,
        0 <= total_docs / page_size <= page_count(total_docs, page_size) <= total_docs,
{
    let q = total_docs / page_size;
    let r = total_docs % page_size;
    assert(total_docs == page_size * q + r && 0 <= r < page_size) by (nonlinear_arith)
        requires
            q == total_docs / page_size,
            r == total_docs % page_size,
            1 <= page_size,
    ;
    assert(0 <= q) by (nonlinear_arith)
        requires
            total_docs == page_size * q + r,
            0 <= r < page_size,
            0 <= total_docs,
            1 <= page_size,
    ;
    assert(q * page_size == page_size * q && (q + 1) * page_size == page_size * q + page_size
        && (q - 1) * page_size == page_size * q - page_size) by (nonlinear_arith);
    assert(q <= page_size * q) by (nonlinear_arith)
        requires
            0 <= q,
            1 <= page_size,
    ;
}

} // verus!
