//! The query builder: from the parameters of a listing request to the one
//! description of the query that both the count and the fetch are made from.

use crate::error::{Error, Parameter};
use crate::models::opt_text;
use crate::pagination::{
    lemma_page_within_bounds, offending_parameter, offset_of, valid_pagination, validate,
    DEFAULT_PAGE, DEFAULT_PAGE_SIZE,
};
use vstd::prelude::*;
use vstd::string::*;

verus! {

/// The pattern that a title must be like: the search term between two
/// wildcards, so that the term may stand anywhere in the title. Without a
/// term the pattern is two wildcards, which every title is like. The term is
/// bound as it stands: a wildcard inside it is a wildcard of the pattern.
pub open spec fn like_pattern(search: Option<Seq<char>>) -> Seq<char> {
    match search {
        Some(term) => seq!['%'] + term + seq!['%'],
        None => seq!['%', '%'],
    }
}

/// The number that a request asks for, `default` where it names none.
pub open spec fn requested(parameter: Option<u32>, default: u32) -> int {
    match parameter {
        Some(n) => n as int,
        None => default as int,
    }
}

/// A listing query: the posts whose title is like `pattern`, the most
/// recently created first (by identifier, descending: identifiers are unique,
/// so no second key is needed), `page_size` of them from the one that
/// `(page - 1) * page_size` others precede.
pub struct PostQuery {
    pattern: String,
    page: u32,
    page_size: u32,
}

/// What a `PostQuery` holds, each text as the sequence of its characters.
pub struct PostQueryView {
    pub pattern: Seq<char>,
    pub page: int,
    pub page_size: int,
}

impl View for PostQuery {
    type V = PostQueryView;

    closed spec fn view(&self) -> PostQueryView {
        PostQueryView {
            pattern: self.pattern@,
            page: self.page as int,
            page_size: self.page_size as int,
        }
    }
}

impl PostQueryView {
    /// The query asks for a page of a listing.
    pub open spec fn well_formed(self) -> bool {
        valid_pagination(self.page, self.page_size)
    }

    /// The query that a request describes; the parameter that is out of
    /// range where it describes none.
    pub open spec fn build(page: Option<u32>, limit: Option<u32>, search: Option<Seq<char>>) -> Result<
        PostQueryView,
        Parameter,
    > {
        let page = requested(page, DEFAULT_PAGE);
        let page_size = requested(limit, DEFAULT_PAGE_SIZE);
        match offending_parameter(page, page_size) {
            Some(parameter) => Err(parameter),
            None => Ok(PostQueryView { pattern: like_pattern(search), page, page_size }),
        }
    }
}

impl PostQuery {
    #[verifier::type_invariant]
    pub open spec fn well_formed(&self) -> bool {
        self@.well_formed()
    }

    /// Builds the query of a listing request. A request without a page asks
    /// for page 1, one without a limit for 10 posts to the page. A page or
    /// a limit of 0 is rejected, and so is a page that lies so far out that
    /// its items cannot be numbered.
    pub fn new(page: Option<u32>, limit: Option<u32>, search: Option<String>) -> (outcome: Result<
        PostQuery,
        Error,
    >)
        ensures
            match PostQueryView::build(page, limit, opt_text(search)) {
                Ok(view) => outcome matches Ok(query) && query@ == view,
                Err(parameter) => outcome == Err::<PostQuery, Error>(
                    Error::InvalidPagination { parameter },
                ),
            },
    {
        let page: u32 = match page {
            Some(n) => n,
            None => DEFAULT_PAGE,
        };
        let page_size: u32 = match limit {
            Some(n) => n,
            None => DEFAULT_PAGE_SIZE,
        };
        match validate(page as i64, page_size as i64) {
            Ok(()) => Ok(PostQuery { pattern: make_pattern(&search), page, page_size }),
            Err(error) => Err(error),
        }
    }

    /// The pattern that the title of a post must be like.
    pub fn pattern(&self) -> (pattern: &str)
        ensures
            pattern@ == self@.pattern,
    {
        self.pattern.as_str()
    }

    /// The page asked for.
    pub fn page(&self) -> (page: i64)
        ensures
            page == self@.page,
            self@.well_formed(),
    {
        proof {
            use_type_invariant(self);
        }
        self.page as i64
    }

    /// The number of posts to a page.
    pub fn page_size(&self) -> (page_size: i64)
        ensures
            page_size == self@.page_size,
            self@.well_formed(),
    {
        proof {
            use_type_invariant(self);
        }
        self.page_size as i64
    }

    /// The most rows that the fetch may return.
    pub fn limit(&self) -> (limit: i64)
        ensures
            limit == self@.page_size,
            self@.well_formed(),
    {
        self.page_size()
    }

    /// The number of rows that the fetch skips.
    pub fn offset(&self) -> (offset: i64)
        ensures
            offset == offset_of(self@.page, self@.page_size),
            self@.well_formed(),
    {
        proof {
            use_type_invariant(self);
            lemma_page_within_bounds(self.page as int, self.page_size as int, 0);
        }
        (self.page as i64 - 1) * (self.page_size as i64)
    }
}

/// Builds `like_pattern`.
pub fn make_pattern(search: &Option<String>) -> (pattern: String)
    ensures
        pattern@ == like_pattern(opt_text(*search)),
{
    proof {
        reveal_strlit("%");
    }
    let mut pattern = String::from_str("%");
    match search {
        Some(term) => {
            pattern.append(term.as_str());
        },
        None => {},
    }
    pattern.append("%");
    assert(pattern@ =~= like_pattern(opt_text(*search)));
    pattern
}

/// A request without a search term and a request with the empty search term
/// make the same query: the store is asked the same count and the same
/// fetch, so both listings report the same number of documents.
pub proof fn lemma_absent_search_is_empty_search(page: Option<u32>, limit: Option<u32>)
    ensures
        PostQueryView::build(page, limit, None) == PostQueryView::build(
            page,
            limit,
            Some(Seq::<char>::empty()),
        ),
{
    assert(like_pattern(None) =~= like_pattern(Some(Seq::<char>::empty())));
}

} // verus!
