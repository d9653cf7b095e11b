//! Failures that the operations report.

use vstd::prelude::*;
use vstd::string::*;

verus! {

/// The operation during which a failure arose.
#[derive(Clone, Copy, Debug, PartialEq, Eq, Structural)]
pub enum Operation {
    CreateUser,
    CreatePost,
    ListPosts,
}

/// A request parameter that was out of range.
#[derive(Clone, Copy, Debug, PartialEq, Eq, Structural)]
pub enum Parameter {
    Page,
    PageSize,
}

/// Why an operation did not yield a result. No failure is fatal and none is
/// retried here: whether to try again is the caller's decision.
#[derive(Clone, Copy, Debug, PartialEq, Eq, Structural)]
pub enum Error {
    /// No connection to the store could be acquired.
    StoreUnavailable { operation: Operation },
    /// The store rejected a count, a fetch or a lookup.
    QueryExecutionFailed { operation: Operation },
    /// The store rejected an insert.
    WriteFailed { operation: Operation },
    /// A row was inserted, but the identifier that the store gave it could
    /// not be recovered.
    ReadAfterWriteFailed { operation: Operation },
    /// Two join rows of post `post_id` disagree on whether the post has tags
    /// or on whether it has an author.
    MalformedRow { post_id: i32 },
    /// A page number or page size that no listing can be made for.
    InvalidPagination { parameter: Parameter },
}

impl Operation {
    /// The operation's name, as `describe` prints it.
    pub open spec fn name(self) -> Seq<char> {
        match self {
            Operation::CreateUser => "create_user"@,
            Operation::CreatePost => "create_post"@,
            Operation::ListPosts => "list_posts"@,
        }
    }

    /// The operation's name.
    pub fn label(self) -> (text: &'static str)
        ensures
            text@ == self.name(),
    {
        match self {
            Operation::CreateUser => "create_user",
            Operation::CreatePost => "create_post",
            Operation::ListPosts => "list_posts",
        }
    }
}

impl Error {
    /// What an operation reports where the store, at the very end, cannot
    /// make its unit of work lasting: a write has failed, or, for a
    /// listing, the query.
    pub open spec fn lost(operation: Operation) -> Error {
        match operation {
            Operation::ListPosts => Error::QueryExecutionFailed { operation },
            _ => Error::WriteFailed { operation },
        }
    }

    /// The failure of `operation` where its unit of work cannot be
    /// committed.
    pub fn commit_failure(operation: Operation) -> (error: Error)
        ensures
            error == Error::lost(operation),
    {
        match operation {
            Operation::ListPosts => Error::QueryExecutionFailed { operation },
            _ => Error::WriteFailed { operation },
        }
    }
}

impl Parameter {
    /// The parameter's name, as `describe` prints it.
    pub open spec fn name(self) -> Seq<char> {
        match self {
            Parameter::Page => "page"@,
            Parameter::PageSize => "page_size"@,
        }
    }

    /// The parameter's name.
    pub fn label(self) -> (text: &'static str)
        ensures
            text@ == self.name(),
    {
        match self {
            Parameter::Page => "page",
            Parameter::PageSize => "page_size",
        }
    }
}

impl Error {
    /// The text of `describe`: the operation or the offending parameter,
    /// a colon, and the kind of failure.
    pub open spec fn text(self) -> Seq<char> {
        match self {
            Error::StoreUnavailable { operation } => operation.name() + ": store unavailable"@,
            Error::QueryExecutionFailed { operation } => operation.name()
                + ": query execution failed"@,
            Error::WriteFailed { operation } => operation.name() + ": write failed"@,
            Error::ReadAfterWriteFailed { operation } => operation.name()
                + ": read after write failed"@,
            Error::MalformedRow { .. } => "list_posts: malformed row"@,
            Error::InvalidPagination { parameter } => parameter.name() + ": invalid pagination"@,
        }
    }

    /// A message for the caller to build its own wording on.
    pub fn describe(&self) -> (message: String)
        ensures
            message@ == self.text(),
    {
        match self {
            Error::StoreUnavailable { operation } => String::from_str(operation.label()).concat(
                ": store unavailable",
            ),
            Error::QueryExecutionFailed { operation } => String::from_str(
                operation.label(),
            ).concat(": query execution failed"),
            Error::WriteFailed { operation } => String::from_str(operation.label()).concat(
                ": write failed",
            ),
            Error::ReadAfterWriteFailed { operation } => String::from_str(
                operation.label(),
            ).concat(": read after write failed"),
            Error::MalformedRow { .. } => String::from_str("list_posts: malformed row"),
            Error::InvalidPagination { parameter } => String::from_str(parameter.label()).concat(
                ": invalid pagination",
            ),
        }
    }
}

} // verus!
