//! What passes between an operation and the store.
//!
//! The store is a collaborator: it holds the three relations, hands out
//! connections from a bounded pool, and runs one statement at a time. An
//! operation never touches it. It is handed what the store last reported,
//! a `StoreEvent`, and answers with a `Step`: the next request for the
//! store, or the end of the operation. Whoever drives the operation acquires
//! one connection, opens a unit of work on it, reports `Opened`, performs
//! each request and reports its result, and ends as the last step tells,
//! releasing the connection on every path. Where the commit itself fails,
//! the operation has failed with `Error::commit_failure`.

use crate::aggregate::{row_views, JoinRow, JoinRowView, TagEncoding};
use crate::error::Error;
use crate::models::{NewPost, NewPostTag, NewPostTagView, NewPostView, NewUser, NewUserView, User, UserView};
use vstd::prelude::*;

verus! {

/// What the store reports.
#[derive(Clone, Debug, PartialEq, Eq)]
pub enum StoreEvent {
    /// A connection was acquired and a unit of work opened on it.
    Opened,
    /// No connection could be acquired.
    Unavailable,
    /// The store rejected the statement.
    Rejected,
    /// The row was inserted, and this is the identifier that the store
    /// assigned to it, returned by the insert itself.
    Inserted(i32),
    /// The row was inserted, but the store returned no identifier for it.
    Unidentified,
    /// The tag associations were inserted.
    Stored,
    /// The user that was looked up, if there is one.
    Found(Option<User>),
    /// The number of posts that match the filter.
    Counted(i64),
    /// The rows of the page, and how they carry the tags.
    Fetched(Vec<JoinRow>, TagEncoding),
}

/// What a `StoreEvent` holds, each text as the sequence of its characters.
pub enum StoreEventView {
    Opened,
    Unavailable,
    Rejected,
    Inserted(i32),
    Unidentified,
    Stored,
    Found(Option<UserView>),
    Counted(i64),
    Fetched(Seq<JoinRowView>, TagEncoding),
}

impl View for StoreEvent {
    type V = StoreEventView;

    open spec fn view(&self) -> StoreEventView {
        match self {
            StoreEvent::Opened => StoreEventView::Opened,
            StoreEvent::Unavailable => StoreEventView::Unavailable,
            StoreEvent::Rejected => StoreEventView::Rejected,
            StoreEvent::Inserted(id) => StoreEventView::Inserted(*id),
            StoreEvent::Unidentified => StoreEventView::Unidentified,
            StoreEvent::Stored => StoreEventView::Stored,
            StoreEvent::Found(user) => StoreEventView::Found(
                match user {
                    Some(user) => Some(user@),
                    None => None,
                },
            ),
            StoreEvent::Counted(n) => StoreEventView::Counted(*n),
            StoreEvent::Fetched(rows, encoding) => StoreEventView::Fetched(
                row_views(rows@),
                *encoding,
            ),
        }
    }
}

/// What an operation asks of the store.
#[derive(Clone, Debug, PartialEq, Eq)]
pub enum StoreRequest<'a> {
    /// Insert the user and return the identifier assigned to it.
    InsertUser(&'a NewUser),
    /// Insert the post and return the identifier assigned to it.
    InsertPost(NewPost),
    /// Insert the tag associations, all of them or none.
    InsertTags(Vec<NewPostTag<'a>>),
    /// Look up the user with this identifier.
    FindUser(i32),
    /// Count the posts whose title is like `pattern`.
    Count { pattern: &'a str },
    /// Fetch the posts whose title is like `pattern`, each joined to its tag
    /// associations and to its author, by identifier descending, `limit`
    /// posts from the one that `offset` others precede.
    Fetch { pattern: &'a str, limit: i64, offset: i64 },
}

/// What a `StoreRequest` holds, each text as the sequence of its characters.
pub enum StoreRequestView {
    InsertUser(NewUserView),
    InsertPost(NewPostView),
    InsertTags(Seq<NewPostTagView>),
    FindUser(i32),
    Count { pattern: Seq<char> },
    Fetch { pattern: Seq<char>, limit: i64, offset: i64 },
}

/// The view of each tag association of `rows`.
pub open spec fn tag_views(rows: Seq<NewPostTag<'_>>) -> Seq<NewPostTagView> {
    Seq::new(rows.len(), |i: int| rows[i]@)
}

impl<'a> View for StoreRequest<'a> {
    type V = StoreRequestView;

    open spec fn view(&self) -> StoreRequestView {
        match self {
            StoreRequest::InsertUser(user) => StoreRequestView::InsertUser(user@),
            StoreRequest::InsertPost(post) => StoreRequestView::InsertPost(post@),
            StoreRequest::InsertTags(rows) => StoreRequestView::InsertTags(tag_views(rows@)),
            StoreRequest::FindUser(id) => StoreRequestView::FindUser(*id),
            StoreRequest::Count { pattern } => StoreRequestView::Count { pattern: pattern@ },
            StoreRequest::Fetch { pattern, limit, offset } => StoreRequestView::Fetch {
                pattern: pattern@,
                limit: *limit,
                offset: *offset,
            },
        }
    }
}

/// What an operation in state `S` does next, `T` being what it yields.
#[derive(Clone, Debug, PartialEq, Eq)]
pub enum Step<'a, S, T> {
    /// Perform `request`, and hand its result to the operation in `state`.
    Ask { state: S, request: StoreRequest<'a> },
    /// The operation is done: make the unit of work lasting, and this is
    /// its result.
    Commit(T),
    /// The operation failed: undo the unit of work, so that nothing of it
    /// can be observed.
    Rollback(Error),
    /// The operation failed before a unit of work was opened.
    Fail(Error),
}

/// What a `Step` holds, each text as the sequence of its characters.
pub enum StepView<S, V> {
    Ask { state: S, request: StoreRequestView },
    Commit(V),
    Rollback(Error),
    Fail(Error),
}

impl<'a, S, T: View> View for Step<'a, S, T> {
    type V = StepView<S, T::V>;

    open spec fn view(&self) -> StepView<S, T::V> {
        match self {
            Step::Ask { state, request } => StepView::Ask { state: *state, request: request@ },
            Step::Commit(result) => StepView::Commit(result@),
            Step::Rollback(error) => StepView::Rollback(*error),
            Step::Fail(error) => StepView::Fail(*error),
        }
    }
}

/// The step that an operation ends on, or stands at, when it starts in
/// `state` and is handed `events` one after another: the first step that
/// asks nothing more of the store, or else the step after the last event.
pub open spec fn run<S, V>(
    step: spec_fn(S, StoreEventView) -> StepView<S, V>,
    state: S,
    events: Seq<StoreEventView>,
) -> StepView<S, V>
    recommends
        events.len() > 0,
    decreases events.len(),
{
    let reached = step(state, events.first());
    match reached {
        StepView::Ask { state: next, .. } => if events.len() > 1 {
            run(step, next, events.drop_first())
        } else {
            reached
        },
        _ => reached,
    }
}

} // verus!
