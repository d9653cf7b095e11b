//! The write path of users: insert the user, recover the identifier that
//! the store assigned, and return the full record.

use crate::error::{Error, Operation};
use crate::models::{copy_text, NewUser, NewUserView, User, UserView};
use crate::store::{
    run, Step, StepView, StoreEvent, StoreEventView, StoreRequest, StoreRequestView,
};
use vstd::prelude::*;

verus! {

/// Where the creation of a user stands.
#[derive(Clone, Copy, Debug, PartialEq, Eq, Structural)]
pub enum UserWrite {
    /// Nothing was asked of the store yet.
    Start,
    /// The insert of the user was asked for.
    Sent,
}

/// The user that the store holds once it has inserted `data` under `id`.
pub open spec fn created_user(data: NewUserView, id: i32) -> UserView {
    UserView {
        id,
        username: data.username,
        first_name: data.first_name,
        last_name: data.last_name,
    }
}

/// The step of `create_user`. The user is inserted once a unit of work is
/// open, and the record is made of what was inserted and of the identifier
/// that the insert returned. Every failure of the store ends the operation.
pub open spec fn user_step(data: NewUserView, state: UserWrite, event: StoreEventView) -> StepView<
    UserWrite,
    UserView,
> {
    match state {
        UserWrite::Start => match event {
            StoreEventView::Opened => StepView::Ask {
                state: UserWrite::Sent,
                request: StoreRequestView::InsertUser(data),
            },
            _ => StepView::Fail(Error::StoreUnavailable { operation: Operation::CreateUser }),
        },
        UserWrite::Sent => match event {
            StoreEventView::Inserted(id) => StepView::Commit(created_user(data, id)),
            StoreEventView::Unidentified => StepView::Rollback(
                Error::ReadAfterWriteFailed { operation: Operation::CreateUser },
            ),
            _ => StepView::Rollback(Error::WriteFailed { operation: Operation::CreateUser }),
        },
    }
}

/// The record of a user that was inserted under `id`.
pub fn user_record(user_data: &NewUser, id: i32) -> (user: User)
    ensures
        user@ == created_user(user_data@, id),
{
    User {
        id,
        username: user_data.username.clone(),
        first_name: copy_text(&user_data.first_name),
        last_name: copy_text(&user_data.last_name),
    }
}

/// Creates a user, one step at a time: `state` is where the creation
/// stands, `event` what the store reported last. The first call is made in
/// `UserWrite::Start`, with the outcome of acquiring a connection.
pub fn create_user<'a>(user_data: &'a NewUser, state: UserWrite, event: StoreEvent) -> (step: Step<
    'a,
    UserWrite,
    User,
>)
    ensures
        step@ == user_step(user_data@, state, event@),
{
    match state {
        UserWrite::Start => match event {
            StoreEvent::Opened => Step::Ask {
                state: UserWrite::Sent,
                request: StoreRequest::InsertUser(user_data),
            },
            _ => Step::Fail(Error::StoreUnavailable { operation: Operation::CreateUser }),
        },
        UserWrite::Sent => match event {
            StoreEvent::Inserted(id) => Step::Commit(user_record(user_data, id)),
            StoreEvent::Unidentified => Step::Rollback(
                Error::ReadAfterWriteFailed { operation: Operation::CreateUser },
            ),
            _ => Step::Rollback(Error::WriteFailed { operation: Operation::CreateUser }),
        },
    }
}

/// The step that the creation of a user ends on, or stands at, when it is
/// handed `events` one after another from its start.
pub open spec fn user_run(data: NewUserView, events: Seq<StoreEventView>) -> StepView<
    UserWrite,
    UserView,
>
    recommends
        events.len() > 0,
{
    run(
        |state: UserWrite, event: StoreEventView| user_step(data, state, event),
        UserWrite::Start,
        events,
    )
}

/// A creation commits a user exactly where the store first opens a unit of
/// work and then returns the identifier of the inserted user, and the user
/// committed has that identifier and the names given. A creation fails
/// without a rollback only where no unit of work was opened.
pub proof fn lemma_user_is_written(data: NewUserView, events: Seq<StoreEventView>)
    requires
        events.len() > 0,
    ensures
        user_run(data, events) is Commit <==> events.len() >= 2 && events[0]
            == StoreEventView::Opened && events[1] is Inserted,
        user_run(data, events) matches StepView::Commit(user) ==> user == created_user(
            data,
            events[1]->Inserted_0,
        ),
        user_run(data, events) is Fail <==> events[0] != StoreEventView::Opened,
{
    reveal_with_fuel(run, 3);
    if events.len() > 1 {
        assert(events.drop_first().first() == events[1]);
    }
}

} // verus!
