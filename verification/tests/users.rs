use blog_core::error::{Error, Operation};
use blog_core::models::{NewUser, User};
use blog_core::store::{Step, StoreEvent, StoreRequest};
use blog_core::users::{create_user, user_record, UserWrite};

fn alice() -> NewUser {
    NewUser { username: "alice".to_string(), first_name: None, last_name: None }
}

#[test]
fn user_is_inserted_once_the_store_is_open() {
    let data = alice();
    assert_eq!(
        create_user(&data, UserWrite::Start, StoreEvent::Opened),
        Step::Ask { state: UserWrite::Sent, request: StoreRequest::InsertUser(&data) }
    );
}

#[test]
fn user_gets_the_identifier_that_the_insert_returned() {
    let data = alice();
    assert_eq!(
        create_user(&data, UserWrite::Sent, StoreEvent::Inserted(1)),
        Step::Commit(User { id: 1, username: "alice".to_string(), first_name: None, last_name: None })
    );
}

#[test]
fn user_record_keeps_the_names() {
    let data = NewUser {
        username: "bob".to_string(),
        first_name: Some("Bob".to_string()),
        last_name: Some("Builder".to_string()),
    };
    assert_eq!(
        user_record(&data, 42),
        User {
            id: 42,
            username: "bob".to_string(),
            first_name: Some("Bob".to_string()),
            last_name: Some("Builder".to_string()),
        }
    );
}

#[test]
fn no_connection_is_store_unavailable() {
    let data = alice();
    let failed = Step::Fail(Error::StoreUnavailable { operation: Operation::CreateUser });
    assert_eq!(create_user(&data, UserWrite::Start, StoreEvent::Unavailable), failed);
    assert_eq!(create_user(&data, UserWrite::Start, StoreEvent::Rejected), failed);
    assert_eq!(create_user(&data, UserWrite::Start, StoreEvent::Inserted(1)), failed);
}

#[test]
fn rejected_insert_is_write_failed() {
    let data = alice();
    let failed = Step::Rollback(Error::WriteFailed { operation: Operation::CreateUser });
    assert_eq!(create_user(&data, UserWrite::Sent, StoreEvent::Rejected), failed);
    assert_eq!(create_user(&data, UserWrite::Sent, StoreEvent::Unavailable), failed);
    assert_eq!(create_user(&data, UserWrite::Sent, StoreEvent::Stored), failed);
    assert_eq!(create_user(&data, UserWrite::Sent, StoreEvent::Found(None)), failed);
}

#[test]
fn missing_identifier_is_read_after_write_failed() {
    let data = alice();
    assert_eq!(
        create_user(&data, UserWrite::Sent, StoreEvent::Unidentified),
        Step::Rollback(Error::ReadAfterWriteFailed { operation: Operation::CreateUser })
    );
}
