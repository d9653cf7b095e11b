use blog_core::aggregate::{JoinRow, TagEncoding};
use blog_core::error::{Error, Operation};
use blog_core::models::{
    NewPost, NewPostTag, NewPostWithTags, PaginatedPosts, PaginationMeta, PostWithTags, User,
    UserInfo,
};
use blog_core::posts::{
    author_info, create_post, is_most_recent_first, list_posts, new_post_row, post_record, tag_rows,
    Listing, PostWrite,
};
use blog_core::query::PostQuery;
use blog_core::store::{Step, StoreEvent, StoreRequest};

fn hello(tags: &[&str]) -> NewPostWithTags {
    NewPostWithTags {
        created_by: 1,
        title: "Hello".to_string(),
        body: "World".to_string(),
        tags: tags.iter().map(|t| t.to_string()).collect(),
    }
}

fn alice() -> User {
    User { id: 1, username: "alice".to_string(), first_name: None, last_name: None }
}

fn row(post_id: i32, title: &str, tag: Option<&str>) -> JoinRow {
    JoinRow {
        post_id,
        title: title.to_string(),
        body: "World".to_string(),
        tag: tag.map(|t| t.to_string()),
        author_id: None,
        username: None,
        first_name: None,
        last_name: None,
    }
}

fn query_failed() -> Step<'static, Listing, PaginatedPosts> {
    Step::Rollback(Error::QueryExecutionFailed { operation: Operation::ListPosts })
}

#[test]
fn post_is_inserted_once_the_store_is_open() {
    let data = hello(&["intro", "misc"]);
    assert_eq!(
        create_post(&data, PostWrite::Start, StoreEvent::Opened),
        Step::Ask {
            state: PostWrite::PostSent,
            request: StoreRequest::InsertPost(NewPost {
                created_by: 1,
                title: "Hello".to_string(),
                body: "World".to_string(),
            }),
        }
    );
}

#[test]
fn tags_are_bound_to_the_returned_identifier() {
    let data = hello(&["intro", "misc"]);
    assert_eq!(
        create_post(&data, PostWrite::PostSent, StoreEvent::Inserted(17)),
        Step::Ask {
            state: PostWrite::TagsSent { id: 17 },
            request: StoreRequest::InsertTags(vec![
                NewPostTag { fk_post_id: 17, tag: "intro" },
                NewPostTag { fk_post_id: 17, tag: "misc" },
            ]),
        }
    );
}

#[test]
fn one_tag_association_for_each_tag_given() {
    let tags = vec!["a".to_string(), "b".to_string(), "a".to_string()];
    assert_eq!(
        tag_rows(9, &tags),
        vec![
            NewPostTag { fk_post_id: 9, tag: "a" },
            NewPostTag { fk_post_id: 9, tag: "b" },
            NewPostTag { fk_post_id: 9, tag: "a" },
        ]
    );
    assert_eq!(tag_rows(9, &Vec::new()), Vec::new());
}

#[test]
fn two_creations_keep_their_own_tags() {
    let first = hello(&["a", "b"]);
    let second = hello(&["c"]);
    let first_open = create_post(&first, PostWrite::Start, StoreEvent::Opened);
    let second_open = create_post(&second, PostWrite::Start, StoreEvent::Opened);
    assert!(matches!(first_open, Step::Ask { state: PostWrite::PostSent, .. }));
    assert!(matches!(second_open, Step::Ask { state: PostWrite::PostSent, .. }));
    let second_tags = create_post(&second, PostWrite::PostSent, StoreEvent::Inserted(1));
    let first_tags = create_post(&first, PostWrite::PostSent, StoreEvent::Inserted(2));
    assert_eq!(
        first_tags,
        Step::Ask {
            state: PostWrite::TagsSent { id: 2 },
            request: StoreRequest::InsertTags(vec![
                NewPostTag { fk_post_id: 2, tag: "a" },
                NewPostTag { fk_post_id: 2, tag: "b" },
            ]),
        }
    );
    assert_eq!(
        second_tags,
        Step::Ask {
            state: PostWrite::TagsSent { id: 1 },
            request: StoreRequest::InsertTags(vec![NewPostTag { fk_post_id: 1, tag: "c" }]),
        }
    );
    let first_done = create_post(&first, PostWrite::AuthorAsked { id: 2 }, StoreEvent::Found(None));
    let second_done = create_post(&second, PostWrite::AuthorAsked { id: 1 }, StoreEvent::Found(None));
    match (first_done, second_done) {
        (Step::Commit(a), Step::Commit(b)) => {
            assert_eq!(a.id, 2);
            assert_eq!(a.tags, vec!["a".to_string(), "b".to_string()]);
            assert_eq!(b.id, 1);
            assert_eq!(b.tags, vec!["c".to_string()]);
        }
        _ => panic!("both creations commit"),
    }
}

#[test]
fn author_is_looked_up_after_the_tags() {
    let data = hello(&["intro"]);
    assert_eq!(
        create_post(&data, PostWrite::TagsSent { id: 17 }, StoreEvent::Stored),
        Step::Ask { state: PostWrite::AuthorAsked { id: 17 }, request: StoreRequest::FindUser(1) }
    );
}

#[test]
fn created_post_has_its_author() {
    let data = hello(&["intro", "misc"]);
    assert_eq!(
        create_post(&data, PostWrite::AuthorAsked { id: 1 }, StoreEvent::Found(Some(alice()))),
        Step::Commit(PostWithTags {
            id: 1,
            title: "Hello".to_string(),
            body: "World".to_string(),
            tags: vec!["intro".to_string(), "misc".to_string()],
            created_by: Some(UserInfo {
                user_id: 1,
                username: "alice".to_string(),
                first_name: None,
                last_name: None,
            }),
        })
    );
}

#[test]
fn unknown_author_is_absent_not_an_error() {
    let mut data = hello(&["intro"]);
    data.created_by = 999;
    assert_eq!(
        create_post(&data, PostWrite::TagsSent { id: 5 }, StoreEvent::Stored),
        Step::Ask { state: PostWrite::AuthorAsked { id: 5 }, request: StoreRequest::FindUser(999) }
    );
    assert_eq!(
        create_post(&data, PostWrite::AuthorAsked { id: 5 }, StoreEvent::Found(None)),
        Step::Commit(PostWithTags {
            id: 5,
            title: "Hello".to_string(),
            body: "World".to_string(),
            tags: vec!["intro".to_string()],
            created_by: None,
        })
    );
}

#[test]
fn repeated_tags_collapse_in_the_created_post() {
    let data = hello(&["a", "b", "a"]);
    assert_eq!(post_record(&data, 3, None).tags, vec!["a".to_string(), "b".to_string()]);
    let untagged = hello(&[]);
    assert!(post_record(&untagged, 3, None).tags.is_empty());
}

#[test]
fn author_info_keeps_the_names() {
    let user = User {
        id: 4,
        username: "bob".to_string(),
        first_name: Some("Bob".to_string()),
        last_name: None,
    };
    assert_eq!(
        author_info(user),
        UserInfo {
            user_id: 4,
            username: "bob".to_string(),
            first_name: Some("Bob".to_string()),
            last_name: None,
        }
    );
}

#[test]
fn new_post_row_leaves_the_tags_out() {
    assert_eq!(
        new_post_row(&hello(&["x"])),
        NewPost { created_by: 1, title: "Hello".to_string(), body: "World".to_string() }
    );
}

#[test]
fn creation_without_connection_is_store_unavailable() {
    let data = hello(&[]);
    let failed = Step::Fail(Error::StoreUnavailable { operation: Operation::CreatePost });
    assert_eq!(create_post(&data, PostWrite::Start, StoreEvent::Unavailable), failed);
    assert_eq!(create_post(&data, PostWrite::Start, StoreEvent::Rejected), failed);
}

#[test]
fn rejected_post_insert_is_write_failed() {
    let data = hello(&[]);
    let failed = Step::Rollback(Error::WriteFailed { operation: Operation::CreatePost });
    assert_eq!(create_post(&data, PostWrite::PostSent, StoreEvent::Rejected), failed);
    assert_eq!(create_post(&data, PostWrite::PostSent, StoreEvent::Stored), failed);
}

#[test]
fn missing_post_identifier_is_read_after_write_failed() {
    let data = hello(&[]);
    assert_eq!(
        create_post(&data, PostWrite::PostSent, StoreEvent::Unidentified),
        Step::Rollback(Error::ReadAfterWriteFailed { operation: Operation::CreatePost })
    );
}

#[test]
fn rejected_tag_insert_rolls_the_post_back() {
    let data = hello(&["a"]);
    let failed = Step::Rollback(Error::WriteFailed { operation: Operation::CreatePost });
    assert_eq!(create_post(&data, PostWrite::TagsSent { id: 1 }, StoreEvent::Rejected), failed);
    assert_eq!(create_post(&data, PostWrite::TagsSent { id: 1 }, StoreEvent::Inserted(2)), failed);
    assert_eq!(create_post(&data, PostWrite::TagsSent { id: 1 }, StoreEvent::Unidentified), failed);
}

#[test]
fn rejected_author_lookup_rolls_the_post_back() {
    let data = hello(&["a"]);
    assert_eq!(
        create_post(&data, PostWrite::AuthorAsked { id: 1 }, StoreEvent::Rejected),
        Step::Rollback(Error::QueryExecutionFailed { operation: Operation::CreatePost })
    );
}

#[test]
fn listing_counts_first() {
    let query = PostQuery::new(Some(1), Some(10), Some("Hel".to_string())).unwrap();
    assert_eq!(
        list_posts(&query, Listing::Start, StoreEvent::Opened),
        Step::Ask { state: Listing::Counting, request: StoreRequest::Count { pattern: "%Hel%" } }
    );
}

#[test]
fn listing_fetches_with_the_filter_of_the_count() {
    let query = PostQuery::new(Some(3), Some(10), Some("Hel".to_string())).unwrap();
    assert_eq!(
        list_posts(&query, Listing::Counting, StoreEvent::Counted(25)),
        Step::Ask {
            state: Listing::Fetching { total_docs: 25 },
            request: StoreRequest::Fetch { pattern: "%Hel%", limit: 10, offset: 20 },
        }
    );
}

#[test]
fn listing_reduces_the_rows_of_the_page() {
    let query = PostQuery::new(Some(1), Some(10), Some("Hel".to_string())).unwrap();
    let rows = vec![row(1, "Hello", Some("intro")), row(1, "Hello", Some("misc"))];
    assert_eq!(
        list_posts(
            &query,
            Listing::Fetching { total_docs: 1 },
            StoreEvent::Fetched(rows, TagEncoding::PerRow)
        ),
        Step::Commit(PaginatedPosts {
            records: vec![PostWithTags {
                id: 1,
                title: "Hello".to_string(),
                body: "World".to_string(),
                tags: vec!["intro".to_string(), "misc".to_string()],
                created_by: None,
            }],
            meta: PaginationMeta {
                current_page: 1,
                per_page: 10,
                from: 1,
                to: 1,
                total_pages: 1,
                total_docs: 1,
            },
        })
    );
}

#[test]
fn listing_of_nothing_is_an_empty_page() {
    let query = PostQuery::new(None, None, Some("nothing".to_string())).unwrap();
    assert_eq!(
        list_posts(&query, Listing::Counting, StoreEvent::Counted(0)),
        Step::Ask {
            state: Listing::Fetching { total_docs: 0 },
            request: StoreRequest::Fetch { pattern: "%nothing%", limit: 10, offset: 0 },
        }
    );
    assert_eq!(
        list_posts(
            &query,
            Listing::Fetching { total_docs: 0 },
            StoreEvent::Fetched(Vec::new(), TagEncoding::Joined)
        ),
        Step::Commit(PaginatedPosts {
            records: Vec::new(),
            meta: PaginationMeta {
                current_page: 1,
                per_page: 10,
                from: 1,
                to: 0,
                total_pages: 0,
                total_docs: 0,
            },
        })
    );
}

#[test]
fn listing_counts_records_not_rows() {
    let query = PostQuery::new(Some(2), Some(2), None).unwrap();
    let rows = vec![
        row(6, "f", Some("a")),
        row(6, "f", Some("b")),
        row(6, "f", Some("c")),
        row(5, "e", None),
    ];
    match list_posts(
        &query,
        Listing::Fetching { total_docs: 9 },
        StoreEvent::Fetched(rows, TagEncoding::PerRow),
    ) {
        Step::Commit(page) => {
            assert_eq!(page.records.len(), 2);
            assert_eq!(
                page.meta,
                PaginationMeta {
                    current_page: 2,
                    per_page: 2,
                    from: 3,
                    to: 4,
                    total_pages: 5,
                    total_docs: 9,
                }
            );
        }
        other => panic!("listing did not commit: {:?}", other),
    }
}

#[test]
fn listing_without_connection_is_store_unavailable() {
    let query = PostQuery::new(None, None, None).unwrap();
    assert_eq!(
        list_posts(&query, Listing::Start, StoreEvent::Unavailable),
        Step::Fail(Error::StoreUnavailable { operation: Operation::ListPosts })
    );
}

#[test]
fn rejected_count_is_query_execution_failed() {
    let query = PostQuery::new(None, None, None).unwrap();
    assert_eq!(list_posts(&query, Listing::Counting, StoreEvent::Rejected), query_failed());
    assert_eq!(list_posts(&query, Listing::Counting, StoreEvent::Counted(-1)), query_failed());
    assert_eq!(list_posts(&query, Listing::Counting, StoreEvent::Stored), query_failed());
}

#[test]
fn rejected_fetch_is_query_execution_failed() {
    let query = PostQuery::new(None, None, None).unwrap();
    assert_eq!(
        list_posts(&query, Listing::Fetching { total_docs: 3 }, StoreEvent::Rejected),
        query_failed()
    );
    assert_eq!(
        list_posts(
            &query,
            Listing::Fetching { total_docs: -3 },
            StoreEvent::Fetched(Vec::new(), TagEncoding::PerRow)
        ),
        query_failed()
    );
}

#[test]
fn more_records_than_the_page_holds_is_a_store_fault() {
    let query = PostQuery::new(Some(1), Some(2), None).unwrap();
    let rows = vec![row(3, "c", None), row(2, "b", None), row(1, "a", None)];
    assert_eq!(
        list_posts(
            &query,
            Listing::Fetching { total_docs: 3 },
            StoreEvent::Fetched(rows, TagEncoding::PerRow)
        ),
        query_failed()
    );
}

#[test]
fn malformed_rows_fail_the_listing() {
    let query = PostQuery::new(None, None, None).unwrap();
    let rows = vec![row(3, "c", None), row(3, "c", Some("late"))];
    assert_eq!(
        list_posts(
            &query,
            Listing::Fetching { total_docs: 1 },
            StoreEvent::Fetched(rows, TagEncoding::PerRow)
        ),
        Step::Rollback(Error::MalformedRow { post_id: 3 })
    );
}

#[test]
fn records_out_of_order_are_a_store_fault() {
    let query = PostQuery::new(None, None, None).unwrap();
    let rows = vec![row(2, "b", None), row(3, "c", None)];
    assert_eq!(
        list_posts(
            &query,
            Listing::Fetching { total_docs: 2 },
            StoreEvent::Fetched(rows, TagEncoding::PerRow)
        ),
        query_failed()
    );
    let rows = vec![row(3, "c", Some("x")), row(2, "b", None), row(3, "c", Some("y"))];
    assert!(matches!(
        list_posts(
            &query,
            Listing::Fetching { total_docs: 2 },
            StoreEvent::Fetched(rows, TagEncoding::PerRow)
        ),
        Step::Commit(_)
    ));
}

#[test]
fn is_most_recent_first_wants_descending_identifiers() {
    let post = |id: i32| PostWithTags {
        id,
        title: String::new(),
        body: String::new(),
        tags: Vec::new(),
        created_by: None,
    };
    assert!(is_most_recent_first(&Vec::new()));
    assert!(is_most_recent_first(&vec![post(1)]));
    assert!(is_most_recent_first(&vec![post(9), post(4), post(-2)]));
    assert!(!is_most_recent_first(&vec![post(9), post(4), post(4)]));
    assert!(!is_most_recent_first(&vec![post(1), post(2)]));
    assert!(!is_most_recent_first(&vec![post(3), post(1), post(2)]));
}

#[test]
fn another_user_than_the_author_is_a_store_fault() {
    let data = hello(&["intro"]);
    let mut stranger = alice();
    stranger.id = 2;
    assert_eq!(
        create_post(&data, PostWrite::AuthorAsked { id: 1 }, StoreEvent::Found(Some(stranger))),
        Step::Rollback(Error::QueryExecutionFailed { operation: Operation::CreatePost })
    );
}
