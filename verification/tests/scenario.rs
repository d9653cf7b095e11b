use blog_core::aggregate::{JoinRow, TagEncoding};
use blog_core::error::Error;
use blog_core::models::{
    NewPostWithTags, NewUser, PaginatedPosts, PaginationMeta, Post, PostWithTags, User, UserInfo,
};
use blog_core::posts::{create_post, list_posts, Listing, PostWrite};
use blog_core::query::PostQuery;
use blog_core::store::{Step, StoreEvent, StoreRequest};
use blog_core::users::{create_user, UserWrite};

/// Three relations in memory, standing in for the store.
struct Relations {
    users: Vec<User>,
    posts: Vec<Post>,
    tags: Vec<(i32, String)>,
    encoding: TagEncoding,
}

impl Relations {
    fn new(encoding: TagEncoding) -> Relations {
        Relations { users: Vec::new(), posts: Vec::new(), tags: Vec::new(), encoding }
    }

    fn matching(&self, pattern: &str) -> Vec<&Post> {
        let term = &pattern[1..pattern.len() - 1];
        let mut found: Vec<&Post> = self.posts.iter().filter(|p| p.title.contains(term)).collect();
        found.sort_by(|a, b| b.id.cmp(&a.id));
        found
    }

    fn join(&self, post: &Post, tag: Option<String>) -> JoinRow {
        let author = self.users.iter().find(|u| u.id == post.created_by);
        JoinRow {
            post_id: post.id,
            title: post.title.clone(),
            body: post.body.clone(),
            tag,
            author_id: author.map(|u| u.id),
            username: author.map(|u| u.username.clone()),
            first_name: author.and_then(|u| u.first_name.clone()),
            last_name: author.and_then(|u| u.last_name.clone()),
        }
    }

    fn perform(&mut self, request: StoreRequest) -> StoreEvent {
        match request {
            StoreRequest::InsertUser(user) => {
                let id = self.users.len() as i32 + 1;
                self.users.push(User {
                    id,
                    username: user.username.clone(),
                    first_name: user.first_name.clone(),
                    last_name: user.last_name.clone(),
                });
                StoreEvent::Inserted(id)
            }
            StoreRequest::InsertPost(post) => {
                let id = self.posts.len() as i32 + 1;
                self.posts.push(Post {
                    id,
                    created_by: post.created_by,
                    title: post.title,
                    body: post.body,
                });
                StoreEvent::Inserted(id)
            }
            StoreRequest::InsertTags(rows) => {
                for row in rows {
                    self.tags.push((row.fk_post_id, row.tag.to_string()));
                }
                StoreEvent::Stored
            }
            StoreRequest::FindUser(id) => {
                StoreEvent::Found(self.users.iter().find(|u| u.id == id).cloned())
            }
            StoreRequest::Count { pattern } => StoreEvent::Counted(self.matching(pattern).len() as i64),
            StoreRequest::Fetch { pattern, limit, offset } => {
                let mut rows = Vec::new();
                for post in self.matching(pattern).into_iter().skip(offset as usize).take(limit as usize) {
                    let tags: Vec<String> = self
                        .tags
                        .iter()
                        .filter(|t| t.0 == post.id)
                        .map(|t| t.1.clone())
                        .collect();
                    if tags.is_empty() {
                        rows.push(self.join(post, None));
                    } else if self.encoding == TagEncoding::Joined {
                        rows.push(self.join(post, Some(tags.join(","))));
                    } else {
                        for tag in tags {
                            rows.push(self.join(post, Some(tag)));
                        }
                    }
                }
                StoreEvent::Fetched(rows, self.encoding)
            }
        }
    }
}

fn run_create_user(store: &mut Relations, data: &NewUser) -> Result<User, Error> {
    let mut state = UserWrite::Start;
    let mut event = StoreEvent::Opened;
    loop {
        match create_user(data, state, event) {
            Step::Ask { state: next, request } => {
                state = next;
                event = store.perform(request);
            }
            Step::Commit(user) => return Ok(user),
            Step::Rollback(error) => return Err(error),
            Step::Fail(error) => return Err(error),
        }
    }
}

fn run_create_post(store: &mut Relations, data: &NewPostWithTags) -> Result<PostWithTags, Error> {
    let mut state = PostWrite::Start;
    let mut event = StoreEvent::Opened;
    loop {
        match create_post(data, state, event) {
            Step::Ask { state: next, request } => {
                state = next;
                event = store.perform(request);
            }
            Step::Commit(post) => return Ok(post),
            Step::Rollback(error) => return Err(error),
            Step::Fail(error) => return Err(error),
        }
    }
}

fn run_list_posts(
    store: &mut Relations,
    page: Option<u32>,
    limit: Option<u32>,
    search: Option<&str>,
) -> Result<PaginatedPosts, Error> {
    let query = PostQuery::new(page, limit, search.map(|s| s.to_string()))?;
    let mut state = Listing::Start;
    let mut event = StoreEvent::Opened;
    loop {
        match list_posts(&query, state, event) {
            Step::Ask { state: next, request } => {
                state = next;
                event = store.perform(request);
            }
            Step::Commit(listed) => return Ok(listed),
            Step::Rollback(error) => return Err(error),
            Step::Fail(error) => return Err(error),
        }
    }
}

fn new_post(created_by: i32, title: &str, body: &str, tags: &[&str]) -> NewPostWithTags {
    NewPostWithTags {
        created_by,
        title: title.to_string(),
        body: body.to_string(),
        tags: tags.iter().map(|t| t.to_string()).collect(),
    }
}

fn alice_info() -> UserInfo {
    UserInfo { user_id: 1, username: "alice".to_string(), first_name: None, last_name: None }
}

fn hello_world() -> PostWithTags {
    PostWithTags {
        id: 1,
        title: "Hello".to_string(),
        body: "World".to_string(),
        tags: vec!["intro".to_string(), "misc".to_string()],
        created_by: Some(alice_info()),
    }
}

fn alice_writes_hello(encoding: TagEncoding) -> Relations {
    let mut store = Relations::new(encoding);
    let user = run_create_user(
        &mut store,
        &NewUser { username: "alice".to_string(), first_name: None, last_name: None },
    );
    assert_eq!(
        user,
        Ok(User { id: 1, username: "alice".to_string(), first_name: None, last_name: None })
    );
    let post = run_create_post(&mut store, &new_post(1, "Hello", "World", &["intro", "misc"]));
    assert_eq!(post, Ok(hello_world()));
    store
}

#[test]
fn alice_writes_and_lists_a_post() {
    let mut store = alice_writes_hello(TagEncoding::PerRow);
    let listed = run_list_posts(&mut store, Some(1), Some(10), Some("Hel"));
    assert_eq!(
        listed,
        Ok(PaginatedPosts {
            records: vec![hello_world()],
            meta: PaginationMeta {
                current_page: 1,
                per_page: 10,
                from: 1,
                to: 1,
                total_pages: 1,
                total_docs: 1,
            },
        })
    );
}

#[test]
fn alice_writes_and_lists_a_post_with_joined_tags() {
    let mut store = alice_writes_hello(TagEncoding::Joined);
    let listed = run_list_posts(&mut store, Some(1), Some(10), Some("Hel")).unwrap();
    assert_eq!(listed.records, vec![hello_world()]);
    assert_eq!(listed.meta.total_docs, 1);
}

#[test]
fn search_that_matches_nothing_lists_nothing() {
    let mut store = alice_writes_hello(TagEncoding::PerRow);
    let listed = run_list_posts(&mut store, None, None, Some("Bye")).unwrap();
    assert!(listed.records.is_empty());
    assert_eq!(
        listed.meta,
        PaginationMeta { current_page: 1, per_page: 10, from: 1, to: 0, total_pages: 0, total_docs: 0 }
    );
}

#[test]
fn no_search_term_counts_what_the_empty_term_counts() {
    let mut store = alice_writes_hello(TagEncoding::PerRow);
    for n in 0..6 {
        run_create_post(&mut store, &new_post(1, &format!("post {}", n), "text", &[])).unwrap();
    }
    let absent = run_list_posts(&mut store, Some(1), Some(3), None).unwrap();
    let empty = run_list_posts(&mut store, Some(1), Some(3), Some("")).unwrap();
    assert_eq!(absent.meta.total_docs, 7);
    assert_eq!(absent.meta.total_docs, empty.meta.total_docs);
    assert_eq!(absent, empty);
}

#[test]
fn repeated_tags_are_listed_once() {
    let mut store = Relations::new(TagEncoding::PerRow);
    let created = run_create_post(&mut store, &new_post(1, "t", "b", &["a", "b", "a"])).unwrap();
    assert_eq!(created.tags, vec!["a".to_string(), "b".to_string()]);
    assert_eq!(store.tags.len(), 3);
    let listed = run_list_posts(&mut store, None, None, None).unwrap();
    assert_eq!(listed.records[0].tags, vec!["a".to_string(), "b".to_string()]);
    store.tags.reverse();
    let listed = run_list_posts(&mut store, None, None, None).unwrap();
    let mut tags = listed.records[0].tags.clone();
    tags.sort();
    assert_eq!(tags, vec!["a".to_string(), "b".to_string()]);
}

#[test]
fn post_of_an_unknown_author_has_no_author() {
    let mut store = Relations::new(TagEncoding::PerRow);
    let created = run_create_post(&mut store, &new_post(77, "t", "b", &["x"])).unwrap();
    assert_eq!(created.created_by, None);
    assert_eq!(created.id, 1);
    let listed = run_list_posts(&mut store, None, None, None).unwrap();
    assert_eq!(listed.records[0].created_by, None);
}

#[test]
fn pages_list_the_most_recent_posts_first() {
    let mut store = alice_writes_hello(TagEncoding::Joined);
    for n in 2..=25 {
        let created =
            run_create_post(&mut store, &new_post(1, &format!("Hello {}", n), "text", &["t"])).unwrap();
        assert_eq!(created.id, n);
    }
    let first = run_list_posts(&mut store, Some(1), Some(10), Some("Hello")).unwrap();
    assert_eq!(first.records.iter().map(|p| p.id).collect::<Vec<i32>>(), (16..=25).rev().collect::<Vec<i32>>());
    assert_eq!(
        first.meta,
        PaginationMeta { current_page: 1, per_page: 10, from: 1, to: 10, total_pages: 3, total_docs: 25 }
    );
    let last = run_list_posts(&mut store, Some(3), Some(10), Some("Hello")).unwrap();
    assert_eq!(last.records.iter().map(|p| p.id).collect::<Vec<i32>>(), vec![5, 4, 3, 2, 1]);
    assert_eq!(
        last.meta,
        PaginationMeta { current_page: 3, per_page: 10, from: 21, to: 25, total_pages: 3, total_docs: 25 }
    );
    let beyond = run_list_posts(&mut store, Some(4), Some(10), Some("Hello")).unwrap();
    assert!(beyond.records.is_empty());
    assert_eq!(beyond.meta.from, 31);
    assert_eq!(beyond.meta.to, 30);
}

#[test]
fn invalid_page_asks_nothing_of_the_store() {
    let mut store = Relations::new(TagEncoding::PerRow);
    assert!(run_list_posts(&mut store, Some(0), None, None).is_err());
    assert!(run_list_posts(&mut store, None, Some(0), None).is_err());
}
