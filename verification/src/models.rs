//! The entity model: the rows of the three relations (users, posts, tag
//! associations) and the shapes in which posts are read back.
//!
//! Each type that holds text has a view, in which every `String` stands as
//! the sequence of its characters. The contracts speak of views.

use vstd::prelude::*;

verus! {

/// The characters of an optional string.
pub open spec fn opt_text(text: Option<String>) -> Option<Seq<char>> {
    match text {
        Some(s) => Some(s@),
        None => None,
    }
}

/// A copy of an optional string.
pub fn copy_text(text: &Option<String>) -> (copy: Option<String>)
    ensures
        opt_text(copy) == opt_text(*text),
{
    match text {
        Some(s) => Some(s.clone()),
        None => None,
    }
}

/// The characters of each string of `strings`.
pub open spec fn texts(strings: Seq<String>) -> Seq<Seq<char>> {
    Seq::new(strings.len(), |i: int| strings[i]@)
}

/// A user as the store holds it. The store assigns `id`.
#[derive(Clone, Debug, PartialEq, Eq)]
pub struct User {
    pub id: i32,
    pub username: String,
    pub first_name: Option<String>,
    pub last_name: Option<String>,
}

/// What a `User` holds, each text as the sequence of its characters.
pub struct UserView {
    pub id: i32,
    pub username: Seq<char>,
    pub first_name: Option<Seq<char>>,
    pub last_name: Option<Seq<char>>,
}

impl View for User {
    type V = UserView;

    open spec fn view(&self) -> UserView {
        UserView {
            id: self.id,
            username: self.username@,
            first_name: opt_text(self.first_name),
            last_name: opt_text(self.last_name),
        }
    }
}

/// A user that is to be created.
#[derive(Clone, Debug, PartialEq, Eq)]
pub struct NewUser {
    pub username: String,
    pub first_name: Option<String>,
    pub last_name: Option<String>,
}

/// What a `NewUser` holds, each text as the sequence of its characters.
pub struct NewUserView {
    pub username: Seq<char>,
    pub first_name: Option<Seq<char>>,
    pub last_name: Option<Seq<char>>,
}

impl View for NewUser {
    type V = NewUserView;

    open spec fn view(&self) -> NewUserView {
        NewUserView {
            username: self.username@,
            first_name: opt_text(self.first_name),
            last_name: opt_text(self.last_name),
        }
    }
}

/// A post as the store holds it. The store assigns `id`; `created_by` names
/// a user, who need not exist.
#[derive(Clone, Debug, PartialEq, Eq)]
pub struct Post {
    pub id: i32,
    pub created_by: i32,
    pub title: String,
    pub body: String,
}

/// What a `Post` holds, each text as the sequence of its characters.
pub struct PostView {
    pub id: i32,
    pub created_by: i32,
    pub title: Seq<char>,
    pub body: Seq<char>,
}

impl View for Post {
    type V = PostView;

    open spec fn view(&self) -> PostView {
        PostView {
            id: self.id,
            created_by: self.created_by,
            title: self.title@,
            body: self.body@,
        }
    }
}

/// The row of a post that is to be inserted.
#[derive(Clone, Debug, PartialEq, Eq)]
pub struct NewPost {
    pub created_by: i32,
    pub title: String,
    pub body: String,
}

/// What a `NewPost` holds, each text as the sequence of its characters.
pub struct NewPostView {
    pub created_by: i32,
    pub title: Seq<char>,
    pub body: Seq<char>,
}

impl View for NewPost {
    type V = NewPostView;

    open spec fn view(&self) -> NewPostView {
        NewPostView { created_by: self.created_by, title: self.title@, body: self.body@ }
    }
}

/// The row that associates a tag with the post `fk_post_id`.
#[derive(Clone, Copy, Debug, PartialEq, Eq)]
pub struct NewPostTag<'a> {
    pub fk_post_id: i32,
    pub tag: &'a str,
}

/// What a `NewPostTag` holds, each text as the sequence of its characters.
pub struct NewPostTagView {
    pub fk_post_id: i32,
    pub tag: Seq<char>,
}

impl<'a> View for NewPostTag<'a> {
    type V = NewPostTagView;

    open spec fn view(&self) -> NewPostTagView {
        NewPostTagView { fk_post_id: self.fk_post_id, tag: self.tag@ }
    }
}

/// The author of a post, as a listing shows them.
#[derive(Clone, Debug, PartialEq, Eq)]
pub struct UserInfo {
    pub user_id: i32,
    pub username: String,
    pub first_name: Option<String>,
    pub last_name: Option<String>,
}

/// What a `UserInfo` holds, each text as the sequence of its characters.
pub struct UserInfoView {
    pub user_id: i32,
    pub username: Seq<char>,
    pub first_name: Option<Seq<char>>,
    pub last_name: Option<Seq<char>>,
}

impl View for UserInfo {
    type V = UserInfoView;

    open spec fn view(&self) -> UserInfoView {
        UserInfoView {
            user_id: self.user_id,
            username: self.username@,
            first_name: opt_text(self.first_name),
            last_name: opt_text(self.last_name),
        }
    }
}

/// The view of an optional author.
pub open spec fn opt_author(author: Option<UserInfo>) -> Option<UserInfoView> {
    match author {
        Some(info) => Some(info@),
        None => None,
    }
}

/// A post with its tags and its author. `created_by` is absent where the
/// post's author reference resolves to no user.
#[derive(Clone, Debug, PartialEq, Eq)]
pub struct PostWithTags {
    pub id: i32,
    pub title: String,
    pub body: String,
    pub tags: Vec<String>,
    pub created_by: Option<UserInfo>,
}

/// What a `PostWithTags` holds, each text as the sequence of its characters.
pub struct PostWithTagsView {
    pub id: i32,
    pub title: Seq<char>,
    pub body: Seq<char>,
    pub tags: Seq<Seq<char>>,
    pub created_by: Option<UserInfoView>,
}

impl View for PostWithTags {
    type V = PostWithTagsView;

    open spec fn view(&self) -> PostWithTagsView {
        PostWithTagsView {
            id: self.id,
            title: self.title@,
            body: self.body@,
            tags: texts(self.tags@),
            created_by: opt_author(self.created_by),
        }
    }
}

impl PostWithTagsView {
    /// The tags are a set: none occurs twice.
    pub open spec fn well_formed(self) -> bool {
        self.tags.no_duplicates()
    }
}

/// The view of each post of `posts`.
pub open spec fn post_views(posts: Seq<PostWithTags>) -> Seq<PostWithTagsView> {
    Seq::new(posts.len(), |i: int| posts[i]@)
}

/// A post that is to be created, with its tags in the order given.
#[derive(Clone, Debug, PartialEq, Eq)]
pub struct NewPostWithTags {
    pub created_by: i32,
    pub title: String,
    pub body: String,
    pub tags: Vec<String>,
}

/// What a `NewPostWithTags` holds, each text as the sequence of its characters.
pub struct NewPostWithTagsView {
    pub created_by: i32,
    pub title: Seq<char>,
    pub body: Seq<char>,
    pub tags: Seq<Seq<char>>,
}

impl View for NewPostWithTags {
    type V = NewPostWithTagsView;

    open spec fn view(&self) -> NewPostWithTagsView {
        NewPostWithTagsView {
            created_by: self.created_by,
            title: self.title@,
            body: self.body@,
            tags: texts(self.tags@),
        }
    }
}

/// Where a page lies in a listing. Pages and items are counted from 1;
/// `from` and `to` are the first and the last item of the page, and
/// `to == from - 1` says that the page is empty.
#[derive(Clone, Copy, Debug, PartialEq, Eq, Structural)]
pub struct PaginationMeta {
    pub current_page: i64,
    pub per_page: i64,
    pub from: i64,
    pub to: i64,
    pub total_pages: i64,
    pub total_docs: i64,
}

/// One page of a listing.
#[derive(Clone, Debug, PartialEq, Eq)]
pub struct PaginatedPosts {
    pub records: Vec<PostWithTags>,
    pub meta: PaginationMeta,
}

/// What a `PaginatedPosts` holds, each text as the sequence of its characters.
pub struct PaginatedPostsView {
    pub records: Seq<PostWithTagsView>,
    pub meta: PaginationMeta,
}

impl View for PaginatedPosts {
    type V = PaginatedPostsView;

    open spec fn view(&self) -> PaginatedPostsView {
        PaginatedPostsView { records: post_views(self.records@), meta: self.meta }
    }
}

} // verus!
