//! The write path of posts and the listing of posts.
//!
//! A post is written as one unit of work: the post's row, then one tag
//! association for each tag, bound to the identifier that the insert of the
//! post returned, then the lookup of the author. A listing counts the posts
//! that match the filter, fetches the rows of the page with the same filter,
//! and reduces them to records with their pagination metadata.

use crate::aggregate::{
    aggregate, aggregated, aggregation, consistent, JoinRowView, TagEncoding,
};
use crate::error::{Error, Operation};
use crate::models::{
    texts, NewPost, NewPostTag, NewPostTagView, NewPostView, NewPostWithTags,
    NewPostWithTagsView, PaginatedPosts, PaginatedPostsView, PaginationMeta, PostWithTags,
    PostWithTagsView, User, UserInfo, UserInfoView, UserView, post_views,
};
use crate::pagination::{meta_of, offset_of};
use crate::query::{PostQuery, PostQueryView};
use crate::store::{
    run, tag_views, Step, StepView, StoreEvent, StoreEventView, StoreRequest, StoreRequestView,
};
use crate::tags::{add_tags, distinct, lemma_distinct_extended};
use vstd::prelude::*;

verus! {

/// Where the creation of a post stands.
#[derive(Clone, Copy, Debug, PartialEq, Eq, Structural)]
pub enum PostWrite {
    /// Nothing was asked of the store yet.
    Start,
    /// The insert of the post was asked for.
    PostSent,
    /// The post has the identifier `id`, and the insert of its tag
    /// associations was asked for.
    TagsSent { id: i32 },
    /// The post `id` and its tag associations are inserted, and its author
    /// was asked for.
    AuthorAsked { id: i32 },
}

/// Where a listing stands.
#[derive(Clone, Copy, Debug, PartialEq, Eq, Structural)]
pub enum Listing {
    /// Nothing was asked of the store yet.
    Start,
    /// The count was asked for.
    Counting,
    /// `total_docs` posts match, and the rows of the page were asked for.
    Fetching { total_docs: i64 },
}

/// The row of the post that `data` describes.
pub open spec fn post_row(data: NewPostWithTagsView) -> NewPostView {
    NewPostView { created_by: data.created_by, title: data.title, body: data.body }
}

/// One tag association for each of `tags`, in their order, each bound to
/// post `post_id`.
pub open spec fn tag_associations(post_id: i32, tags: Seq<Seq<char>>) -> Seq<NewPostTagView> {
    Seq::new(tags.len(), |i: int| NewPostTagView { fk_post_id: post_id, tag: tags[i] })
}

/// A user as the author of a post.
pub open spec fn user_info(user: UserView) -> UserInfoView {
    UserInfoView {
        user_id: user.id,
        username: user.username,
        first_name: user.first_name,
        last_name: user.last_name,
    }
}

/// The post that was created from `data` under `id`: its tags are those
/// given, each once, and its author is the user found for its author
/// reference, or absent where none was found.
pub open spec fn created_post(data: NewPostWithTagsView, id: i32, author: Option<UserView>) -> PostWithTagsView {
    PostWithTagsView {
        id,
        title: data.title,
        body: data.body,
        tags: distinct(data.tags),
        created_by: match author {
            Some(user) => Some(user_info(user)),
            None => None,
        },
    }
}

/// `author` answers the lookup of the author of `data`: no user, or the
/// user that the post's author reference names.
pub open spec fn answers(data: NewPostWithTagsView, author: Option<UserView>) -> bool {
    match author {
        Some(user) => user.id == data.created_by,
        None => true,
    }
}

/// The step of `create_post`. Once a unit of work is open the post is
/// inserted; its tag associations are bound to the identifier that this
/// insert returned, and to no other; the author is looked up last. That no
/// user is found is no failure; another user than the one asked for is a
/// fault of the store. Every failure of the store ends the operation and
/// undoes the unit of work, the post's row included.
pub open spec fn post_step(data: NewPostWithTagsView, state: PostWrite, event: StoreEventView) -> StepView<
    PostWrite,
    PostWithTagsView,
> {
    match state {
        PostWrite::Start => match event {
            StoreEventView::Opened => StepView::Ask {
                state: PostWrite::PostSent,
                request: StoreRequestView::InsertPost(post_row(data)),
            },
            _ => StepView::Fail(Error::StoreUnavailable { operation: Operation::CreatePost }),
        },
        PostWrite::PostSent => match event {
            StoreEventView::Inserted(id) => StepView::Ask {
                state: PostWrite::TagsSent { id },
                request: StoreRequestView::InsertTags(tag_associations(id, data.tags)),
            },
            StoreEventView::Unidentified => StepView::Rollback(
                Error::ReadAfterWriteFailed { operation: Operation::CreatePost },
            ),
            _ => StepView::Rollback(Error::WriteFailed { operation: Operation::CreatePost }),
        },
        PostWrite::TagsSent { id } => match event {
            StoreEventView::Stored => StepView::Ask {
                state: PostWrite::AuthorAsked { id },
                request: StoreRequestView::FindUser(data.created_by),
            },
            _ => StepView::Rollback(Error::WriteFailed { operation: Operation::CreatePost }),
        },
        PostWrite::AuthorAsked { id } => match event {
            StoreEventView::Found(author) => if answers(data, author) {
                StepView::Commit(created_post(data, id, author))
            } else {
                StepView::Rollback(
                    Error::QueryExecutionFailed { operation: Operation::CreatePost },
                )
            },
            _ => StepView::Rollback(
                Error::QueryExecutionFailed { operation: Operation::CreatePost },
            ),
        },
    }
}

/// The records stand by identifier, descending: the store assigns
/// identifiers in the order of creation, so the most recently created post
/// comes first.
pub open spec fn most_recent_first(records: Seq<PostWithTagsView>) -> bool {
    forall|a: int, b: int|
        0 <= a < b < records.len() ==> (#[trigger] records[a]).id > (#[trigger] records[b]).id
}

/// The step of `list_posts`. The count and the fetch are made with the one
/// pattern of the query. A count below 0, more records than the page has
/// room for, and records in another order than the one asked for are faults
/// of the store.
pub open spec fn list_step(query: PostQueryView, state: Listing, event: StoreEventView) -> StepView<
    Listing,
    PaginatedPostsView,
> {
    let failed = StepView::Rollback(
        Error::QueryExecutionFailed { operation: Operation::ListPosts },
    );
    match state {
        Listing::Start => match event {
            StoreEventView::Opened => StepView::Ask {
                state: Listing::Counting,
                request: StoreRequestView::Count { pattern: query.pattern },
            },
            _ => StepView::Fail(Error::StoreUnavailable { operation: Operation::ListPosts }),
        },
        Listing::Counting => match event {
            StoreEventView::Counted(total_docs) => if total_docs >= 0 {
                StepView::Ask {
                    state: Listing::Fetching { total_docs },
                    request: StoreRequestView::Fetch {
                        pattern: query.pattern,
                        limit: query.page_size as i64,
                        offset: offset_of(query.page, query.page_size) as i64,
                    },
                }
            } else {
                failed
            },
            _ => failed,
        },
        Listing::Fetching { total_docs } => match event {
            StoreEventView::Fetched(rows, encoding) => if total_docs < 0 {
                failed
            } else {
                match aggregation(rows, encoding) {
                    Ok(records) => if records.len() <= query.page_size && most_recent_first(
                        records,
                    ) {
                        StepView::Commit(
                            PaginatedPostsView {
                                records,
                                meta: meta_of(
                                    total_docs as int,
                                    query.page,
                                    query.page_size,
                                    records.len() as int,
                                ),
                            },
                        )
                    } else {
                        failed
                    },
                    Err(error) => StepView::Rollback(error),
                }
            },
            _ => failed,
        },
    }
}

/// The row of the post that is to be inserted.
pub fn new_post_row(post_data: &NewPostWithTags) -> (row: NewPost)
    ensures
        row@ == post_row(post_data@),
{
    NewPost {
        created_by: post_data.created_by,
        title: post_data.title.clone(),
        body: post_data.body.clone(),
    }
}

/// The tag associations of a post: one for each tag, in their order, each
/// bound to `post_id`.
pub fn tag_rows<'a>(post_id: i32, tags: &'a Vec<String>) -> (rows: Vec<NewPostTag<'a>>)
    ensures
        tag_views(rows@) == tag_associations(post_id, texts(tags@)),
{
    let mut rows: Vec<NewPostTag<'a>> = Vec::new();
    let mut i: usize = 0;
    while i < tags.len()
        invariant
            i <= tags.len(),
            rows.len() == i,
            forall|k: int|
                0 <= k < i ==> (#[trigger] rows[k])@ == (NewPostTagView {
                    fk_post_id: post_id,
                    tag: tags[k]@,
                }),
        decreases tags.len() - i,
    {
        rows.push(NewPostTag { fk_post_id: post_id, tag: tags[i].as_str() });
        i += 1;
    }
    assert(tag_views(rows@) =~= tag_associations(post_id, texts(tags@)));
    rows
}

/// A user as the author of a post.
pub fn author_info(user: User) -> (info: UserInfo)
    ensures
        info@ == user_info(user@),
{
    UserInfo {
        user_id: user.id,
        username: user.username,
        first_name: user.first_name,
        last_name: user.last_name,
    }
}

/// The record of a post that was inserted under `id`.
pub fn post_record(post_data: &NewPostWithTags, id: i32, author: Option<User>) -> (post:
    PostWithTags)
    ensures
        post@ == created_post(
            post_data@,
            id,
            match author {
                Some(user) => Some(user@),
                None => None,
            },
        ),
{
    let mut tags: Vec<String> = Vec::new();
    proof {
        assert(texts(tags@) =~= distinct(Seq::<Seq<char>>::empty()));
        lemma_distinct_extended(Seq::<Seq<char>>::empty(), texts(post_data.tags@));
        assert(Seq::<Seq<char>>::empty() + texts(post_data.tags@) =~= texts(post_data.tags@));
    }
    add_tags(&mut tags, &post_data.tags);
    PostWithTags {
        id,
        title: post_data.title.clone(),
        body: post_data.body.clone(),
        tags,
        created_by: match author {
            Some(user) => Some(author_info(user)),
            None => None,
        },
    }
}

/// Whether the records stand by identifier, descending.
pub fn is_most_recent_first(records: &Vec<PostWithTags>) -> (ordered: bool)
    ensures
        ordered == most_recent_first(post_views(records@)),
{
    let ghost views = post_views(records@);
    let mut i: usize = 1;
    while i < records.len()
        invariant
            1 <= i,
            views == post_views(records@),
            forall|a: int, b: int|
                0 <= a < b < i && b < views.len() ==> (#[trigger] views[a]).id > (
                #[trigger] views[b]).id,
        decreases records.len() - i,
    {
        if records[i - 1].id <= records[i].id {
            assert(!(views[i - 1].id > views[i as int].id));
            return false;
        }
        assert forall|a: int, b: int| 0 <= a < b < i + 1 && b < views.len() implies (
        #[trigger] views[a]).id > (#[trigger] views[b]).id by {
            if b == i && a < i - 1 {
                assert(views[a].id > views[i - 1].id);
            }
        }
        i += 1;
    }
    true
}

/// Creates a post with its tags, one step at a time: `state` is where the
/// creation stands, `event` what the store reported last. The first call is
/// made in `PostWrite::Start`, with the outcome of acquiring a connection.
pub fn create_post<'a>(post_data: &'a NewPostWithTags, state: PostWrite, event: StoreEvent) -> (step:
    Step<'a, PostWrite, PostWithTags>)
    ensures
        step@ == post_step(post_data@, state, event@),
{
    match state {
        PostWrite::Start => match event {
            StoreEvent::Opened => Step::Ask {
                state: PostWrite::PostSent,
                request: StoreRequest::InsertPost(new_post_row(post_data)),
            },
            _ => Step::Fail(Error::StoreUnavailable { operation: Operation::CreatePost }),
        },
        PostWrite::PostSent => match event {
            StoreEvent::Inserted(id) => Step::Ask {
                state: PostWrite::TagsSent { id },
                request: StoreRequest::InsertTags(tag_rows(id, &post_data.tags)),
            },
            StoreEvent::Unidentified => Step::Rollback(
                Error::ReadAfterWriteFailed { operation: Operation::CreatePost },
            ),
            _ => Step::Rollback(Error::WriteFailed { operation: Operation::CreatePost }),
        },
        PostWrite::TagsSent { id } => match event {
            StoreEvent::Stored => Step::Ask {
                state: PostWrite::AuthorAsked { id },
                request: StoreRequest::FindUser(post_data.created_by),
            },
            _ => Step::Rollback(Error::WriteFailed { operation: Operation::CreatePost }),
        },
        PostWrite::AuthorAsked { id } => match event {
            StoreEvent::Found(author) => {
                let answered = match &author {
                    Some(user) => user.id == post_data.created_by,
                    None => true,
                };
                if answered {
                    Step::Commit(post_record(post_data, id, author))
                } else {
                    Step::Rollback(
                        Error::QueryExecutionFailed { operation: Operation::CreatePost },
                    )
                }
            },
            _ => Step::Rollback(Error::QueryExecutionFailed { operation: Operation::CreatePost }),
        },
    }
}

/// Lists a page of posts, one step at a time: `state` is where the listing
/// stands, `event` what the store reported last. The first call is made in
/// `Listing::Start`, with the outcome of acquiring a connection. No matching
/// post is no failure: the page is then empty and counts 0 documents.
pub fn list_posts<'a>(query: &'a PostQuery, state: Listing, event: StoreEvent) -> (step: Step<
    'a,
    Listing,
    PaginatedPosts,
>)
    ensures
        step@ == list_step(query@, state, event@),
{
    match state {
        Listing::Start => match event {
            StoreEvent::Opened => Step::Ask {
                state: Listing::Counting,
                request: StoreRequest::Count { pattern: query.pattern() },
            },
            _ => Step::Fail(Error::StoreUnavailable { operation: Operation::ListPosts }),
        },
        Listing::Counting => match event {
            StoreEvent::Counted(total_docs) => {
                if total_docs >= 0 {
                    Step::Ask {
                        state: Listing::Fetching { total_docs },
                        request: StoreRequest::Fetch {
                            pattern: query.pattern(),
                            limit: query.limit(),
                            offset: query.offset(),
                        },
                    }
                } else {
                    Step::Rollback(Error::QueryExecutionFailed { operation: Operation::ListPosts })
                }
            },
            _ => Step::Rollback(Error::QueryExecutionFailed { operation: Operation::ListPosts }),
        },
        Listing::Fetching { total_docs } => match event {
            StoreEvent::Fetched(rows, encoding) => {
                if total_docs < 0 {
                    return Step::Rollback(
                        Error::QueryExecutionFailed { operation: Operation::ListPosts },
                    );
                }
                match aggregate(&rows, encoding) {
                    Ok(records) => {
                        let page_size = query.page_size();
                        if records.len() as u64 <= page_size as u64 && is_most_recent_first(
                            &records,
                        ) {
                            let meta = PaginationMeta::compute(
                                total_docs,
                                query.page(),
                                page_size,
                                records.len() as i64,
                            );
                            Step::Commit(PaginatedPosts { records, meta })
                        } else {
                            Step::Rollback(
                                Error::QueryExecutionFailed { operation: Operation::ListPosts },
                            )
                        }
                    },
                    Err(error) => Step::Rollback(error),
                }
            },
            _ => Step::Rollback(Error::QueryExecutionFailed { operation: Operation::ListPosts }),
        },
    }
}

/// The step that the creation of a post ends on, or stands at, when it is
/// handed `events` one after another from its start.
pub open spec fn post_run(data: NewPostWithTagsView, events: Seq<StoreEventView>) -> StepView<
    PostWrite,
    PostWithTagsView,
>
    recommends
        events.len() > 0,
{
    run(
        |state: PostWrite, event: StoreEventView| post_step(data, state, event),
        PostWrite::Start,
        events,
    )
}

/// The step that a listing ends on, or stands at, when it is handed
/// `events` one after another from its start.
pub open spec fn list_run(query: PostQueryView, events: Seq<StoreEventView>) -> StepView<
    Listing,
    PaginatedPostsView,
>
    recommends
        events.len() > 0,
{
    run(
        |state: Listing, event: StoreEventView| list_step(query, state, event),
        Listing::Start,
        events,
    )
}

/// A post is written whole or not at all. A creation commits only after the
/// store has opened a unit of work, returned the identifier of the inserted
/// post, stored the tag associations and answered the lookup of the author,
/// in this order; the post committed then has the identifier that the
/// insert returned. A creation fails without a rollback only where no unit
/// of work was opened: every later failure undoes the post's row with it.
pub proof fn lemma_post_is_written_whole(data: NewPostWithTagsView, events: Seq<StoreEventView>)
    requires
        events.len() > 0,
    ensures
        post_run(data, events) matches StepView::Commit(post) ==> {
            &&& events.len() >= 4
            &&& events[0] == StoreEventView::Opened
            &&& events[1] == StoreEventView::Inserted(post.id)
            &&& events[2] == StoreEventView::Stored
            &&& events[3] matches StoreEventView::Found(author)
            &&& answers(data, author)
            &&& post == created_post(data, post.id, author)
            &&& post.created_by matches Some(info) ==> info.user_id == data.created_by
        },
        post_run(data, events) is Fail <==> events[0] != StoreEventView::Opened,
{
    reveal_with_fuel(run, 5);
    let second = events.drop_first();
    if events.len() > 1 {
        assert(second.first() == events[1]);
        let third = second.drop_first();
        if events.len() > 2 {
            assert(third.first() == events[2]);
            let fourth = third.drop_first();
            if events.len() > 3 {
                assert(fourth.first() == events[3]);
            }
        }
    }
}

/// The four events after which a creation commits, and what it commits.
pub proof fn lemma_post_commits(data: NewPostWithTagsView, id: i32, author: Option<UserView>)
    requires
        answers(data, author),
    ensures
        post_run(
            data,
            seq![
                StoreEventView::Opened,
                StoreEventView::Inserted(id),
                StoreEventView::Stored,
                StoreEventView::Found(author),
            ],
        ) == StepView::<PostWrite, PostWithTagsView>::Commit(created_post(data, id, author)),
{
    reveal_with_fuel(run, 5);
    let events = seq![
        StoreEventView::Opened,
        StoreEventView::Inserted(id),
        StoreEventView::Stored,
        StoreEventView::Found(author),
    ];
    let second = events.drop_first();
    let third = second.drop_first();
    let fourth = third.drop_first();
    assert(second.first() == events[1]);
    assert(third.first() == events[2]);
    assert(fourth.first() == events[3]);
}

/// A post whose author reference resolves to no user is created all the
/// same, without an author.
pub proof fn lemma_unknown_author_is_absent(data: NewPostWithTagsView, id: i32)
    ensures
        post_step(data, PostWrite::AuthorAsked { id }, StoreEventView::Found(None))
            == StepView::<PostWrite, PostWithTagsView>::Commit(created_post(data, id, None)),
        created_post(data, id, None).created_by is None,
{
}

/// The record of a created post holds each of the tags given once, in the
/// order in which they were first given.
pub proof fn lemma_created_tags(data: NewPostWithTagsView, id: i32, author: Option<UserView>)
    ensures
        created_post(data, id, author).well_formed(),
        forall|tag: Seq<char>| #[trigger]
            created_post(data, id, author).tags.contains(tag) <==> data.tags.contains(tag),
{
    crate::tags::lemma_distinct(data.tags);
}

/// Tags of which none is given twice are the tags of the created post, in
/// the order given.
pub proof fn lemma_distinct_tags_are_kept(
    data: NewPostWithTagsView,
    id: i32,
    author: Option<UserView>,
)
    requires
        data.tags.no_duplicates(),
    ensures
        created_post(data, id, author).tags == data.tags,
{
    crate::tags::lemma_distinct_of_distinct(data.tags);
}

/// Tag associations are asked for only in answer to the identifier that the
/// insert of the post returned, and then one for each tag given, each bound
/// to that identifier: the post's row exists before its tags are written,
/// and no tag is written for another post.
pub proof fn lemma_tags_follow_their_post(
    data: NewPostWithTagsView,
    state: PostWrite,
    event: StoreEventView,
)
    ensures
        post_step(data, state, event) matches StepView::Ask {
            state: next,
            request: StoreRequestView::InsertTags(rows),
        } ==> {
            &&& state == PostWrite::PostSent
            &&& event matches StoreEventView::Inserted(id)
            &&& next == (PostWrite::TagsSent { id })
            &&& rows == tag_associations(id, data.tags)
            &&& rows.len() == data.tags.len()
            &&& forall|i: int|
                0 <= i < rows.len() ==> (#[trigger] rows[i]) == (NewPostTagView {
                    fk_post_id: id,
                    tag: data.tags[i],
                })
        },
{
}

/// Two creations whose posts the store gave different identifiers keep
/// their tags apart: each asks for its own tags under its own identifier,
/// so that no tag of one is bound to the identifier of the other, and the
/// posts that they commit differ in their identifiers. A step reads nothing
/// but its own input, state and event, so this holds in whatever order the
/// steps of the two are taken.
pub proof fn lemma_tags_stay_with_their_post(
    first: NewPostWithTagsView,
    first_id: i32,
    second: NewPostWithTagsView,
    second_id: i32,
)
    requires
        first_id != second_id,
    ensures
        post_step(first, PostWrite::PostSent, StoreEventView::Inserted(first_id)) == (StepView::<
            PostWrite,
            PostWithTagsView,
        >::Ask {
            state: PostWrite::TagsSent { id: first_id },
            request: StoreRequestView::InsertTags(tag_associations(first_id, first.tags)),
        }),
        post_step(second, PostWrite::PostSent, StoreEventView::Inserted(second_id)) == (StepView::<
            PostWrite,
            PostWithTagsView,
        >::Ask {
            state: PostWrite::TagsSent { id: second_id },
            request: StoreRequestView::InsertTags(tag_associations(second_id, second.tags)),
        }),
        tag_associations(first_id, first.tags).len() == first.tags.len(),
        tag_associations(second_id, second.tags).len() == second.tags.len(),
        forall|i: int|
            0 <= i < first.tags.len() ==> (#[trigger] tag_associations(
                first_id,
                first.tags,
            )[i]) == (NewPostTagView { fk_post_id: first_id, tag: first.tags[i] }),
        forall|i: int|
            0 <= i < second.tags.len() ==> (#[trigger] tag_associations(
                second_id,
                second.tags,
            )[i]) == (NewPostTagView { fk_post_id: second_id, tag: second.tags[i] }),
        forall|author: Option<UserView>, other: Option<UserView>|
            (#[trigger] created_post(first, first_id, author)).id != (#[trigger] created_post(
                second,
                second_id,
                other,
            )).id,
{
}

/// The count and the fetch of a listing are made with the same filter, the
/// pattern of the query, and the fetch asks for the page of the query.
pub proof fn lemma_count_and_fetch_share_the_filter(query: PostQueryView, total_docs: i64)
    requires
        query.well_formed(),
        total_docs >= 0,
    ensures
        list_step(query, Listing::Start, StoreEventView::Opened) == (StepView::<
            Listing,
            PaginatedPostsView,
        >::Ask {
            state: Listing::Counting,
            request: StoreRequestView::Count { pattern: query.pattern },
        }),
        list_step(query, Listing::Counting, StoreEventView::Counted(total_docs)) matches StepView::Ask {
            state,
            request: StoreRequestView::Fetch { pattern, limit, offset },
        } && state == (Listing::Fetching { total_docs }) && pattern == query.pattern && limit
            == query.page_size && offset == (query.page - 1) * query.page_size,
{
    crate::pagination::lemma_page_within_bounds(query.page, query.page_size, 0);
}

/// What a listing commits. It commits only after the store has opened a
/// unit of work, counted and fetched, in this order, and then the page
/// holds the records of the rows fetched, the most recent post first, and
/// counts the documents that the store counted. Its metadata describe the page: `from` and `to` span as
/// many items as the page has records, never more than the page size, and
/// the number of pages is the number of documents over the page size,
/// rounded up.
pub proof fn lemma_listed_page(query: PostQueryView, events: Seq<StoreEventView>)
    requires
        query.well_formed(),
        events.len() > 0,
    ensures
        list_run(query, events) matches StepView::Commit(page) ==> {
            &&& events.len() >= 3
            &&& events[0] == StoreEventView::Opened
            &&& events[1] == StoreEventView::Counted(page.meta.total_docs)
            &&& events[2] matches StoreEventView::Fetched(rows, encoding)
            &&& aggregation(rows, encoding) == Ok::<Seq<PostWithTagsView>, Error>(page.records)
            &&& most_recent_first(page.records)
            &&& page.meta.describes(
                page.meta.total_docs as int,
                query.page,
                query.page_size,
                page.records.len() as int,
            )
            &&& page.meta.to - page.meta.from + 1 == page.records.len() <= page.meta.per_page
            &&& page.meta.from <= page.meta.to <==> page.records.len() > 0
            &&& page.meta.total_pages == 0 <==> page.meta.total_docs == 0
        },
        list_run(query, events) is Fail <==> events[0] != StoreEventView::Opened,
{
    reveal_with_fuel(run, 4);
    let second = events.drop_first();
    if events.len() > 1 {
        assert(second.first() == events[1]);
        let third = second.drop_first();
        if events.len() > 2 {
            assert(third.first() == events[2]);
        }
    }
    if let StepView::Commit(page) = list_run(query, events) {
        let total_docs = page.meta.total_docs as int;
        let returned = page.records.len() as int;
        assert(events.len() >= 3);
        assert(events[1] is Counted);
        let counted = events[1]->Counted_0;
        assert(counted >= 0);
        assert(events[2] is Fetched);
        crate::pagination::lemma_meta_describes(
            counted as int,
            query.page,
            query.page_size,
            returned,
        );
        crate::pagination::lemma_page_count_is_ceiling(counted as int, query.page_size);
        assert(page.meta == meta_of(counted as int, query.page, query.page_size, returned));
    }
}

/// The three events after which a listing commits, and what it commits:
/// the store opens a unit of work, counts, and fetches rows that are
/// consistent, of no more posts than the page has room for, the most recent
/// post first.
pub proof fn lemma_listing_commits(
    query: PostQueryView,
    total_docs: i64,
    rows: Seq<JoinRowView>,
    encoding: TagEncoding,
)
    requires
        query.well_formed(),
        total_docs >= 0,
        consistent(rows),
        aggregated(rows, encoding).len() <= query.page_size,
        most_recent_first(aggregated(rows, encoding)),
    ensures
        list_run(
            query,
            seq![
                StoreEventView::Opened,
                StoreEventView::Counted(total_docs),
                StoreEventView::Fetched(rows, encoding),
            ],
        ) == StepView::<Listing, PaginatedPostsView>::Commit(
            PaginatedPostsView {
                records: aggregated(rows, encoding),
                meta: meta_of(
                    total_docs as int,
                    query.page,
                    query.page_size,
                    aggregated(rows, encoding).len() as int,
                ),
            },
        ),
{
    reveal_with_fuel(run, 4);
    let events = seq![
        StoreEventView::Opened,
        StoreEventView::Counted(total_docs),
        StoreEventView::Fetched(rows, encoding),
    ];
    let second = events.drop_first();
    let third = second.drop_first();
    assert(second.first() == events[1]);
    assert(third.first() == events[2]);
}

/// A listing without a search term and a listing with the empty search term
/// are the same listing: at every step they ask the store the same, and
/// where the store answers the same they end the same, with the same number
/// of documents.
pub proof fn lemma_empty_search_lists_all(
    page: Option<u32>,
    limit: Option<u32>,
    state: Listing,
    event: StoreEventView,
)
    ensures
        PostQueryView::build(page, limit, None) == PostQueryView::build(
            page,
            limit,
            Some(Seq::<char>::empty()),
        ),
        PostQueryView::build(page, limit, None) matches Ok(absent) ==> list_step(
            absent,
            state,
            event,
        ) == list_step(
            PostQueryView::build(page, limit, Some(Seq::<char>::empty()))->Ok_0,
            state,
            event,
        ),
{
    crate::query::lemma_absent_search_is_empty_search(page, limit);
}

} // verus!
