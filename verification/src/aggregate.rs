//! The aggregator: from the rows of the join of posts, tag associations and
//! authors to one record for each post, with the set of its tags and its
//! author. A fold over the rows, keyed by the post's identifier: it reads
//! nothing else and asks nothing of the store.

use crate::error::Error;
use crate::models::{
    copy_text, opt_author, opt_text, post_views, texts, PostWithTags, PostWithTagsView, UserInfo,
    UserInfoView,
};
use crate::tags::{
    add_tags, distinct, extended, joined_tags, lemma_distinct, lemma_distinct_extended,
    lemma_extended_empty, lemma_split_pieces, split_tags, TAG_DELIMITER,
};
use vstd::prelude::*;

verus! {

/// How the rows of a join carry the tags of a post.
#[derive(Clone, Copy, Debug, PartialEq, Eq, Structural)]
pub enum TagEncoding {
    /// A row for each tag association: the tag column holds one tag.
    PerRow,
    /// A row for each post: the tag column holds the post's tags, joined
    /// with `TAG_DELIMITER`.
    Joined,
}

/// A row of the left join of a post with its tag associations and with its
/// author. The tag column is null where the post has no tag, the author
/// columns are null where its author reference resolves to no user.
#[derive(Clone, Debug, PartialEq, Eq)]
pub struct JoinRow {
    pub post_id: i32,
    pub title: String,
    pub body: String,
    pub tag: Option<String>,
    pub author_id: Option<i32>,
    pub username: Option<String>,
    pub first_name: Option<String>,
    pub last_name: Option<String>,
}

/// What a `JoinRow` holds, each text as the sequence of its characters.
pub struct JoinRowView {
    pub post_id: i32,
    pub title: Seq<char>,
    pub body: Seq<char>,
    pub tag: Option<Seq<char>>,
    pub author_id: Option<i32>,
    pub username: Option<Seq<char>>,
    pub first_name: Option<Seq<char>>,
    pub last_name: Option<Seq<char>>,
}

impl View for JoinRow {
    type V = JoinRowView;

    open spec fn view(&self) -> JoinRowView {
        JoinRowView {
            post_id: self.post_id,
            title: self.title@,
            body: self.body@,
            tag: opt_text(self.tag),
            author_id: self.author_id,
            username: opt_text(self.username),
            first_name: opt_text(self.first_name),
            last_name: opt_text(self.last_name),
        }
    }
}

/// The view of each row of `rows`.
pub open spec fn row_views(rows: Seq<JoinRow>) -> Seq<JoinRowView> {
    Seq::new(rows.len(), |i: int| rows[i]@)
}

impl JoinRowView {
    /// The tags that the row carries: none where the tag column is null, and
    /// at least one where it is not.
    pub open spec fn tags(self, encoding: TagEncoding) -> Seq<Seq<char>> {
        match self.tag {
            None => Seq::empty(),
            Some(text) => match encoding {
                TagEncoding::PerRow => seq![text],
                TagEncoding::Joined => joined_tags(text),
            },
        }
    }

    /// The author that the row names: none where the author's identifier is
    /// null. An author whose name is null has the empty name.
    pub open spec fn author(self) -> Option<UserInfoView> {
        match self.author_id {
            Some(user_id) => Some(
                UserInfoView {
                    user_id,
                    username: match self.username {
                        Some(name) => name,
                        None => Seq::empty(),
                    },
                    first_name: self.first_name,
                    last_name: self.last_name,
                },
            ),
            None => None,
        }
    }

    /// Both rows have a tag or neither has, and both have an author or
    /// neither has.
    pub open spec fn agrees_with(self, other: JoinRowView) -> bool {
        &&& self.tag is None <==> other.tag is None
        &&& self.author_id is None <==> other.author_id is None
    }
}

/// No two rows of one post disagree: a left join gives a post without tags
/// one row with a null tag, and a post with tags no such row.
pub open spec fn consistent(rows: Seq<JoinRowView>) -> bool {
    forall|i: int, j: int|
        0 <= i < j < rows.len() && rows[i].post_id == rows[j].post_id ==> rows[i].agrees_with(
            rows[j],
        )
}

/// Row `k` is the first that disagrees with an earlier row of its post.
pub open spec fn conflict_at(rows: Seq<JoinRowView>, k: int) -> bool {
    &&& 0 <= k < rows.len()
    &&& consistent(rows.take(k))
    &&& !consistent(rows.take(k + 1))
}

/// The index of the first row that disagrees with an earlier row of its
/// post, where the rows are not consistent.
pub open spec fn first_conflict(rows: Seq<JoinRowView>) -> int {
    choose|k: int| conflict_at(rows, k)
}

/// The post identifier of each row.
pub open spec fn ids_of(rows: Seq<JoinRowView>) -> Seq<i32> {
    Seq::new(rows.len(), |i: int| rows[i].post_id)
}

/// The identifiers of the posts of `rows`, in the order in which the posts
/// first appear.
pub open spec fn post_ids(rows: Seq<JoinRowView>) -> Seq<i32> {
    distinct(ids_of(rows))
}

/// Whether a row belongs to post `id`.
pub open spec fn of_post(id: i32) -> spec_fn(JoinRowView) -> bool {
    |row: JoinRowView| row.post_id == id
}

/// The rows of post `id`, in their order.
pub open spec fn rows_of(rows: Seq<JoinRowView>, id: i32) -> Seq<JoinRowView> {
    rows.filter(of_post(id))
}

/// All the tags that `rows` carry, in the order of the rows.
pub open spec fn carried_tags(rows: Seq<JoinRowView>, encoding: TagEncoding) -> Seq<Seq<char>>
    decreases rows.len(),
{
    if rows.len() == 0 {
        Seq::empty()
    } else {
        carried_tags(rows.drop_last(), encoding) + rows.last().tags(encoding)
    }
}

/// The author that the first of `rows` to name one names.
pub open spec fn first_author(rows: Seq<JoinRowView>) -> Option<UserInfoView>
    decreases rows.len(),
{
    if rows.len() == 0 {
        None
    } else {
        match first_author(rows.drop_last()) {
            Some(author) => Some(author),
            None => rows.last().author(),
        }
    }
}

/// The post that its rows describe: identifier, title and body as the first
/// row has them, the distinct tags of all rows, and the first author named.
pub open spec fn post_of(rows: Seq<JoinRowView>, encoding: TagEncoding) -> PostWithTagsView
    recommends
        rows.len() > 0,
{
    PostWithTagsView {
        id: rows.first().post_id,
        title: rows.first().title,
        body: rows.first().body,
        tags: distinct(carried_tags(rows, encoding)),
        created_by: first_author(rows),
    }
}

/// One record for each post of `rows`, in the order in which the posts
/// first appear.
pub open spec fn aggregated(rows: Seq<JoinRowView>, encoding: TagEncoding) -> Seq<
    PostWithTagsView,
> {
    Seq::new(
        post_ids(rows).len(),
        |j: int| post_of(rows_of(rows, post_ids(rows)[j]), encoding),
    )
}

/// What the aggregator makes of `rows`: their records where they are
/// consistent, and else the post of the first row that is in conflict.
pub open spec fn aggregation(rows: Seq<JoinRowView>, encoding: TagEncoding) -> Result<
    Seq<PostWithTagsView>,
    Error,
> {
    if consistent(rows) {
        Ok(aggregated(rows, encoding))
    } else {
        Err(Error::MalformedRow { post_id: rows[first_conflict(rows)].post_id })
    }
}

/// Some row belongs to post `id`.
pub open spec fn has_row(rows: Seq<JoinRowView>, id: i32) -> bool {
    exists|i: int| 0 <= i < rows.len() && (#[trigger] rows[i]).post_id == id
}

/// Some record is that of post `id`.
pub open spec fn has_record(records: Seq<PostWithTagsView>, id: i32) -> bool {
    exists|j: int| 0 <= j < records.len() && (#[trigger] records[j]).id == id
}

/// Some row of post `id` carries `tag`.
pub open spec fn carries(
    rows: Seq<JoinRowView>,
    encoding: TagEncoding,
    id: i32,
    tag: Seq<char>,
) -> bool {
    exists|i: int|
        0 <= i < rows.len() && (#[trigger] rows[i]).post_id == id && rows[i].tags(
            encoding,
        ).contains(tag)
}

/// The record of a post and a further row of the post fit together: the row
/// has a tag where the record has tags, and an author where the record has
/// one.
pub open spec fn fits(post: PostWithTagsView, row: JoinRowView) -> bool {
    &&& post.tags.len() == 0 <==> row.tag is None
    &&& post.created_by is None <==> row.author_id is None
}

/// The rows of post `id` are rows of `rows` that belong to the post, and all
/// of them.
pub proof fn lemma_rows_of(rows: Seq<JoinRowView>, id: i32)
    ensures
        forall|i: int|
            0 <= i < rows_of(rows, id).len() ==> (#[trigger] rows_of(rows, id)[i]).post_id == id
                && rows.contains(rows_of(rows, id)[i]),
        forall|i: int|
            0 <= i < rows.len() && (#[trigger] rows[i]).post_id == id ==> rows_of(
                rows,
                id,
            ).contains(rows[i]),
        post_ids(rows).contains(id) <==> rows_of(rows, id).len() > 0,
{
    let of_id = rows_of(rows, id);
    rows.filter_lemma(of_post(id));
    assert forall|i: int| 0 <= i < of_id.len() implies (#[trigger] of_id[i]).post_id == id
        && rows.contains(of_id[i]) by {
        assert(of_post(id)(of_id[i]));
        assert(of_id.contains(of_id[i]));
        rows.lemma_filter_contains_rev(of_post(id), of_id[i]);
    }
    assert forall|i: int| 0 <= i < rows.len() && (#[trigger] rows[i]).post_id == id implies of_id.contains(
        rows[i],
    ) by {
        assert(of_post(id)(rows[i]));
    }
    lemma_distinct(ids_of(rows));
    if post_ids(rows).contains(id) {
        assert(ids_of(rows).contains(id));
        let i = choose|i: int| 0 <= i < ids_of(rows).len() && ids_of(rows)[i] == id;
        assert(rows[i].post_id == id);
        assert(of_id.contains(rows[i]));
    }
    if of_id.len() > 0 {
        assert(rows.contains(of_id[0]));
        let i = choose|i: int| 0 <= i < rows.len() && rows[i] == of_id[0];
        assert(ids_of(rows)[i] == id);
        assert(ids_of(rows).contains(id));
    }
}

/// The records are one for each post: no two have the same identifier, and
/// a post has a record exactly where it has a row.
pub proof fn lemma_one_record_for_each_post(rows: Seq<JoinRowView>, encoding: TagEncoding)
    ensures
        aggregated(rows, encoding).len() == post_ids(rows).len(),
        forall|a: int, b: int|
            0 <= a < b < aggregated(rows, encoding).len() ==> (#[trigger] aggregated(
                rows,
                encoding,
            )[a]).id != (#[trigger] aggregated(rows, encoding)[b]).id,
        forall|id: i32| #[trigger]
            has_record(aggregated(rows, encoding), id) <==> has_row(rows, id),
{
    let records = aggregated(rows, encoding);
    lemma_record_ids(rows, encoding);
    lemma_distinct(ids_of(rows));
    assert forall|id: i32| #[trigger] has_record(records, id) <==> has_row(rows, id) by {
        if has_record(records, id) {
            let j = choose|j: int| 0 <= j < records.len() && (#[trigger] records[j]).id == id;
            assert(post_ids(rows)[j] == id);
            assert(post_ids(rows).contains(id));
            assert(ids_of(rows).contains(id));
            let i = choose|i: int| 0 <= i < ids_of(rows).len() && ids_of(rows)[i] == id;
            assert(rows[i].post_id == id);
        }
        if has_row(rows, id) {
            let i = choose|i: int| 0 <= i < rows.len() && (#[trigger] rows[i]).post_id == id;
            assert(ids_of(rows)[i] == id);
            assert(ids_of(rows).contains(id));
            assert(post_ids(rows).contains(id));
            let j = choose|j: int| 0 <= j < post_ids(rows).len() && post_ids(rows)[j] == id;
            assert(records[j].id == id);
        }
    }
}

/// The records stand in the order in which their posts first appear: of two
/// records the earlier one has a row before the later one has any.
pub proof fn lemma_records_in_order_of_appearance(
    rows: Seq<JoinRowView>,
    encoding: TagEncoding,
    a: int,
    b: int,
)
    requires
        0 <= a < b < aggregated(rows, encoding).len(),
    ensures
        exists|p: int|
            0 <= p < rows.len() && (#[trigger] rows[p]).post_id == aggregated(rows, encoding)[a].id
                && forall|q: int|
                0 <= q <= p ==> (#[trigger] rows[q]).post_id != aggregated(rows, encoding)[b].id,
{
    lemma_record_ids(rows, encoding);
    crate::tags::lemma_distinct_order(ids_of(rows), a, b);
    let ids = ids_of(rows);
    let p = choose|p: int|
        0 <= p < ids.len() && #[trigger] ids[p] == distinct(ids)[a] && forall|q: int|
            0 <= q <= p ==> #[trigger] ids[q] != distinct(ids)[b];
    assert(rows[p].post_id == aggregated(rows, encoding)[a].id);
    assert forall|q: int| 0 <= q <= p implies (#[trigger] rows[q]).post_id != aggregated(
        rows,
        encoding,
    )[b].id by {
        assert(ids[q] != distinct(ids)[b]);
    }
}

/// The tags of a record are a set, namely the set of the tags that the rows
/// of its post carry: a tag that several rows carry stands once.
pub proof fn lemma_record_tags(rows: Seq<JoinRowView>, encoding: TagEncoding, id: i32)
    ensures
        post_of(rows_of(rows, id), encoding).well_formed(),
        forall|tag: Seq<char>| #[trigger]
            post_of(rows_of(rows, id), encoding).tags.contains(tag) <==> carries(
                rows,
                encoding,
                id,
                tag,
            ),
{
    let of_id = rows_of(rows, id);
    lemma_distinct(carried_tags(of_id, encoding));
    lemma_rows_of(rows, id);
    assert forall|tag: Seq<char>| #[trigger]
        post_of(of_id, encoding).tags.contains(tag) <==> carries(rows, encoding, id, tag) by {
        lemma_carried_tags(of_id, encoding, tag);
        if carried_tags(of_id, encoding).contains(tag) {
            let a = choose|a: int|
                0 <= a < of_id.len() && (#[trigger] of_id[a]).tags(encoding).contains(tag);
            assert(rows.contains(of_id[a]));
            let i = choose|i: int| 0 <= i < rows.len() && rows[i] == of_id[a];
            assert(rows[i].post_id == id && rows[i].tags(encoding).contains(tag));
        }
        if carries(rows, encoding, id, tag) {
            let i = choose|i: int|
                0 <= i < rows.len() && (#[trigger] rows[i]).post_id == id && rows[i].tags(
                    encoding,
                ).contains(tag);
            assert(of_id.contains(rows[i]));
            let a = choose|a: int| 0 <= a < of_id.len() && of_id[a] == rows[i];
            assert(of_id[a].tags(encoding).contains(tag));
        }
    }
}

/// The set of a post's tags does not depend on the order of the rows: the
/// same rows in another order give each post the same tags, and the same
/// posts.
pub proof fn lemma_tags_ignore_row_order(
    rows: Seq<JoinRowView>,
    reordered: Seq<JoinRowView>,
    encoding: TagEncoding,
    id: i32,
)
    requires
        rows.to_multiset() == reordered.to_multiset(),
    ensures
        post_of(rows_of(rows, id), encoding).tags.to_set() == post_of(
            rows_of(reordered, id),
            encoding,
        ).tags.to_set(),
        post_ids(rows).to_set() == post_ids(reordered).to_set(),
{
    lemma_same_rows(rows, reordered);
    lemma_same_rows(reordered, rows);
    lemma_record_tags(rows, encoding, id);
    lemma_record_tags(reordered, encoding, id);
    let tags = post_of(rows_of(rows, id), encoding).tags;
    let other = post_of(rows_of(reordered, id), encoding).tags;
    assert forall|tag: Seq<char>| tags.contains(tag) <==> other.contains(tag) by {
        lemma_tag_found(rows, reordered, encoding, id, tag);
        lemma_tag_found(reordered, rows, encoding, id, tag);
    }
    assert(tags.to_set() =~= other.to_set());
    lemma_distinct(ids_of(rows));
    lemma_distinct(ids_of(reordered));
    assert forall|x: i32| post_ids(rows).contains(x) <==> post_ids(reordered).contains(x) by {
        lemma_id_found(rows, reordered, x);
        lemma_id_found(reordered, rows, x);
    }
    assert(post_ids(rows).to_set() =~= post_ids(reordered).to_set());
}

/// Rows that are not consistent have a first conflict.
pub proof fn lemma_conflict_exists(rows: Seq<JoinRowView>)
    requires
        !consistent(rows),
    ensures
        conflict_at(rows, first_conflict(rows)),
    decreases rows.len(),
{
    if rows.len() == 0 {
        assert(consistent(rows));
    } else {
        let front = rows.drop_last();
        assert(rows.take(rows.len() as int) =~= rows);
        assert(rows.take(rows.len() - 1) =~= front);
        if consistent(front) {
            assert(conflict_at(rows, rows.len() - 1));
        } else {
            lemma_conflict_exists(front);
            let k = first_conflict(front);
            assert(front.take(k) =~= rows.take(k));
            assert(front.take(k + 1) =~= rows.take(k + 1));
            assert(conflict_at(rows, k));
        }
    }
}

/// There is one first conflict at most, and rows with a conflict are not
/// consistent.
pub proof fn lemma_conflict(rows: Seq<JoinRowView>, k: int)
    requires
        conflict_at(rows, k),
    ensures
        !consistent(rows),
        first_conflict(rows) == k,
{
    if consistent(rows) {
        lemma_consistent_prefix(rows, k + 1);
    }
    let other = first_conflict(rows);
    assert(conflict_at(rows, other));
    if other < k {
        lemma_consistent_prefix(rows.take(k), other + 1);
        assert(rows.take(k).take(other + 1) =~= rows.take(other + 1));
    } else if k < other {
        lemma_consistent_prefix(rows.take(other), k + 1);
        assert(rows.take(other).take(k + 1) =~= rows.take(k + 1));
    }
}

/// Each record has the identifier of its post.
proof fn lemma_record_ids(rows: Seq<JoinRowView>, encoding: TagEncoding)
    ensures
        aggregated(rows, encoding).len() == post_ids(rows).len(),
        forall|j: int|
            0 <= j < post_ids(rows).len() ==> (#[trigger] aggregated(rows, encoding)[j]).id
                == post_ids(rows)[j],
        post_ids(rows).no_duplicates(),
{
    lemma_distinct(ids_of(rows));
    assert forall|j: int| 0 <= j < post_ids(rows).len() implies (#[trigger] aggregated(
        rows,
        encoding,
    )[j]).id == post_ids(rows)[j] by {
        let id = post_ids(rows)[j];
        assert(post_ids(rows).contains(id));
        lemma_rows_of(rows, id);
    }
}

/// The tags that rows carry are the tags that one of the rows carries.
proof fn lemma_carried_tags(rows: Seq<JoinRowView>, encoding: TagEncoding, tag: Seq<char>)
    ensures
        carried_tags(rows, encoding).contains(tag) <==> exists|i: int|
            0 <= i < rows.len() && (#[trigger] rows[i]).tags(encoding).contains(tag),
    decreases rows.len(),
{
    if rows.len() > 0 {
        let front = rows.drop_last();
        let last = rows.last();
        lemma_carried_tags(front, encoding, tag);
        vstd::seq_lib::lemma_seq_concat_contains_all_elements(
            carried_tags(front, encoding),
            last.tags(encoding),
            tag,
        );
        if exists|i: int| 0 <= i < front.len() && (#[trigger] front[i]).tags(encoding).contains(tag) {
            let i = choose|i: int|
                0 <= i < front.len() && (#[trigger] front[i]).tags(encoding).contains(tag);
            assert(rows[i].tags(encoding).contains(tag));
        }
        if last.tags(encoding).contains(tag) {
            assert(rows[rows.len() - 1].tags(encoding).contains(tag));
        }
        if exists|i: int| 0 <= i < rows.len() && (#[trigger] rows[i]).tags(encoding).contains(tag) {
            let i = choose|i: int|
                0 <= i < rows.len() && (#[trigger] rows[i]).tags(encoding).contains(tag);
            if i < front.len() {
                assert(front[i].tags(encoding).contains(tag));
            }
        }
    }
}

/// Each row of a sequence is a row of every reordering of it.
proof fn lemma_same_rows(rows: Seq<JoinRowView>, reordered: Seq<JoinRowView>)
    requires
        rows.to_multiset() == reordered.to_multiset(),
    ensures
        forall|i: int| 0 <= i < rows.len() ==> reordered.contains(#[trigger] rows[i]),
{
    assert forall|i: int| 0 <= i < rows.len() implies reordered.contains(#[trigger] rows[i]) by {
        assert(rows.contains(rows[i]));
        vstd::seq_lib::to_multiset_contains(rows, rows[i]);
        vstd::seq_lib::to_multiset_contains(reordered, rows[i]);
    }
}

proof fn lemma_tag_found(
    rows: Seq<JoinRowView>,
    others: Seq<JoinRowView>,
    encoding: TagEncoding,
    id: i32,
    tag: Seq<char>,
)
    requires
        forall|i: int| 0 <= i < rows.len() ==> others.contains(#[trigger] rows[i]),
    ensures
        carries(rows, encoding, id, tag) ==> carries(others, encoding, id, tag),
{
    if carries(rows, encoding, id, tag) {
        let i = choose|i: int|
            0 <= i < rows.len() && (#[trigger] rows[i]).post_id == id && rows[i].tags(
                encoding,
            ).contains(tag);
        assert(others.contains(rows[i]));
        let j = choose|j: int| 0 <= j < others.len() && others[j] == rows[i];
        assert(others[j].post_id == id && others[j].tags(encoding).contains(tag));
    }
}

proof fn lemma_id_found(rows: Seq<JoinRowView>, others: Seq<JoinRowView>, id: i32)
    requires
        forall|i: int| 0 <= i < rows.len() ==> others.contains(#[trigger] rows[i]),
    ensures
        ids_of(rows).contains(id) ==> ids_of(others).contains(id),
{
    if ids_of(rows).contains(id) {
        let i = choose|i: int| 0 <= i < ids_of(rows).len() && ids_of(rows)[i] == id;
        assert(others.contains(rows[i]));
        let j = choose|j: int| 0 <= j < others.len() && others[j] == rows[i];
        assert(ids_of(others)[j] == id);
    }
}

/// The rows before a row are consistent where all rows are.
proof fn lemma_consistent_prefix(rows: Seq<JoinRowView>, n: int)
    requires
        consistent(rows),
        0 <= n <= rows.len(),
    ensures
        consistent(rows.take(n)),
{
    let prefix = rows.take(n);
    assert forall|i: int, j: int|
        0 <= i < j < prefix.len() && prefix[i].post_id == prefix[j].post_id implies prefix[i].agrees_with(
        prefix[j],
    ) by {
        assert(rows[i].agrees_with(rows[j]));
    }
}

/// What a further row changes: the identifiers gain the row's post where it
/// is new, and only the rows of that post gain the row.
proof fn lemma_row_added(rows: Seq<JoinRowView>, row: JoinRowView)
    ensures
        post_ids(rows.push(row)) == if post_ids(rows).contains(row.post_id) {
            post_ids(rows)
        } else {
            post_ids(rows).push(row.post_id)
        },
        forall|id: i32|
            #[trigger] rows_of(rows.push(row), id) == if id == row.post_id {
                rows_of(rows, id).push(row)
            } else {
                rows_of(rows, id)
            },
{
    assert(ids_of(rows.push(row)).drop_last() =~= ids_of(rows));
    assert forall|id: i32|
        #[trigger] rows_of(rows.push(row), id) == if id == row.post_id {
            rows_of(rows, id).push(row)
        } else {
            rows_of(rows, id)
        } by {
        rows.lemma_filter_push(row, of_post(id));
    }
}

/// A row that carries a tag carries at least one, and distinct tags are
/// none only where there is no tag.
proof fn lemma_tags_present(row: JoinRowView, encoding: TagEncoding)
    ensures
        row.tags(encoding).len() == 0 <==> row.tag is None,
{
    if let Some(text) = row.tag {
        lemma_split_pieces(text, TAG_DELIMITER);
    }
}

/// Among rows that agree with each other, the record has tags exactly where
/// the rows have a tag, and an author exactly where the rows have one.
proof fn lemma_null_state(rows: Seq<JoinRowView>, encoding: TagEncoding)
    requires
        rows.len() > 0,
        forall|i: int, j: int|
            0 <= i < rows.len() && 0 <= j < rows.len() ==> (#[trigger] rows[i]).agrees_with(
                #[trigger] rows[j],
            ),
    ensures
        carried_tags(rows, encoding).len() == 0 <==> rows.first().tag is None,
        post_of(rows, encoding).tags.len() == 0 <==> rows.first().tag is None,
        post_of(rows, encoding).created_by is None <==> rows.first().author_id is None,
    decreases rows.len(),
{
    let front = rows.drop_last();
    lemma_tags_present(rows.last(), encoding);
    assert(rows.last().agrees_with(rows.first())) by {
        assert(rows[rows.len() - 1].agrees_with(rows[0]));
    }
    if front.len() > 0 {
        assert forall|i: int, j: int| 0 <= i < front.len() && 0 <= j < front.len() implies (
        #[trigger] front[i]).agrees_with(#[trigger] front[j]) by {
            assert(rows[i].agrees_with(rows[j]));
        }
        lemma_null_state(front, encoding);
        assert(front.first() == rows.first());
    } else {
        assert(carried_tags(front, encoding).len() == 0);
        assert(first_author(front) is None);
    }
    lemma_distinct_extended(Seq::<Seq<char>>::empty(), carried_tags(rows, encoding));
    assert(Seq::<Seq<char>>::empty() + carried_tags(rows, encoding) =~= carried_tags(
        rows,
        encoding,
    ));
    lemma_extended_empty(Seq::<Seq<char>>::empty(), carried_tags(rows, encoding));
}

/// The rows of one post agree with each other where the rows are consistent.
proof fn lemma_rows_of_agree(rows: Seq<JoinRowView>, id: i32)
    requires
        consistent(rows),
    ensures
        forall|a: int, b: int|
            0 <= a < rows_of(rows, id).len() && 0 <= b < rows_of(rows, id).len() ==> (
            #[trigger] rows_of(rows, id)[a]).agrees_with(#[trigger] rows_of(rows, id)[b]),
{
    let of_id = rows_of(rows, id);
    lemma_rows_of(rows, id);
    assert forall|a: int, b: int| 0 <= a < of_id.len() && 0 <= b < of_id.len() implies (
    #[trigger] of_id[a]).agrees_with(#[trigger] of_id[b]) by {
        assert(rows.contains(of_id[a]));
        assert(rows.contains(of_id[b]));
        let i = choose|i: int| 0 <= i < rows.len() && rows[i] == of_id[a];
        let j = choose|j: int| 0 <= j < rows.len() && rows[j] == of_id[b];
        if i < j {
            assert(rows[i].agrees_with(rows[j]));
        } else if j < i {
            assert(rows[j].agrees_with(rows[i]));
        }
    }
}

/// The record of a post to whose rows a row is added: its tags are extended
/// by the row's tags, and it takes the row's author where it had none.
proof fn lemma_post_extended(rows: Seq<JoinRowView>, row: JoinRowView, encoding: TagEncoding)
    requires
        rows.len() > 0,
    ensures
        post_of(rows.push(row), encoding) == (PostWithTagsView {
            tags: extended(post_of(rows, encoding).tags, row.tags(encoding)),
            created_by: match post_of(rows, encoding).created_by {
                Some(author) => Some(author),
                None => row.author(),
            },
            ..post_of(rows, encoding)
        }),
{
    assert(rows.push(row).drop_last() =~= rows);
    lemma_distinct_extended(carried_tags(rows, encoding), row.tags(encoding));
}

/// The first row of a post makes the post's record.
proof fn lemma_step_new(rows: Seq<JoinRowView>, row: JoinRowView, encoding: TagEncoding)
    requires
        consistent(rows),
        !post_ids(rows).contains(row.post_id),
    ensures
        consistent(rows.push(row)),
        aggregated(rows.push(row), encoding) == aggregated(rows, encoding).push(
            PostWithTagsView {
                id: row.post_id,
                title: row.title,
                body: row.body,
                tags: extended(Seq::empty(), row.tags(encoding)),
                created_by: row.author(),
            },
        ),
{
    let longer = rows.push(row);
    lemma_row_added(rows, row);
    lemma_rows_of(rows, row.post_id);
    assert(consistent(longer)) by {
        assert forall|i: int, j: int|
            0 <= i < j < longer.len() && longer[i].post_id == longer[j].post_id implies longer[i].agrees_with(
            longer[j],
        ) by {
            if j < rows.len() {
                assert(rows[i].agrees_with(rows[j]));
            } else {
                assert(rows[i].post_id == row.post_id);
                assert(rows_of(rows, row.post_id).contains(rows[i]));
            }
        }
    }
    let alone = rows_of(longer, row.post_id);
    assert(alone =~= seq![row]);
    assert(alone.drop_last() =~= Seq::<JoinRowView>::empty());
    assert(carried_tags(alone.drop_last(), encoding) =~= Seq::<Seq<char>>::empty());
    lemma_distinct_extended(Seq::<Seq<char>>::empty(), row.tags(encoding));
    assert(Seq::<Seq<char>>::empty() + row.tags(encoding) =~= row.tags(encoding));
    assert(carried_tags(alone, encoding) =~= row.tags(encoding));
    assert(distinct(Seq::<Seq<char>>::empty()) =~= Seq::<Seq<char>>::empty());
    assert(first_author(alone.drop_last()) is None);
    assert(alone.last() == row && alone.first() == row);
    assert(post_of(alone, encoding) == (PostWithTagsView {
        id: row.post_id,
        title: row.title,
        body: row.body,
        tags: extended(Seq::empty(), row.tags(encoding)),
        created_by: row.author(),
    }));
    lemma_distinct(ids_of(rows));
    assert forall|j: int| 0 <= j < post_ids(rows).len() implies rows_of(
        longer,
        post_ids(rows)[j],
    ) == rows_of(rows, post_ids(rows)[j]) by {
        assert(post_ids(rows).contains(post_ids(rows)[j]));
    }
    assert(aggregated(longer, encoding) =~= aggregated(rows, encoding).push(
        post_of(alone, encoding),
    ));
}

/// A further row of a post that has a record: the rows stay consistent
/// exactly where record and row fit together, and then the record gains the
/// row's tags and no other record changes.
proof fn lemma_step_seen(
    rows: Seq<JoinRowView>,
    row: JoinRowView,
    encoding: TagEncoding,
    j: int,
)
    requires
        consistent(rows),
        0 <= j < post_ids(rows).len(),
        post_ids(rows)[j] == row.post_id,
    ensures
        consistent(rows.push(row)) <==> fits(aggregated(rows, encoding)[j], row),
        fits(aggregated(rows, encoding)[j], row) ==> aggregated(rows.push(row), encoding)
            == aggregated(rows, encoding).update(
            j,
            PostWithTagsView {
                tags: extended(aggregated(rows, encoding)[j].tags, row.tags(encoding)),
                ..aggregated(rows, encoding)[j]
            },
        ),
{
    let longer = rows.push(row);
    let id = row.post_id;
    let of_id = rows_of(rows, id);
    let record = aggregated(rows, encoding)[j];
    assert(post_ids(rows).contains(id));
    lemma_row_added(rows, row);
    lemma_rows_of(rows, id);
    lemma_rows_of_agree(rows, id);
    lemma_null_state(of_id, encoding);
    assert(record == post_of(of_id, encoding));
    assert(fits(record, row) <==> row.agrees_with(of_id.first()));
    let i0 = choose|i: int| 0 <= i < rows.len() && rows[i] == of_id[0];
    assert(rows.contains(of_id[0]));
    if fits(record, row) {
        assert forall|a: int, b: int|
            0 <= a < b < longer.len() && longer[a].post_id == longer[b].post_id implies longer[a].agrees_with(
            longer[b],
        ) by {
            if b < rows.len() {
                assert(rows[a].agrees_with(rows[b]));
            } else {
                assert(of_id.contains(rows[a]));
                let c = choose|c: int| 0 <= c < of_id.len() && of_id[c] == rows[a];
                assert(of_id[c].agrees_with(of_id[0]));
            }
        }
        lemma_post_extended(of_id, row, encoding);
        lemma_distinct(ids_of(rows));
        assert forall|m: int| 0 <= m < post_ids(rows).len() && m != j implies rows_of(
            longer,
            post_ids(rows)[m],
        ) == rows_of(rows, post_ids(rows)[m]) by {
            assert(post_ids(rows)[m] != post_ids(rows)[j]);
        }
        assert(aggregated(longer, encoding) =~= aggregated(rows, encoding).update(
            j,
            PostWithTagsView {
                tags: extended(record.tags, row.tags(encoding)),
                ..record
            },
        ));
    } else {
        assert(longer[i0].post_id == longer[rows.len() as int].post_id);
        assert(!longer[i0].agrees_with(longer[rows.len() as int]));
    }
}

/// The tags that a row carries.
pub fn row_tags(row: &JoinRow, encoding: TagEncoding) -> (tags: Vec<String>)
    ensures
        texts(tags@) == row@.tags(encoding),
{
    match &row.tag {
        None => {
            let tags: Vec<String> = Vec::new();
            assert(texts(tags@) =~= row@.tags(encoding));
            tags
        },
        Some(text) => match encoding {
            TagEncoding::PerRow => {
                let mut tags: Vec<String> = Vec::new();
                tags.push(text.clone());
                assert(texts(tags@) =~= row@.tags(encoding));
                tags
            },
            TagEncoding::Joined => split_tags(text.as_str()),
        },
    }
}

/// The author that a row names.
pub fn row_author(row: &JoinRow) -> (author: Option<UserInfo>)
    ensures
        opt_author(author) == row@.author(),
{
    match row.author_id {
        Some(user_id) => {
            let username = match &row.username {
                Some(name) => name.clone(),
                None => String::new(),
            };
            Some(
                UserInfo {
                    user_id,
                    username,
                    first_name: copy_text(&row.first_name),
                    last_name: copy_text(&row.last_name),
                },
            )
        },
        None => None,
    }
}

/// Where in `posts` the first record of post `id` stands.
pub fn position_of(posts: &Vec<PostWithTags>, id: i32) -> (found: Option<usize>)
    ensures
        match found {
            Some(j) => j < posts.len() && posts[j as int].id == id && forall|m: int|
                0 <= m < j ==> posts[m].id != id,
            None => forall|j: int| 0 <= j < posts.len() ==> posts[j].id != id,
        },
{
    let mut j: usize = 0;
    while j < posts.len()
        invariant
            j <= posts.len(),
            forall|m: int| 0 <= m < j ==> posts[m].id != id,
        decreases posts.len() - j,
    {
        if posts[j].id == id {
            return Some(j);
        }
        j += 1;
    }
    None
}

/// Reduces the rows of a join to one record for each post, in the order in
/// which the posts first appear among the rows. A record has the title and
/// body of the post's first row, each tag of the post once, and the author
/// that the rows name. Rows of one post that disagree on whether the post
/// has tags, or on whether it has an author, are an anomaly of the join:
/// the first such row is reported. No rows give no records.
pub fn aggregate(rows: &Vec<JoinRow>, encoding: TagEncoding) -> (outcome: Result<
    Vec<PostWithTags>,
    Error,
>)
    ensures
        match outcome {
            Ok(posts) => aggregation(row_views(rows@), encoding) == Ok::<
                Seq<PostWithTagsView>,
                Error,
            >(post_views(posts@)),
            Err(error) => aggregation(row_views(rows@), encoding) == Err::<
                Seq<PostWithTagsView>,
                Error,
            >(error),
        },
{
    let ghost all = row_views(rows@);
    let mut posts: Vec<PostWithTags> = Vec::new();
    let mut k: usize = 0;
    assert(post_views(posts@) =~= aggregated(all.take(0), encoding));
    while k < rows.len()
        invariant
            k <= rows.len(),
            all == row_views(rows@),
            consistent(all.take(k as int)),
            post_views(posts@) == aggregated(all.take(k as int), encoding),
        decreases rows.len() - k,
    {
        let row = &rows[k];
        let ghost seen = all.take(k as int);
        let ghost records = post_views(posts@);
        proof {
            assert(all.take(k + 1) =~= seen.push(row@));
            lemma_record_ids(seen, encoding);
        }
        let carried = row_tags(row, encoding);
        match position_of(&posts, row.post_id) {
            Some(j) => {
                proof {
                    assert(records[j as int].id == row.post_id);
                    lemma_step_seen(seen, row@, encoding, j as int);
                }
                let has_tags = posts[j].tags.len() > 0;
                let has_author = posts[j].created_by.is_some();
                if has_tags != row.tag.is_some() || has_author != row.author_id.is_some() {
                    proof {
                        assert(!fits(records[j as int], row@));
                        lemma_conflict(all, k as int);
                    }
                    return Err(Error::MalformedRow { post_id: row.post_id });
                }
                assert(fits(records[j as int], row@));
                let post = &mut posts[j];
                add_tags(&mut post.tags, &carried);
                assert(post_views(posts@) =~= records.update(
                    j as int,
                    PostWithTagsView {
                        tags: extended(records[j as int].tags, row@.tags(encoding)),
                        ..records[j as int]
                    },
                ));
            },
            None => {
                proof {
                    assert(!post_ids(seen).contains(row.post_id)) by {
                        if post_ids(seen).contains(row.post_id) {
                            let j = choose|j: int|
                                0 <= j < post_ids(seen).len() && post_ids(seen)[j] == row.post_id;
                            assert(records[j].id == row.post_id);
                        }
                    }
                    lemma_step_new(seen, row@, encoding);
                }
                let mut tags: Vec<String> = Vec::new();
                assert(texts(tags@) =~= Seq::<Seq<char>>::empty());
                add_tags(&mut tags, &carried);
                posts.push(
                    PostWithTags {
                        id: row.post_id,
                        title: row.title.clone(),
                        body: row.body.clone(),
                        tags,
                        created_by: row_author(row),
                    },
                );
                assert(post_views(posts@) =~= records.push(
                    PostWithTagsView {
                        id: row@.post_id,
                        title: row@.title,
                        body: row@.body,
                        tags: extended(Seq::empty(), row@.tags(encoding)),
                        created_by: row@.author(),
                    },
                ));
            },
        }
        k += 1;
    }
    assert(all.take(rows.len() as int) =~= all);
    Ok(posts)
}

} // verus!
