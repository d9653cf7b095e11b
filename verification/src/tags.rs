//! Tag lists: the distinct elements of a sequence in the order of their
//! first appearance, and the reading of a list of tags that the store has
//! joined into one delimited string.

use crate::models::texts;
use vstd::prelude::*;
use vstd::seq_lib::lemma_seq_contains_after_push;
use vstd::string::*;

verus! {

/// What separates the tags of a joined list.
pub const TAG_DELIMITER: char = ',';

/// Whether `c` is white space, as `char::is_whitespace` tells it.
pub uninterp spec fn is_whitespace(c: char) -> bool;

/// `char::is_whitespace` of std, which tells by the character alone whether
/// it has the Unicode property White_Space. No more is claimed here than
/// that the answer is the same for the same character.
#[verifier::external_body]
fn char_is_whitespace(c: char) -> (white: bool)
    ensures
        white == is_whitespace(c),
{
    c.is_whitespace()
}

/// `s` without the white space that it begins with.
pub open spec fn trim_start(s: Seq<char>) -> Seq<char>
    decreases s.len(),
{
    if s.len() > 0 && is_whitespace(s.first()) {
        trim_start(s.drop_first())
    } else {
        s
    }
}

/// `s` without the white space that it ends with.
pub open spec fn trim_end(s: Seq<char>) -> Seq<char>
    decreases s.len(),
{
    if s.len() > 0 && is_whitespace(s.last()) {
        trim_end(s.drop_last())
    } else {
        s
    }
}

/// `s` without the white space around it.
pub open spec fn trimmed(s: Seq<char>) -> Seq<char> {
    trim_end(trim_start(s))
}

/// The pieces into which the occurrences of `delimiter` cut `s`. A string
/// without `delimiter` is one piece, and so is the empty string.
pub open spec fn split(s: Seq<char>, delimiter: char) -> Seq<Seq<char>>
    decreases s.len(),
{
    if s.len() == 0 {
        seq![Seq::<char>::empty()]
    } else {
        let before = split(s.drop_last(), delimiter);
        if s.last() == delimiter {
            before.push(Seq::<char>::empty())
        } else {
            before.drop_last().push(before.last().push(s.last()))
        }
    }
}

/// `pieces` in a row, with `delimiter` between each two of them.
pub open spec fn joined(pieces: Seq<Seq<char>>, delimiter: char) -> Seq<char>
    decreases pieces.len(),
{
    if pieces.len() == 0 {
        Seq::empty()
    } else if pieces.len() == 1 {
        pieces.last()
    } else {
        joined(pieces.drop_last(), delimiter).push(delimiter) + pieces.last()
    }
}

/// The tags of a joined list: its pieces, each without the white space
/// around it. A piece may be empty, and a tag may stand twice.
pub open spec fn joined_tags(joined: Seq<char>) -> Seq<Seq<char>> {
    split(joined, TAG_DELIMITER).map_values(|piece: Seq<char>| trimmed(piece))
}

/// The elements of `s`, each once, in the order in which they first appear.
pub open spec fn distinct<T>(s: Seq<T>) -> Seq<T>
    decreases s.len(),
{
    if s.len() == 0 {
        s
    } else {
        let before = distinct(s.drop_last());
        if before.contains(s.last()) {
            before
        } else {
            before.push(s.last())
        }
    }
}

/// `seen`, and behind it those of `more` that neither `seen` nor an earlier
/// one of `more` holds.
pub open spec fn extended<T>(seen: Seq<T>, more: Seq<T>) -> Seq<T>
    decreases more.len(),
{
    if more.len() == 0 {
        seen
    } else {
        let before = extended(seen, more.drop_last());
        if before.contains(more.last()) {
            before
        } else {
            before.push(more.last())
        }
    }
}

/// `distinct(s)` holds what `s` holds, and nothing twice.
pub proof fn lemma_distinct<T>(s: Seq<T>)
    ensures
        distinct(s).no_duplicates(),
        distinct(s).len() <= s.len(),
        forall|x: T| #[trigger] distinct(s).contains(x) <==> s.contains(x),
    decreases s.len(),
{
    if s.len() > 0 {
        let front = s.drop_last();
        let last = s.last();
        let before = distinct(front);
        lemma_distinct(front);
        assert(s =~= front.push(last));
        assert forall|x: T| #[trigger] distinct(s).contains(x) <==> s.contains(x) by {
            assert(before.contains(x) <==> front.contains(x));
            lemma_seq_contains_after_push(front, last, x);
            lemma_seq_contains_after_push(before, last, x);
        }
    }
}

/// `distinct(s)` keeps the order of first appearance: of two of its elements
/// the earlier one appears in `s` before the later one appears at all.
pub proof fn lemma_distinct_order<T>(s: Seq<T>, i: int, j: int)
    requires
        0 <= i < j < distinct(s).len(),
    ensures
        exists|p: int|
            0 <= p < s.len() && #[trigger] s[p] == distinct(s)[i] && forall|q: int|
                0 <= q <= p ==> #[trigger] s[q] != distinct(s)[j],
    decreases s.len(),
{
    let front = s.drop_last();
    let before = distinct(front);
    lemma_distinct(front);
    if j < before.len() {
        lemma_distinct_order(front, i, j);
        let p = choose|p: int|
            0 <= p < front.len() && #[trigger] front[p] == before[i] && forall|q: int|
                0 <= q <= p ==> #[trigger] front[q] != before[j];
        assert(s[p] == distinct(s)[i]);
        assert forall|q: int| 0 <= q <= p implies #[trigger] s[q] != distinct(s)[j] by {
            assert(front[q] != before[j]);
        }
    } else {
        assert(before.contains(before[i]));
        let p = choose|p: int| 0 <= p < front.len() && front[p] == before[i];
        assert(s[p] == distinct(s)[i]);
        assert forall|q: int| 0 <= q <= p implies #[trigger] s[q] != distinct(s)[j] by {
            if s[q] == s.last() {
                assert(front[q] == s.last());
                assert(front.contains(s.last()));
            }
        }
    }
}

/// The distinct elements of a sequence that holds nothing twice are the
/// sequence itself.
pub proof fn lemma_distinct_of_distinct<T>(s: Seq<T>)
    requires
        s.no_duplicates(),
    ensures
        distinct(s) == s,
    decreases s.len(),
{
    if s.len() > 0 {
        let front = s.drop_last();
        lemma_distinct_of_distinct(front);
        lemma_distinct(front);
        if front.contains(s.last()) {
            let i = choose|i: int| 0 <= i < front.len() && front[i] == s.last();
            assert(s[i] == s[s.len() - 1]);
        }
        assert(front.push(s.last()) =~= s);
    }
}

/// The distinct elements of two sequences in a row are those of the first,
/// extended by the second.
pub proof fn lemma_distinct_extended<T>(first: Seq<T>, second: Seq<T>)
    ensures
        distinct(first + second) == extended(distinct(first), second),
    decreases second.len(),
{
    if second.len() == 0 {
        assert(first + second =~= first);
    } else {
        lemma_distinct_extended(first, second.drop_last());
        assert((first + second).drop_last() =~= first + second.drop_last());
    }
}

/// `extended` is empty only where both sequences are.
pub proof fn lemma_extended_empty<T>(seen: Seq<T>, more: Seq<T>)
    ensures
        extended(seen, more).len() >= seen.len(),
        extended(seen, more).len() == 0 <==> seen.len() == 0 && more.len() == 0,
    decreases more.len(),
{
    if more.len() > 0 {
        lemma_extended_empty(seen, more.drop_last());
    }
}

/// What `split` returns: at least one piece, none of which holds the
/// delimiter, and which joined by the delimiter are the string again.
pub proof fn lemma_split_pieces(s: Seq<char>, delimiter: char)
    ensures
        split(s, delimiter).len() >= 1,
        forall|k: int, i: int|
            0 <= k < split(s, delimiter).len() && 0 <= i < split(s, delimiter)[k].len() ==> (
            #[trigger] split(s, delimiter)[k][i]) != delimiter,
        joined(split(s, delimiter), delimiter) == s,
    decreases s.len(),
{
    if s.len() == 0 {
        assert(joined(split(s, delimiter), delimiter) =~= s);
    } else {
        let front = s.drop_last();
        let before = split(front, delimiter);
        let pieces = split(s, delimiter);
        lemma_split_pieces(front, delimiter);
        assert(s =~= front.push(s.last()));
        if s.last() == delimiter {
            assert(pieces.drop_last() =~= before);
            assert(joined(pieces, delimiter) =~= joined(before, delimiter).push(delimiter));
        } else if before.len() == 1 {
            assert(joined(pieces, delimiter) =~= before.last().push(s.last()));
        } else {
            assert(pieces.drop_last() =~= before.drop_last());
            assert(joined(pieces, delimiter) =~= (joined(before.drop_last(), delimiter).push(
                delimiter,
            ) + before.last()).push(s.last()));
        }
    }
}

/// What is left of a string without the white space around it: a stretch of
/// the string that neither begins nor ends with white space, with nothing
/// but white space before and behind it.
pub proof fn lemma_trimmed(s: Seq<char>)
    ensures
        trimmed(s).len() > 0 ==> !is_whitespace(trimmed(s).first()) && !is_whitespace(
            trimmed(s).last(),
        ),
        exists|from: int, to: int|
            0 <= from <= to <= s.len() && trimmed(s) == #[trigger] s.subrange(from, to) && (
            forall|i: int| 0 <= i < from || to <= i < s.len() ==> is_whitespace(#[trigger] s[i])),
{
    lemma_trim_start(s);
    let from = s.len() - trim_start(s).len();
    let rest = trim_start(s);
    lemma_trim_end(rest);
    let to = from + trim_end(rest).len();
    assert(trimmed(s) =~= s.subrange(from, to));
    assert forall|i: int| 0 <= i < from || to <= i < s.len() implies is_whitespace(
        #[trigger] s[i],
    ) by {
        if to <= i {
            assert(rest[i - from] == s[i]);
        }
    }
    if trimmed(s).len() > 0 {
        assert(trimmed(s).first() == rest.first());
    }
}

/// `trim_start` drops white space from the front, and all of it.
proof fn lemma_trim_start(s: Seq<char>)
    ensures
        trim_start(s).len() <= s.len(),
        trim_start(s) == s.subrange(s.len() - trim_start(s).len(), s.len() as int),
        forall|i: int| 0 <= i < s.len() - trim_start(s).len() ==> is_whitespace(#[trigger] s[i]),
        trim_start(s).len() > 0 ==> !is_whitespace(trim_start(s).first()),
    decreases s.len(),
{
    if s.len() > 0 && is_whitespace(s.first()) {
        let rest = s.drop_first();
        lemma_trim_start(rest);
        let cut = rest.len() - trim_start(rest).len();
        assert(rest.subrange(cut, rest.len() as int) =~= s.subrange(cut + 1, s.len() as int));
        assert forall|i: int| 0 <= i < s.len() - trim_start(s).len() implies is_whitespace(
            #[trigger] s[i],
        ) by {
            if i > 0 {
                assert(rest[i - 1] == s[i]);
            }
        }
    } else {
        assert(s.subrange(0, s.len() as int) =~= s);
    }
}

/// `trim_end` drops white space from the end, and all of it.
proof fn lemma_trim_end(s: Seq<char>)
    ensures
        trim_end(s).len() <= s.len(),
        trim_end(s) == s.subrange(0, trim_end(s).len() as int),
        forall|i: int| trim_end(s).len() <= i < s.len() ==> is_whitespace(#[trigger] s[i]),
        trim_end(s).len() > 0 ==> !is_whitespace(trim_end(s).last()),
    decreases s.len(),
{
    if s.len() > 0 && is_whitespace(s.last()) {
        let rest = s.drop_last();
        lemma_trim_end(rest);
        assert(rest.subrange(0, trim_end(rest).len() as int) =~= s.subrange(
            0,
            trim_end(rest).len() as int,
        ));
        assert forall|i: int| trim_end(s).len() <= i < s.len() implies is_whitespace(
            #[trigger] s[i],
        ) by {
            if i < rest.len() {
                assert(rest[i] == s[i]);
            }
        }
    } else {
        assert(s.subrange(0, s.len() as int) =~= s);
    }
}

/// Whether `list` holds `item`.
pub fn contains_text(list: &Vec<String>, item: &String) -> (found: bool)
    ensures
        found == texts(list@).contains(item@),
{
    let mut i: usize = 0;
    while i < list.len()
        invariant
            i <= list.len(),
            forall|k: int| 0 <= k < i ==> texts(list@)[k] != item@,
        decreases list.len() - i,
    {
        if list[i] == *item {
            assert(texts(list@)[i as int] == item@);
            return true;
        }
        i += 1;
    }
    false
}

/// Adds to `tags` those of `more` that it does not hold yet.
pub fn add_tags(tags: &mut Vec<String>, more: &Vec<String>)
    ensures
        texts(final(tags)@) == extended(texts(old(tags)@), texts(more@)),
{
    let ghost seen = texts(tags@);
    let mut i: usize = 0;
    while i < more.len()
        invariant
            i <= more.len(),
            texts(tags@) == extended(seen, texts(more@).take(i as int)),
        decreases more.len() - i,
    {
        let ghost before = texts(tags@);
        assert(texts(more@).take(i + 1).drop_last() =~= texts(more@).take(i as int));
        if !contains_text(tags, &more[i]) {
            tags.push(more[i].clone());
            assert(texts(tags@) =~= before.push(more[i as int]@));
        }
        i += 1;
    }
    assert(texts(more@).take(more.len() as int) =~= texts(more@));
}

/// The characters of `s`.
pub fn chars_of(s: &str) -> (chars: Vec<char>)
    ensures
        chars@ == s@,
{
    let mut chars: Vec<char> = Vec::new();
    for c in it: s.chars()
        invariant
            it.seq() == s@,
            chars@ == it.seq().take(it.index()),
    {
        chars.push(c);
    }
    assert(chars@ =~= s@);
    chars
}

/// The characters `from..to` of `s`, without the white space around them.
fn trimmed_piece(s: &str, chars: &Vec<char>, from: usize, to: usize) -> (piece: String)
    requires
        chars@ == s@,
        from <= to <= chars.len(),
    ensures
        piece@ == trimmed(chars@.subrange(from as int, to as int)),
{
    let mut first: usize = from;
    while first < to && char_is_whitespace(chars[first])
        invariant
            from <= first <= to <= chars.len(),
            trim_start(chars@.subrange(from as int, to as int)) == trim_start(
                chars@.subrange(first as int, to as int),
            ),
        decreases to - first,
    {
        assert(chars@.subrange(first as int, to as int).drop_first() =~= chars@.subrange(
            first + 1,
            to as int,
        ));
        first += 1;
    }
    let mut end: usize = to;
    while first < end && char_is_whitespace(chars[end - 1])
        invariant
            first <= end <= to <= chars.len(),
            trim_end(chars@.subrange(first as int, to as int)) == trim_end(
                chars@.subrange(first as int, end as int),
            ),
        decreases end - first,
    {
        assert(chars@.subrange(first as int, end as int).drop_last() =~= chars@.subrange(
            first as int,
            end - 1,
        ));
        end -= 1;
    }
    String::from_str(s.substring_char(first, end))
}

/// Reads a list of tags that was joined with `TAG_DELIMITER`.
pub fn split_tags(joined: &str) -> (tags: Vec<String>)
    ensures
        texts(tags@) == joined_tags(joined@),
{
    let chars = chars_of(joined);
    let n = chars.len();
    let mut tags: Vec<String> = Vec::new();
    let mut start: usize = 0;
    let mut i: usize = 0;
    while i < n
        invariant
            start <= i <= n,
            n == chars.len(),
            chars@ == joined@,
            split(chars@.take(i as int), TAG_DELIMITER).len() == tags.len() + 1,
            split(chars@.take(i as int), TAG_DELIMITER).last() == chars@.subrange(
                start as int,
                i as int,
            ),
            forall|k: int|
                0 <= k < tags.len() ==> (#[trigger] tags[k])@ == trimmed(
                    split(chars@.take(i as int), TAG_DELIMITER)[k],
                ),
        decreases n - i,
    {
        let ghost before = split(chars@.take(i as int), TAG_DELIMITER);
        assert(chars@.take(i + 1).drop_last() =~= chars@.take(i as int));
        if chars[i] == TAG_DELIMITER {
            let piece = trimmed_piece(joined, &chars, start, i);
            tags.push(piece);
            start = i + 1;
            assert(chars@.subrange(start as int, i + 1) =~= Seq::<char>::empty());
        } else {
            assert(chars@.subrange(start as int, i + 1) =~= chars@.subrange(
                start as int,
                i as int,
            ).push(chars@[i as int]));
        }
        i += 1;
    }
    assert(chars@.take(n as int) =~= chars@);
    let piece = trimmed_piece(joined, &chars, start, n);
    tags.push(piece);
    assert(texts(tags@) =~= joined_tags(joined@));
    tags
}

} // verus!
