//! Lists of strings as JSON: the shape of the `tags` column.

use crate::text::{opt_view, split, split_on, trim, trimmed, views};
use vstd::prelude::*;

verus! {

/// The strings of a JSON text that is an array of strings; nothing for any
/// other text.
pub uninterp spec fn json_strings(text: Seq<char>) -> Option<Seq<Seq<char>>>;

/// The characters of each string of an optional list.
pub open spec fn opt_views(list: Option<Vec<String>>) -> Option<Seq<Seq<char>>> {
    match list {
        Some(l) => Some(views(l@)),
        None => None,
    }
}

/// `serde_json::from_str` for a list of strings: its strings, or nothing where
/// the text is not a JSON array of strings. Which texts those are is left to the
/// name [`json_strings`].
#[verifier::external_body]
fn parse_strings(text: &str) -> (r: Option<Vec<String>>)
    ensures
        opt_views(r) == json_strings(text@),
{
    serde_json::from_str::<Vec<String>>(text).ok()
}

/// The JSON text of a list of strings; nothing where it cannot be written.
pub uninterp spec fn json_text_of(list: Seq<Seq<char>>) -> Option<Seq<char>>;

/// `serde_json::to_string` for a list of strings: its JSON text. Writing strings
/// into memory does not fail, and what was written reads back as the strings
/// that it was written from. What else the text says is left to the name
/// [`json_text_of`].
#[verifier::external_body]
fn write_strings(list: &Vec<String>) -> (r: Option<String>)
    ensures
        opt_view(r) == json_text_of(views(list@)),
        r is Some,
        json_strings(r->0@) == Some(views(list@)),
{
    serde_json::to_string(list).ok()
}

// ─── The tags column ────────────────────────────────────────────────────────

/// The strings that a read came back with, or none.
pub open spec fn or_none(list: Option<Seq<Seq<char>>>) -> Seq<Seq<char>> {
    match list {
        Some(l) => l,
        None => Seq::empty(),
    }
}

/// The tags that a column holds: none for a missing column, and none for one
/// that is not a JSON array of strings.
pub open spec fn tags_in(column: Option<Seq<char>>) -> Seq<Seq<char>> {
    match column {
        Some(text) => or_none(json_strings(text)),
        None => Seq::empty(),
    }
}

/// The list, or an empty one.
pub fn or_no_strings(list: Option<Vec<String>>) -> (out: Vec<String>)
    ensures
        views(out@) == or_none(opt_views(list)),
{
    match list {
        Some(l) => l,
        None => {
            let out: Vec<String> = Vec::new();
            assert(views(out@) =~= Seq::<Seq<char>>::empty());
            out
        },
    }
}

/// The tags that a column holds. One that cannot be read holds none: a listing
/// is not where that should surface.
pub fn tags_from_json(stored: &Option<String>) -> (out: Vec<String>)
    ensures
        views(out@) == tags_in(opt_view(*stored)),
{
    match stored {
        Some(text) => or_no_strings(parse_strings(text.as_str())),
        None => or_no_strings(None),
    }
}

/// The text, or that of an empty array.
pub fn or_empty_array(text: Option<String>) -> (out: String)
    ensures
        out@ == match opt_view(text) {
            Some(t) => t,
            None => "[]"@,
        },
{
    match text {
        Some(t) => t,
        None => "[]".to_owned(),
    }
}

/// The column that holds these tags.
pub open spec fn tags_column(list: Seq<Seq<char>>) -> Seq<char> {
    match json_text_of(list) {
        Some(t) => t,
        None => "[]"@,
    }
}

/// The column that holds these tags; reading it gives them back.
pub fn tags_to_column(list: &Vec<String>) -> (out: String)
    ensures
        out@ == tags_column(views(list@)),
        tags_in(Some(out@)) == views(list@),
{
    or_empty_array(write_strings(list))
}

/// The texts, each trimmed, without those that are blank.
pub open spec fn trimmed_tags(list: Seq<Seq<char>>) -> Seq<Seq<char>>
    decreases list.len(),
{
    if list.len() == 0 {
        Seq::empty()
    } else {
        let before = trimmed_tags(list.drop_last());
        if trimmed(list.last()).len() == 0 {
            before
        } else {
            before.push(trimmed(list.last()))
        }
    }
}

/// The tags, each trimmed, without those that are blank.
pub fn trim_tags(list: &Vec<String>) -> (out: Vec<String>)
    ensures
        views(out@) == trimmed_tags(views(list@)),
{
    let ghost all = views(list@);
    let mut out: Vec<String> = Vec::new();
    let mut i: usize = 0;
    assert(all.take(0) =~= Seq::<Seq<char>>::empty());
    assert(views(out@) =~= Seq::<Seq<char>>::empty());
    while i < list.len()
        invariant
            i <= list@.len(),
            all == views(list@),
            views(out@) == trimmed_tags(all.take(i as int)),
        decreases list@.len() - i,
    {
        let ghost before = views(out@);
        proof {
            assert(all.take(i + 1).drop_last() =~= all.take(i as int));
            assert(all.take(i + 1).last() == list@[i as int]@);
        }
        let t: &str = trim(list[i].as_str());
        if !t.is_empty() {
            out.push(t.to_owned());
            assert(views(out@) =~= before.push(t@));
        }
        i = i + 1;
    }
    assert(all.take(i as int) =~= all);
    out
}

/// The tags that a comma-separated text names.
pub open spec fn csv_tags(csv: Seq<char>) -> Seq<Seq<char>> {
    trimmed_tags(split_on(csv, ','))
}

/// The tags that a comma-separated text names.
pub fn tags_of_csv(csv: &str) -> (out: Vec<String>)
    ensures
        views(out@) == csv_tags(csv@),
{
    trim_tags(&split(csv, ','))
}

/// A comma-separated text of tags as the column that holds them.
pub fn tags_to_json(csv: &str) -> (out: String)
    ensures
        out@ == tags_column(csv_tags(csv@)),
        tags_in(Some(out@)) == csv_tags(csv@),
{
    tags_to_column(&tags_of_csv(csv))
}

/// A list of tags keeps each tag that is not blank, without the space round it, in
/// their order.
pub proof fn every_tag_is_kept(list: Seq<Seq<char>>)
    ensures
        trimmed_tags(list) == list.map_values(|t: Seq<char>| trimmed(t)).filter(
            |t: Seq<char>| t.len() > 0,
        ),
    decreases list.len(),
{
    reveal(Seq::filter);
    let bare = |t: Seq<char>| trimmed(t);
    let there = |t: Seq<char>| t.len() > 0;
    let all = list.map_values(bare);
    if list.len() > 0 {
        every_tag_is_kept(list.drop_last());
        assert(all.drop_last() =~= list.drop_last().map_values(bare));
        assert(all.last() == trimmed(list.last()));
    } else {
        assert(all =~= Seq::<Seq<char>>::empty());
    }
}

/// The tags of a post are what its column holds; a column that is missing or cannot be
/// read holds none. A text with commas names what stands between them.
pub proof fn tags_are_what_is_held(column: Option<Seq<char>>, csv: Seq<char>)
    ensures
        column is None ==> tags_in(column).len() == 0,
        column is Some && json_strings(column->0) is None ==> tags_in(column).len() == 0,
        column is Some && json_strings(column->0) is Some ==> tags_in(column) == json_strings(
            column->0,
        )->0,
        csv_tags(csv) == trimmed_tags(split_on(csv, ',')),
{
}

}
