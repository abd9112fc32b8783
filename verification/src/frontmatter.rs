//! The front matter that an imported Markdown file may open with.
//!
//! Nothing in here fails: an import must land whatever the file opens with. A
//! block that makes no sense yields no metadata, and keys that are present but
//! not read are named in [`FrontMatter::ignored`].
//!
//! This is not a YAML parser. It reads the four keys that there is a place for,
//! in the shapes in which those keys are written:
//!
//! ```yaml
//! title: My Post
//! tags: [rust, tauri]
//! excerpt: One line about it
//! date: 2026-08-20
//! ```
//!
//! Anything else (nested mappings, multi-line scalars, anchors) is skipped and
//! named: a value that opens one is not text.

use crate::calendar::{
    day_seconds, moment_seconds, parse_day, parse_moment, parse_rfc3339, rfc3339_seconds,
};
use crate::text::{
    chars_of, end_of_line, find_char, first_at, is_white_space, lemma_line_end_skip, lemma_trim_end,
    lemma_trim_start, line_end, lines, lines_of, lower, opt_view, same, same_chars, split_on,
    stands_at, to_lower, trim, trim_end_by, trim_start_by, trimmed, views, white_space,
};
use vstd::prelude::*;
use vstd::slice::slice_subrange;

verus! {

/// The metadata that an imported file proposes for itself.
#[derive(Debug, PartialEq, Eq)]
pub struct FrontMatter {
    pub title: Option<String>,
    pub tags: Vec<String>,
    pub excerpt: Option<String>,
    /// Unix seconds.
    pub date: Option<i64>,
    /// Keys that the block sets and that nothing here reads, in order. A
    /// `published: true` is one of them: no file may put itself in front of
    /// readers.
    pub ignored: Vec<String>,
}

/// What a block proposes.
pub struct Proposal {
    pub title: Option<Seq<char>>,
    pub tags: Seq<Seq<char>>,
    pub excerpt: Option<Seq<char>>,
    pub date: Option<i64>,
    pub ignored: Seq<Seq<char>>,
}

impl View for FrontMatter {
    type V = Proposal;

    open spec fn view(&self) -> Proposal {
        Proposal {
            title: opt_view(self.title),
            tags: views(self.tags@),
            excerpt: opt_view(self.excerpt),
            date: self.date,
            ignored: views(self.ignored@),
        }
    }
}

/// A block that proposes nothing.
pub open spec fn no_proposal() -> Proposal {
    Proposal {
        title: None,
        tags: Seq::empty(),
        excerpt: None,
        date: None,
        ignored: Seq::empty(),
    }
}

impl Default for FrontMatter {
    fn default() -> (r: Self)
        ensures
            r@ == no_proposal(),
    {
        let r = FrontMatter {
            title: None,
            tags: Vec::new(),
            excerpt: None,
            date: None,
            ignored: Vec::new(),
        };
        assert(r@.tags =~= Seq::<Seq<char>>::empty());
        assert(r@.ignored =~= Seq::<Seq<char>>::empty());
        r
    }
}

// ─── Where the block is ─────────────────────────────────────────────────────

pub open spec fn is_break(c: char) -> bool {
    c == '\r' || c == '\n'
}

/// What follows an opening delimiter that is alone on the first line.
pub open spec fn after_opening(s: Seq<char>) -> Option<Seq<char>> {
    if "---\n"@.is_prefix_of(s) {
        Some(s.skip(4))
    } else if "---\r\n"@.is_prefix_of(s) {
        Some(s.skip(5))
    } else {
        None
    }
}

/// A line that closes a block.
pub open spec fn is_closing(line: Seq<char>) -> bool {
    let t = trim_end_by(line, |c: char| is_break(c));
    t == "---"@ || t == "..."@
}

/// Where the first line from `from` on that closes a block starts.
pub open spec fn closing_line(s: Seq<char>, from: int) -> Option<int>
    decreases s.len() - from,
{
    if from < 0 || from >= s.len() {
        None
    } else if is_closing(s.subrange(from, line_end(s, from))) {
        Some(from)
    } else if from < line_end(s, from) <= s.len() {
        closing_line(s, line_end(s, from))
    } else {
        None
    }
}

/// A document as the block that it opens with and the body that follows.
pub open spec fn block_and_body(content: Seq<char>) -> Option<(Seq<char>, Seq<char>)> {
    match after_opening(content) {
        Some(rest) => match closing_line(rest, 0) {
            Some(k) => Some(
                (
                    rest.take(k),
                    trim_start_by(rest.skip(line_end(rest, k)), |c: char| is_break(c)),
                ),
            ),
            None => None,
        },
        None => None,
    }
}

/// Where the block and the body of a document stand: the block's bounds, and
/// where the body starts.
#[verifier::rlimit(40)]
#[verifier::spinoff_prover]
fn find_block(x: &Vec<char>) -> (r: Option<(usize, usize, usize)>)
    ensures
        match r {
            Some(b) => {
                &&& b.0 <= b.1 <= b.2 <= x@.len()
                &&& block_and_body(x@) == Some(
                    (x@.subrange(b.0 as int, b.1 as int), x@.skip(b.2 as int)),
                )
            },
            None => block_and_body(x@) is None,
        },
{
    proof {
        reveal_strlit("---\n");
        reveal_strlit("---\r\n");
        reveal_strlit("---");
        reveal_strlit("...");
    }
    let open_lf: Vec<char> = chars_of("---\n");
    let open_crlf: Vec<char> = chars_of("---\r\n");
    let dashes: Vec<char> = chars_of("---");
    let dots: Vec<char> = chars_of("...");
    let n: usize = x.len();
    let start: usize = if stands_at(x.as_slice(), open_lf.as_slice(), 0) {
        4
    } else if stands_at(x.as_slice(), open_crlf.as_slice(), 0) {
        5
    } else {
        return None;
    };
    let ghost rest = x@.skip(start as int);
    assert(after_opening(x@) == Some(rest));
    let mut at: usize = start;
    while at < n
        invariant
            n == x@.len(),
            start <= at <= n,
            rest == x@.skip(start as int),
            after_opening(x@) == Some(rest),
            dashes@ == "---"@,
            dots@ == "..."@,
            closing_line(rest, 0) == closing_line(rest, at - start),
        decreases n - at,
    {
        let end: usize = end_of_line(x.as_slice(), at);
        proof {
            lemma_line_end_skip(x@, at as int);
            lemma_line_end_skip(rest, at - start);
            assert(rest.skip(at - start) =~= x@.skip(at as int));
            assert(rest.subrange(at - start, end - start) =~= x@.subrange(at as int, end as int));
        }
        let mut stop: usize = end;
        while at < stop && (x[stop - 1] == '\r' || x[stop - 1] == '\n')
            invariant
                at <= stop <= end <= x@.len(),
                forall|j: int| stop <= j < end ==> is_break(#[trigger] x@[j]),
            decreases stop,
        {
            stop = stop - 1;
        }
        proof {
            let line = x@.subrange(at as int, end as int);
            assert forall|j: int| stop - at <= j < line.len() implies is_break(line[j]) by {
                assert(line[j] == x@[at + j]);
            }
            if stop > at {
                assert(line[stop - at - 1] == x@[stop - 1]);
            }
            lemma_trim_end(line, |c: char| is_break(c), stop - at);
            assert(line.take(stop - at) =~= x@.subrange(at as int, stop as int));
        }
        let line: &[char] = slice_subrange(x.as_slice(), at, stop);
        if same_chars(line, dashes.as_slice()) || same_chars(line, dots.as_slice()) {
            let mut body: usize = end;
            while body < n && (x[body] == '\r' || x[body] == '\n')
                invariant
                    n == x@.len(),
                    end <= body <= n,
                    forall|j: int| end <= j < body ==> is_break(#[trigger] x@[j]),
                decreases n - body,
            {
                body = body + 1;
            }
            proof {
                let tail = rest.skip(end - start);
                assert(tail =~= x@.skip(end as int));
                assert forall|j: int| 0 <= j < body - end implies is_break(tail[j]) by {
                    assert(tail[j] == x@[end + j]);
                }
                if body < n {
                    assert(tail[body - end] == x@[body as int]);
                }
                lemma_trim_start(tail, |c: char| is_break(c), body - end);
                assert(tail.skip(body - end) =~= x@.skip(body as int));
                assert(rest.take(at - start) =~= x@.subrange(start as int, at as int));
            }
            return Some((start, at, body));
        }
        at = end;
    }
    None
}

/// A document without the block that it opens with, if it does; any other
/// document as it is.
pub open spec fn stripped(content: Seq<char>) -> Seq<char> {
    match block_and_body(content) {
        Some(b) => b.1,
        None => content,
    }
}

/// Removes a leading front-matter block.
///
/// The block must open on the very first line and close on a line of its own.
/// Without a closing delimiter the document comes back untouched, so that a
/// file that merely starts with a rule is not truncated.
pub fn strip_frontmatter(content: &str) -> (out: &str)
    ensures
        out@ == stripped(content@),
{
    let x: Vec<char> = chars_of(content);
    match find_block(&x) {
        Some(b) => {
            assert(x@.subrange(b.2 as int, x@.len() as int) =~= x@.skip(b.2 as int));
            content.substring_char(b.2, x.len())
        },
        None => content,
    }
}

/// Splits a document into the front matter that it opens with and the body that
/// follows. There is a body for every document, front matter or not.
pub fn split(content: &str) -> (r: (Option<FrontMatter>, &str))
    ensures
        r.1@ == stripped(content@),
        match block_and_body(content@) {
            Some(b) => r.0 matches Some(f) && f@ == proposed(lines_of(b.0), no_proposal()),
            None => r.0 is None,
        },
{
    let x: Vec<char> = chars_of(content);
    match find_block(&x) {
        Some(b) => {
            assert(x@.subrange(b.2 as int, x@.len() as int) =~= x@.skip(b.2 as int));
            let block: &str = content.substring_char(b.0, b.1);
            (Some(parse(block)), content.substring_char(b.2, x.len()))
        },
        None => (None, content),
    }
}

// ─── What the block says ────────────────────────────────────────────────────

/// Without one layer of matching quotes.
pub open spec fn unquoted(v: Seq<char>) -> Seq<char> {
    if v.len() >= 2 && (v[0] == '"' || v[0] == '\'') && v.last() == v[0] {
        v.subrange(1, v.len() - 1)
    } else {
        v
    }
}

/// Strips one layer of matching quotes. Escapes inside are left as written:
/// this reads metadata, it does not interpret it.
pub fn unquote(value: &str) -> (out: &str)
    ensures
        out@ == unquoted(value@),
{
    let x: Vec<char> = chars_of(value);
    let n: usize = x.len();
    if n >= 2 && (x[0] == '"' || x[0] == '\'') && x[n - 1] == x[0] {
        value.substring_char(1, n - 1)
    } else {
        value
    }
}

/// The texts, each trimmed and without a layer of quotes, without the empty
/// ones.
pub open spec fn listed_items(parts: Seq<Seq<char>>) -> Seq<Seq<char>>
    decreases parts.len(),
{
    if parts.len() == 0 {
        Seq::empty()
    } else {
        let item = unquoted(trimmed(parts.last()));
        let before = listed_items(parts.drop_last());
        if item.len() == 0 {
            before
        } else {
            before.push(item)
        }
    }
}

/// What is between square brackets, or all of it.
pub open spec fn unbracketed(v: Seq<char>) -> Seq<char> {
    if v.len() >= 2 && v[0] == '[' && v.last() == ']' {
        v.subrange(1, v.len() - 1)
    } else {
        v
    }
}

/// `[a, b]`, or a bare `a, b`.
pub fn parse_inline_tags(value: &str) -> (out: Vec<String>)
    ensures
        views(out@) == listed_items(split_on(unbracketed(value@), ',')),
{
    let x: Vec<char> = chars_of(value);
    let n: usize = x.len();
    let inner: &str = if n >= 2 && x[0] == '[' && x[n - 1] == ']' {
        value.substring_char(1, n - 1)
    } else {
        value
    };
    let parts: Vec<String> = crate::text::split(inner, ',');
    let ghost all = views(parts@);
    let mut out: Vec<String> = Vec::new();
    let mut i: usize = 0;
    assert(all.take(0) =~= Seq::<Seq<char>>::empty());
    assert(views(out@) =~= Seq::<Seq<char>>::empty());
    while i < parts.len()
        invariant
            i <= parts@.len(),
            all == views(parts@),
            views(out@) == listed_items(all.take(i as int)),
        decreases parts@.len() - i,
    {
        let ghost before = views(out@);
        proof {
            assert(all.take(i + 1).drop_last() =~= all.take(i as int));
            assert(all.take(i + 1).last() == parts@[i as int]@);
        }
        let item: &str = unquote(trim(parts[i].as_str()));
        if !item.is_empty() {
            out.push(item.to_owned());
            assert(views(out@) =~= before.push(item@));
        }
        i = i + 1;
    }
    assert(all.take(i as int) =~= all);
    out
}

/// A line of a block list.
pub open spec fn is_item_line(line: Seq<char>) -> bool {
    trimmed(line).len() > 0 && trimmed(line)[0] == '-'
}

/// How many lines of a block list `lines` starts with.
pub open spec fn item_lines(lines: Seq<Seq<char>>) -> int
    decreases lines.len(),
{
    if lines.len() > 0 && is_item_line(lines[0]) {
        1 + item_lines(lines.drop_first())
    } else {
        0
    }
}

/// What the lines of a block list name: each without its dash.
pub open spec fn block_items(lines: Seq<Seq<char>>) -> Seq<Seq<char>> {
    listed_items(lines.map_values(|l: Seq<char>| trimmed(l).skip(1)))
}

/// The items of the block list that starts at line `from`, and the line behind
/// it.
fn collect_block_list(lines: &Vec<String>, from: usize) -> (r: (Vec<String>, usize))
    requires
        from <= lines@.len(),
    ensures
        from <= r.1 <= lines@.len(),
        r.1 == from + item_lines(views(lines@).skip(from as int)),
        views(r.0@) == block_items(views(lines@).subrange(from as int, r.1 as int)),
{
    let ghost all = views(lines@);
    let ghost f = |l: Seq<char>| trimmed(l).skip(1);
    let mut out: Vec<String> = Vec::new();
    let mut at: usize = from;
    proof {
        assert(all.subrange(from as int, from as int).map_values(f) =~= Seq::<Seq<char>>::empty());
        assert(views(out@) =~= Seq::<Seq<char>>::empty());
    }
    while at < lines.len()
        invariant
            from <= at <= lines@.len(),
            all == views(lines@),
            f == (|l: Seq<char>| trimmed(l).skip(1)),
            item_lines(all.skip(from as int)) == (at - from) + item_lines(all.skip(at as int)),
            views(out@) == listed_items(all.subrange(from as int, at as int).map_values(f)),
        decreases lines@.len() - at,
    {
        let line: &str = trim(lines[at].as_str());
        let x: Vec<char> = chars_of(line);
        proof {
            assert(all.skip(at as int)[0] == all[at as int]);
            assert(all.skip(at as int).drop_first() =~= all.skip(at + 1));
        }
        if x.len() == 0 || x[0] != '-' {
            return (out, at);
        }
        let ghost before = views(out@);
        let item: &str = unquote(trim(line.substring_char(1, x.len())));
        proof {
            let part = line@.subrange(1, line@.len() as int);
            assert(part =~= line@.skip(1));
            let shown = all.subrange(from as int, at + 1).map_values(f);
            assert(shown.last() == part);
            assert(shown.drop_last() =~= all.subrange(from as int, at as int).map_values(f));
        }
        if !item.is_empty() {
            out.push(item.to_owned());
            assert(views(out@) =~= before.push(item@));
        }
        at = at + 1;
    }
    assert(all.skip(at as int).len() == 0);
    (out, at)
}

/// The instant that a date names: read as RFC 3339, else as a plain day, else
/// as a day and a time with no zone.
pub open spec fn date_of(value: Seq<char>) -> Option<i64> {
    first_reading(
        rfc3339_seconds(value),
        day_seconds(value, "%Y-%m-%d"@),
        moment_seconds(value, "%Y-%m-%d %H:%M:%S"@),
    )
}

pub open spec fn first_reading(a: Option<i64>, b: Option<i64>, c: Option<i64>) -> Option<i64> {
    match a {
        Some(t) => Some(t),
        None => match b {
            Some(t) => Some(t),
            None => c,
        },
    }
}

/// The first of three readings that there is.
pub fn pick_reading(a: Option<i64>, b: Option<i64>, c: Option<i64>) -> (r: Option<i64>)
    ensures
        r == first_reading(a, b, c),
{
    match a {
        Some(t) => Some(t),
        None => match b {
            Some(t) => Some(t),
            None => c,
        },
    }
}

/// A plain date, or a timestamp with a time on it. A bare date is taken at
/// midnight UTC.
pub fn parse_date(value: &str) -> (r: Option<i64>)
    ensures
        r == date_of(value@),
{
    pick_reading(
        parse_rfc3339(value),
        parse_day(value, "%Y-%m-%d"),
        parse_moment(value, "%Y-%m-%d %H:%M:%S"),
    )
}

/// A line that carries no key: blank, a comment, part of a structure whose key
/// was read before, or without a colon.
pub open spec fn has_no_key(line: Seq<char>) -> bool {
    ||| trimmed(line).len() == 0
    ||| trimmed(line)[0] == '#'
    ||| line[0] == ' '
    ||| line[0] == '\t'
    ||| first_at(line, seq![':'], 0) is None
}

/// The key of a line.
pub open spec fn key_of(line: Seq<char>) -> Seq<char> {
    trimmed(line.take(first_at(line, seq![':'], 0)->0))
}

/// The value of a line, as it is written.
pub open spec fn written_value_of(line: Seq<char>) -> Seq<char> {
    trimmed(line.skip(first_at(line, seq![':'], 0)->0 + 1))
}

/// The value of a line.
pub open spec fn value_of(line: Seq<char>) -> Seq<char> {
    unquoted(written_value_of(line))
}

/// A modifier of a block scalar: how deep it is indented, and what becomes of the
/// line breaks at its end.
pub open spec fn is_modifier(c: char) -> bool {
    c == '+' || c == '-' || '0' <= c <= '9'
}

/// The value opens a block scalar: `|` or `>`, with any modifiers, and nothing but a
/// comment behind.
pub open spec fn opens_scalar(v: Seq<char>) -> bool {
    let rest = trim_start_by(v.skip(1), |c: char| is_modifier(c));
    &&& v.len() > 0
    &&& v[0] == '|' || v[0] == '>'
    &&& trimmed(rest).len() == 0 || (is_white_space(rest[0]) && trimmed(rest)[0] == '#')
}

/// The value opens with an anchor: `&name`.
pub open spec fn opens_anchor(v: Seq<char>) -> bool {
    v.len() >= 2 && v[0] == '&' && !is_white_space(v[1])
}

/// The value is an alias: `*name`, and nothing but a comment behind. A star that more
/// text follows is text.
pub open spec fn is_alias(v: Seq<char>) -> bool {
    let rest = trimmed(trim_start_by(v.skip(1), |c: char| !is_white_space(c)));
    &&& v.len() >= 2
    &&& v[0] == '*'
    &&& !is_white_space(v[1])
    &&& rest.len() == 0 || rest[0] == '#'
}

/// The value is a mapping that is written in one line.
pub open spec fn is_mapping(v: Seq<char>) -> bool {
    v.len() >= 2 && v[0] == '{' && v.last() == '}'
}

/// The value, as it is written, opens a structure that is not read.
pub open spec fn opens_structure(v: Seq<char>) -> bool {
    opens_scalar(v) || opens_anchor(v) || is_alias(v) || is_mapping(v)
}

/// Whether a value opens a structure that is not read. Quotes make text of it.
pub fn is_structure(value: &str) -> (r: bool)
    ensures
        r == opens_structure(value@),
{
    let x: Vec<char> = chars_of(value);
    let n: usize = x.len();
    if n == 0 {
        return false;
    }
    if x[0] == '|' || x[0] == '>' {
        let ghost tail = value@.skip(1);
        let mut i: usize = 1;
        while i < n && (x[i] == '+' || x[i] == '-' || ('0' <= x[i] && x[i] <= '9'))
            invariant
                n == x@.len(),
                1 <= i <= n,
                forall|j: int| 1 <= j < i ==> is_modifier(#[trigger] x@[j]),
            decreases n - i,
        {
            i = i + 1;
        }
        proof {
            assert forall|j: int| 0 <= j < i - 1 implies is_modifier(tail[j]) by {
                assert(tail[j] == x@[j + 1]);
            }
            if i < n {
                assert(tail[i - 1] == x@[i as int]);
            }
            lemma_trim_start(tail, |c: char| is_modifier(c), i - 1);
            assert(tail.skip(i - 1) =~= value@.subrange(i as int, n as int));
        }
        let rest: &str = value.substring_char(i, n);
        let shown: Vec<char> = chars_of(trim(rest));
        if shown.len() == 0 {
            return true;
        }
        if i == n {
            assert(rest@ =~= Seq::<char>::empty());
        }
        return i < n && white_space(x[i]) && shown[0] == '#';
    }
    if n >= 2 && x[0] == '*' {
        let ghost tail = value@.skip(1);
        let mut i: usize = 1;
        while i < n && !white_space(x[i])
            invariant
                n == x@.len(),
                1 <= i <= n,
                forall|j: int| 1 <= j < i ==> !is_white_space(#[trigger] x@[j]),
            decreases n - i,
        {
            i = i + 1;
        }
        proof {
            assert forall|j: int| 0 <= j < i - 1 implies !is_white_space(tail[j]) by {
                assert(tail[j] == x@[j + 1]);
            }
            if i < n {
                assert(tail[i - 1] == x@[i as int]);
            }
            lemma_trim_start(tail, |c: char| !is_white_space(c), i - 1);
            assert(tail.skip(i - 1) =~= value@.subrange(i as int, n as int));
        }
        let rest: Vec<char> = chars_of(trim(value.substring_char(i, n)));
        return i > 1 && (rest.len() == 0 || rest[0] == '#');
    }
    n >= 2 && ((x[0] == '&' && !white_space(x[1])) || (x[0] == '{' && x[n - 1] == '}'))
}

/// What is proposed once a date has been read, or passed over.
pub open spec fn with_date(p: Proposal, key: Seq<char>, read: Option<i64>) -> Proposal {
    match read {
        Some(t) => Proposal { date: Some(t), ..p },
        None => Proposal { ignored: p.ignored.push(key), ..p },
    }
}

/// What is proposed once tags have been read, or none were found.
pub open spec fn with_tags(p: Proposal, key: Seq<char>, tags: Seq<Seq<char>>) -> Proposal {
    if tags.len() == 0 {
        Proposal { ignored: p.ignored.push(key), ..p }
    } else {
        Proposal { tags, ..p }
    }
}

/// Whether the value of this line is a block list on the lines that follow.
pub open spec fn opens_list(line: Seq<char>) -> bool {
    lower(key_of(line)) == "tags"@ && value_of(line).len() == 0
}

/// What is proposed once the first of `lines` has been read, after `p`.
pub open spec fn with_line(p: Proposal, lines: Seq<Seq<char>>) -> Proposal {
    let line = lines[0];
    let key = key_of(line);
    let value = value_of(line);
    if has_no_key(line) {
        p
    } else if opens_structure(written_value_of(line)) {
        Proposal { ignored: p.ignored.push(key), ..p }
    } else if lower(key) == "title"@ && value.len() > 0 {
        Proposal { title: Some(value), ..p }
    } else if lower(key) == "excerpt"@ && value.len() > 0 {
        Proposal { excerpt: Some(value), ..p }
    } else if lower(key) == "tags"@ {
        with_tags(
            p,
            key,
            if value.len() == 0 {
                block_items(lines.subrange(1, 1 + item_lines(lines.skip(1))))
            } else {
                listed_items(split_on(unbracketed(value), ','))
            },
        )
    } else if lower(key) == "date"@ {
        with_date(p, key, date_of(value))
    } else {
        Proposal { ignored: p.ignored.push(key), ..p }
    }
}

/// How many of `lines` the first of them takes up.
pub open spec fn lines_taken(lines: Seq<Seq<char>>) -> int {
    if !has_no_key(lines[0]) && opens_list(lines[0]) {
        1 + item_lines(lines.skip(1))
    } else {
        1
    }
}

/// What `lines` propose, after `p`.
pub open spec fn proposed(lines: Seq<Seq<char>>, p: Proposal) -> Proposal
    decreases lines.len(),
{
    if lines.len() == 0 {
        p
    } else if 0 < lines_taken(lines) <= lines.len() {
        proposed(lines.skip(lines_taken(lines)), with_line(p, lines))
    } else {
        p
    }
}

/// Records a key that nothing reads.
fn ignore(fm: &mut FrontMatter, key: &str)
    ensures
        final(fm)@ == (Proposal { ignored: old(fm)@.ignored.push(key@), ..old(fm)@ }),
{
    let ghost before = views(fm.ignored@);
    fm.ignored.push(key.to_owned());
    assert(views(fm.ignored@) =~= before.push(key@));
}

/// Takes a date as it was read; one in a shape that is not read is named.
pub fn take_date(fm: &mut FrontMatter, key: &str, read: Option<i64>)
    ensures
        final(fm)@ == with_date(old(fm)@, key@, read),
{
    match read {
        Some(t) => {
            fm.date = Some(t);
        },
        None => {
            ignore(fm, key);
        },
    }
}

/// Takes tags as they were read; a key that names none is named.
fn take_tags(fm: &mut FrontMatter, key: &str, tags: Vec<String>)
    ensures
        final(fm)@ == with_tags(old(fm)@, key@, views(tags@)),
{
    if tags.len() == 0 {
        ignore(fm, key);
    } else {
        fm.tags = tags;
    }
}

/// Reads the line at `at`, and says which line is next.
fn parse_line(fm: &mut FrontMatter, lines: &Vec<String>, at: usize) -> (next: usize)
    requires
        at < lines@.len(),
    ensures
        at < next <= lines@.len(),
        next == at + lines_taken(views(lines@).skip(at as int)),
        final(fm)@ == with_line(old(fm)@, views(lines@).skip(at as int)),
{
    let ghost all = views(lines@);
    let ghost here = all.skip(at as int);
    let count: usize = lines.len();
    assert(at < count);
    let line: &str = lines[at].as_str();
    proof {
        assert(here[0] == line@);
    }
    let x: Vec<char> = chars_of(line);
    let shown: &str = trim(line);
    let t: Vec<char> = chars_of(shown);
    if t.len() == 0 || t[0] == '#' {
        return at + 1;
    }
    if x.len() == 0 {
        assert(line@ =~= Seq::<char>::empty());
        return at + 1;
    }
    if x[0] == ' ' || x[0] == '\t' {
        return at + 1;
    }
    let colon: usize = match find_char(x.as_slice(), ':', 0) {
        Some(i) => i,
        None => {
            return at + 1;
        },
    };
    proof {
        assert(line@.subrange(0, colon as int) =~= line@.take(colon as int));
        assert(line@.subrange(colon + 1, line@.len() as int) =~= line@.skip(colon + 1));
    }
    let key: &str = trim(line.substring_char(0, colon));
    let written: &str = trim(line.substring_char(colon + 1, x.len()));
    let value: &str = unquote(written);
    let small: String = to_lower(key);
    proof {
        reveal_strlit("title");
        reveal_strlit("excerpt");
        reveal_strlit("tags");
        reveal_strlit("date");
        assert("title"@[0] == 't' && "title"@.len() == 5);
        assert("excerpt"@.len() == 7);
        assert("tags"@[0] == 't' && "tags"@.len() == 4);
        assert("date"@[0] == 'd' && "date"@.len() == 4);
    }
    if is_structure(written) {
        ignore(fm, key);
        assert(!opens_list(line@)) by {
            assert(written@.len() > 0);
        }
        return at + 1;
    }
    if same(small.as_str(), "title") && !value.is_empty() {
        fm.title = Some(value.to_owned());
    } else if same(small.as_str(), "excerpt") && !value.is_empty() {
        fm.excerpt = Some(value.to_owned());
    } else if same(small.as_str(), "tags") {
        if value.is_empty() {
            let (tags, next) = collect_block_list(lines, at + 1);
            proof {
                assert(here.skip(1) =~= all.skip(at + 1));
                assert(here.subrange(1, 1 + item_lines(here.skip(1))) =~= all.subrange(
                    at + 1,
                    next as int,
                ));
            }
            take_tags(fm, key, tags);
            return next;
        } else {
            take_tags(fm, key, parse_inline_tags(value));
        }
    } else if same(small.as_str(), "date") {
        take_date(fm, key, parse_date(value));
    } else {
        ignore(fm, key);
    }
    at + 1
}

/// Reads the keys that there is a place for, and names the ones that there is
/// not.
pub fn parse(block: &str) -> (fm: FrontMatter)
    ensures
        fm@ == proposed(lines_of(block@), no_proposal()),
{
    let all: Vec<String> = lines(block);
    let mut fm: FrontMatter = FrontMatter::default();
    let mut at: usize = 0;
    assert(views(all@).skip(0) =~= views(all@));
    while at < all.len()
        invariant
            at <= all@.len(),
            proposed(views(all@).skip(at as int), fm@) == proposed(
                views(all@),
                no_proposal(),
            ),
        decreases all@.len() - at,
    {
        let ghost here = views(all@).skip(at as int);
        let next: usize = parse_line(&mut fm, &all, at);
        assert(here.skip(next - at) =~= views(all@).skip(next as int));
        at = next;
    }
    assert(views(all@).skip(at as int) =~= Seq::<Seq<char>>::empty());
    fm
}

// ─── Laws ───────────────────────────────────────────────────────────────────

/// A value that opens a mapping, a multi-line scalar, an anchor or an alias is not
/// taken for text, whatever its key: the key is named and nothing else changes.
pub proof fn structures_are_only_named(p: Proposal, lines: Seq<Seq<char>>)
    requires
        lines.len() > 0,
        !has_no_key(lines[0]),
        opens_structure(written_value_of(lines[0])),
    ensures
        with_line(p, lines) == (Proposal { ignored: p.ignored.push(key_of(lines[0])), ..p }),
{
}

/// A document that does not open a block, or never closes it, is left alone.
pub proof fn documents_without_a_block_are_left_alone(content: Seq<char>)
    requires
        match after_opening(content) {
            Some(rest) => closing_line(rest, 0) is None,
            None => true,
        },
    ensures
        block_and_body(content) is None,
        stripped(content) == content,
{
}

/// A key that is none of the four is named and changes nothing else: no file
/// can publish itself.
pub proof fn other_keys_are_only_named(p: Proposal, lines: Seq<Seq<char>>)
    requires
        lines.len() > 0,
        !has_no_key(lines[0]),
        !(seq!["title"@, "excerpt"@, "tags"@, "date"@].contains(lower(key_of(lines[0])))),
    ensures
        with_line(p, lines) == (Proposal { ignored: p.ignored.push(key_of(lines[0])), ..p }),
{
    let four = seq!["title"@, "excerpt"@, "tags"@, "date"@];
    assert(four[0] == "title"@ && four[1] == "excerpt"@ && four[2] == "tags"@ && four[3]
        == "date"@);
}

proof fn lemma_key_and_value(key: Seq<char>, value: Seq<char>)
    requires
        key.len() > 0,
        !key.contains(':'),
    ensures
        ({
            let line = key + ":"@ + value;
            &&& first_at(line, seq![':'], 0) == Some(key.len() as int)
            &&& line.take(key.len() as int) == key
            &&& line.skip(key.len() as int + 1) == value
            &&& line[0] == key[0]
        }),
{
    reveal_strlit(":");
    let line = key + ":"@ + value;
    let n = key.len() as int;
    let pat = seq![':'];
    assert(line.subrange(n, n + 1) =~= pat);
    assert(crate::text::occurs_at(line, pat, n));
    crate::text::lemma_first_at(line, pat, 0);
    let i = first_at(line, pat, 0)->0;
    if i < n {
        assert(line.subrange(i, i + 1)[0] == line[i]);
        assert(line[i] == key[i]);
        assert(key.contains(key[i]));
    }
    assert(line.take(n) =~= key);
    assert(line.skip(n + 1) =~= value);
}

/// A line of a key and a value is read as that key, without the space round it, and
/// that value, without the space round it and one layer of quotes.
pub proof fn a_line_is_a_key_and_a_value(key: Seq<char>, value: Seq<char>)
    requires
        key.len() > 0,
        !key.contains(':'),
        key[0] != ' ' && key[0] != '\t',
    ensures
        ({
            let line = key + ":"@ + value;
            &&& key_of(line) == trimmed(key)
            &&& written_value_of(line) == trimmed(value)
            &&& value_of(line) == unquoted(trimmed(value))
            &&& !has_no_key(line) <==> trimmed(line).len() > 0 && trimmed(line)[0] != '#'
        }),
{
    lemma_key_and_value(key, value);
}

/// A title, an excerpt or a date that is plain text is taken as it is written, whatever
/// was proposed before, and changes nothing else.
pub proof fn what_is_written_is_proposed(p: Proposal, lines: Seq<Seq<char>>)
    requires
        lines.len() > 0,
        !has_no_key(lines[0]),
        !opens_structure(written_value_of(lines[0])),
    ensures
        ({
            let key = lower(key_of(lines[0]));
            let value = value_of(lines[0]);
            let after = with_line(p, lines);
            &&& key == "title"@ && value.len() > 0 ==> after == (Proposal {
                title: Some(value),
                ..p
            })
            &&& key == "excerpt"@ && value.len() > 0 ==> after == (Proposal {
                excerpt: Some(value),
                ..p
            })
            &&& key == "date"@ && date_of(value) is Some ==> after == (Proposal {
                date: date_of(value),
                ..p
            })
            &&& key == "date"@ && date_of(value) is None ==> after == (Proposal {
                ignored: p.ignored.push(key_of(lines[0])),
                ..p
            })
            &&& key == "tags"@ && value.len() > 0 && listed_items(
                split_on(unbracketed(value), ','),
            ).len() > 0 ==> after == (Proposal {
                tags: listed_items(split_on(unbracketed(value), ',')),
                ..p
            })
            &&& (key == "title"@ || key == "excerpt"@) && value.len() == 0 ==> after == (
            Proposal { ignored: p.ignored.push(key_of(lines[0])), ..p })
        }),
{
    reveal_strlit("title");
    reveal_strlit("excerpt");
    reveal_strlit("tags");
    reveal_strlit("date");
    assert("title"@.len() == 5 && "excerpt"@.len() == 7 && "tags"@.len() == 4 && "date"@.len()
        == 4);
    assert("tags"@[0] == 't' && "date"@[0] == 'd');
}

/// The items of a list are its entries, each without the space round it and one layer
/// of quotes, without those that are empty, in their order.
pub proof fn every_item_is_listed(parts: Seq<Seq<char>>)
    ensures
        listed_items(parts) == parts.map_values(|t: Seq<char>| unquoted(trimmed(t))).filter(
            |t: Seq<char>| t.len() > 0,
        ),
    decreases parts.len(),
{
    reveal(Seq::filter);
    let bare = |t: Seq<char>| unquoted(trimmed(t));
    let there = |t: Seq<char>| t.len() > 0;
    let all = parts.map_values(bare);
    if parts.len() > 0 {
        every_item_is_listed(parts.drop_last());
        assert(all.drop_last() =~= parts.drop_last().map_values(bare));
        assert(all.last() == bare(parts.last()));
    } else {
        assert(all =~= Seq::<Seq<char>>::empty());
    }
}

/// One layer of matching quotes is taken off, and brackets round a list; anything else
/// stays as it is written.
pub proof fn one_layer_of_quotes_goes(s: Seq<char>)
    ensures
        unquoted(seq!['"'] + s + seq!['"']) == s,
        unquoted(seq!['\''] + s + seq!['\'']) == s,
        s.len() > 0 && s[0] != '"' && s[0] != '\'' ==> unquoted(s) == s,
        unbracketed(seq!['['] + s + seq![']']) == s,
        s.len() > 0 && s[0] != '[' ==> unbracketed(s) == s,
{
    let a = seq!['"'] + s + seq!['"'];
    let b = seq!['\''] + s + seq!['\''];
    let c = seq!['['] + s + seq![']'];
    assert(a.subrange(1, a.len() - 1) =~= s);
    assert(b.subrange(1, b.len() - 1) =~= s);
    assert(c.subrange(1, c.len() - 1) =~= s);
}

/// The lines of a block are read one after another: a line that carries no list takes
/// up itself alone, and those behind it are read after it.
pub proof fn lines_are_read_in_turn(p: Proposal, line: Seq<char>, rest: Seq<Seq<char>>)
    requires
        has_no_key(line) || lower(key_of(line)) != "tags"@ || value_of(line).len() > 0,
    ensures
        proposed(seq![line] + rest, p) == proposed(rest, with_line(p, seq![line] + rest)),
        has_no_key(line) ==> with_line(p, seq![line] + rest) == p,
        proposed(Seq::<Seq<char>>::empty(), p) == p,
{
    let all = seq![line] + rest;
    assert(all[0] == line);
    assert(all.skip(1) =~= rest);
}

/// A list of tags on lines of its own is taken whole: every line that starts with a
/// dash, up to the first that does not, which is read as any other.
pub proof fn a_block_list_is_taken_whole(
    p: Proposal,
    line: Seq<char>,
    items: Seq<Seq<char>>,
    rest: Seq<Seq<char>>,
)
    requires
        !has_no_key(line),
        !opens_structure(written_value_of(line)),
        lower(key_of(line)) == "tags"@,
        value_of(line).len() == 0,
        forall|i: int|
            0 <= i < items.len() ==> trimmed(#[trigger] items[i]).len() > 0 && trimmed(items[i])[0]
                == '-',
        rest.len() > 0 ==> trimmed(rest[0]).len() == 0 || trimmed(rest[0])[0] != '-',
    ensures
        ({
            let tags = listed_items(
                Seq::new(items.len(), |i: int| trimmed(items[i]).skip(1)),
            );
            let all = seq![line] + items + rest;
            proposed(all, p) == proposed(
                rest,
                if tags.len() > 0 {
                    Proposal { tags, ..p }
                } else {
                    Proposal { ignored: p.ignored.push(key_of(line)), ..p }
                },
            )
        }),
{
    reveal_strlit("title");
    reveal_strlit("excerpt");
    reveal_strlit("tags");
    assert("title"@.len() == 5 && "excerpt"@.len() == 7 && "tags"@.len() == 4);
    let all = seq![line] + items + rest;
    assert(all[0] == line);
    assert(all.skip(1) =~= items + rest);
    lemma_item_lines(items, rest);
    let n = items.len() as int;
    assert(all.subrange(1, 1 + n) =~= items);
    assert(items.map_values(|l: Seq<char>| trimmed(l).skip(1)) =~= Seq::new(
        items.len(),
        |i: int| trimmed(items[i]).skip(1),
    ));
    assert(all.skip(1 + n) =~= rest);
}

proof fn lemma_item_lines(items: Seq<Seq<char>>, rest: Seq<Seq<char>>)
    requires
        forall|i: int|
            0 <= i < items.len() ==> trimmed(#[trigger] items[i]).len() > 0 && trimmed(items[i])[0]
                == '-',
        rest.len() > 0 ==> trimmed(rest[0]).len() == 0 || trimmed(rest[0])[0] != '-',
    ensures
        item_lines(items + rest) == items.len(),
    decreases items.len(),
{
    let all = items + rest;
    if items.len() > 0 {
        let fewer = items.drop_first();
        assert forall|i: int| 0 <= i < fewer.len() implies trimmed(#[trigger] fewer[i]).len() > 0
            && trimmed(fewer[i])[0] == '-' by {
            assert(fewer[i] == items[i + 1]);
        }
        lemma_item_lines(fewer, rest);
        assert(all.drop_first() =~= fewer + rest);
        assert(all[0] == items[0]);
    } else {
        assert(all =~= rest);
    }
}

/// Which lines carry no key: blank ones, comments, those that are set in, and those
/// without a colon.
pub proof fn which_lines_carry_no_key(line: Seq<char>)
    ensures
        line.len() > 0 && (line[0] == ' ' || line[0] == '\t') ==> has_no_key(line),
        trimmed(line).len() == 0 ==> has_no_key(line),
        trimmed(line).len() > 0 && trimmed(line)[0] == '#' ==> has_no_key(line),
        first_at(line, seq![':'], 0) is None ==> has_no_key(line),
        trimmed(line).len() > 0 && trimmed(line)[0] != '#' && line[0] != ' ' && line[0] != '\t'
            && first_at(line, seq![':'], 0) is Some ==> !has_no_key(line),
{
}

/// A date is read as an instant where it is one, else as a day, else as a day with a
/// time; text that opens no structure is one that starts with none of their marks.
pub proof fn how_dates_and_text_are_read(value: Seq<char>)
    ensures
        rfc3339_seconds(value) is Some ==> date_of(value) == rfc3339_seconds(value),
        rfc3339_seconds(value) is None && day_seconds(value, "%Y-%m-%d"@) is Some ==> date_of(
            value,
        ) == day_seconds(value, "%Y-%m-%d"@),
        rfc3339_seconds(value) is None && day_seconds(value, "%Y-%m-%d"@) is None ==> date_of(
            value,
        ) == moment_seconds(value, "%Y-%m-%d %H:%M:%S"@),
        value.len() > 0 && value[0] != '|' && value[0] != '>' && value[0] != '&' && value[0]
            != '*' && value[0] != '{' ==> !opens_structure(value),
{
}

}
