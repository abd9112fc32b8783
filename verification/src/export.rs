//! Writing a post out as a Markdown file with front matter.
//!
//! ```yaml
//! ---
//! title: "My Post"
//! slug: "my-post"
//! date: 2026-08-20T00:00:00Z
//! published: true
//! published_at: 2026-08-21T09:00:00Z
//! excerpt: "One line about it"
//! tags: ["rust", "tauri"]
//! series: "my-series"
//! series_order: 2
//! ---
//! ```
//!
//! A field that the post does not have is left out, so the block says only what
//! is true.

use crate::calendar::{is_date_char, utc_text, utc_text_of};
use crate::digest::hex_char;
use crate::entities::post;
use crate::entities::post::PostRow;
use crate::entities::series;
use crate::entities::series::SeriesRow;
use crate::frontmatter::{block_and_body, closing_line, is_break, is_closing};
use crate::json::{tags_from_json, tags_in};
use crate::text::{
    chars_of, decimal_of, first_at, int_text, join, joined, lemma_first_at, lemma_line_end_skip,
    lemma_trim_end, line_end, occurs_at, opt_view, signed_decimal, trim_start_by, views,
};
use vstd::prelude::*;
use vstd::string::StringExecFns;

verus! {

// ─── Quoting ────────────────────────────────────────────────────────────────

/// A character that cannot stand in a quoted scalar as it is: a control
/// character, or one that is read as a line break.
pub open spec fn is_raw_control(c: char) -> bool {
    c < '\u{20}' || c == '\u{7f}' || c == '\u{85}' || c == '\u{2028}' || c == '\u{2029}'
}

/// How a character is written in a quoted scalar.
pub open spec fn escape_of(c: char) -> Seq<char> {
    if c == '"' {
        seq!['\\', '"']
    } else if c == '\\' {
        seq!['\\', '\\']
    } else if c == '\n' {
        seq!['\\', 'n']
    } else if c == '\r' {
        seq!['\\', 'r']
    } else if c == '\t' {
        seq!['\\', 't']
    } else if c == '\u{85}' {
        seq!['\\', 'N']
    } else if c == '\u{2028}' {
        seq!['\\', 'L']
    } else if c == '\u{2029}' {
        seq!['\\', 'P']
    } else if c < '\u{20}' || c == '\u{7f}' {
        seq!['\\', 'x', hex_char((c as u8) / 16), hex_char((c as u8) % 16)]
    } else {
        seq![c]
    }
}

/// A text with each character as it is written in a quoted scalar.
pub open spec fn escaped(s: Seq<char>) -> Seq<char>
    decreases s.len(),
{
    if s.len() == 0 {
        Seq::empty()
    } else {
        escaped(s.drop_last()) + escape_of(s.last())
    }
}

/// A quoted scalar.
pub open spec fn quoted(s: Seq<char>) -> Seq<char> {
    seq!['"'] + escaped(s) + seq!['"']
}

fn push_escape(out: &mut String, c: char)
    ensures
        final(out)@ == old(out)@ + escape_of(c),
{
    let ghost before = out@;
    if c == '"' {
        out.push('\\');
        out.push('"');
    } else if c == '\\' {
        out.push('\\');
        out.push('\\');
    } else if c == '\n' {
        out.push('\\');
        out.push('n');
    } else if c == '\r' {
        out.push('\\');
        out.push('r');
    } else if c == '\t' {
        out.push('\\');
        out.push('t');
    } else if c == '\u{85}' {
        out.push('\\');
        out.push('N');
    } else if c == '\u{2028}' {
        out.push('\\');
        out.push('L');
    } else if c == '\u{2029}' {
        out.push('\\');
        out.push('P');
    } else if c < '\u{20}' || c == '\u{7f}' {
        let n: u8 = c as u8;
        let mut byte: Vec<u8> = Vec::new();
        byte.push(n);
        out.push('\\');
        out.push('x');
        let digits: String = crate::digest::hex_text(byte.as_slice());
        assert(digits@ =~= seq![hex_char(n / 16), hex_char(n % 16)]);
        out.append(digits.as_str());
    } else {
        out.push(c);
    }
    assert(out@ =~= before + escape_of(c));
}

/// Always quoted, always escaped.
///
/// Deciding per value whether quotes are needed means knowing every character
/// that YAML treats specially in every position; quoting always is right every
/// time. No control character is passed through.
pub fn quote(value: &str) -> (out: String)
    ensures
        out@ == quoted(value@),
{
    let x: Vec<char> = chars_of(value);
    let mut out: String = String::new();
    out.push('"');
    let mut i: usize = 0;
    assert(out@ =~= seq!['"'] + escaped(x@.take(0)));
    while i < x.len()
        invariant
            i <= x@.len(),
            out@ == seq!['"'] + escaped(x@.take(i as int)),
        decreases x@.len() - i,
    {
        let ghost before = out@;
        proof {
            assert(x@.take(i + 1).drop_last() =~= x@.take(i as int));
            assert(x@.take(i + 1).last() == x@[i as int]);
        }
        push_escape(&mut out, x[i]);
        assert(out@ =~= seq!['"'] + escaped(x@.take(i + 1)));
        i = i + 1;
    }
    assert(x@.take(i as int) =~= x@);
    out.push('"');
    assert(out@ =~= quoted(value@));
    out
}

// ─── The document ───────────────────────────────────────────────────────────

/// One line of the block.
pub open spec fn field(key: Seq<char>, value: Seq<char>) -> Seq<char> {
    key + ": "@ + value
}

/// The lines, each with its line feed.
pub open spec fn lines_text(lines: Seq<Seq<char>>) -> Seq<char>
    decreases lines.len(),
{
    if lines.len() == 0 {
        Seq::empty()
    } else {
        lines[0] + seq!['\n'] + lines_text(lines.drop_first())
    }
}

proof fn lemma_lines_text_push(lines: Seq<Seq<char>>, line: Seq<char>)
    ensures
        lines_text(lines.push(line)) == lines_text(lines) + line + seq!['\n'],
    decreases lines.len(),
{
    if lines.len() == 0 {
        let none = Seq::<Seq<char>>::empty();
        assert(lines.push(line).drop_first() =~= none);
        assert(lines_text(none) == Seq::<char>::empty());
        assert(lines.push(line)[0] == line);
        assert(lines_text(lines.push(line)) =~= line + seq!['\n']);
        assert(lines_text(lines) + line + seq!['\n'] =~= line + seq!['\n']);
    } else {
        lemma_lines_text_push(lines.drop_first(), line);
        assert(lines.push(line).drop_first() =~= lines.drop_first().push(line));
        assert(lines_text(lines.push(line)) =~= lines_text(lines) + line + seq!['\n']);
    }
}

/// The list of tags, as it is written.
pub open spec fn tags_value(tags: Seq<Seq<char>>) -> Seq<char> {
    "["@ + joined(tags.map_values(|t: Seq<char>| quoted(t)), ", "@) + "]"@
}

/// The lines that every post has.
pub open spec fn common_lines(post: PostRow, date: Seq<char>) -> Seq<Seq<char>> {
    seq![
        field("title"@, quoted(post.title)),
        field("slug"@, quoted(post.slug)),
        field("date"@, date),
        field("published"@, if post.published { "true"@ } else { "false"@ }),
    ]
}

pub open spec fn published_lines(published_at: Option<Seq<char>>) -> Seq<Seq<char>> {
    match published_at {
        Some(at) => seq![field("published_at"@, at)],
        None => Seq::empty(),
    }
}

pub open spec fn excerpt_lines(excerpt: Option<Seq<char>>) -> Seq<Seq<char>> {
    match excerpt {
        Some(e) => if e.len() > 0 {
            seq![field("excerpt"@, quoted(e))]
        } else {
            Seq::empty()
        },
        None => Seq::empty(),
    }
}

pub open spec fn tags_lines(tags: Seq<Seq<char>>) -> Seq<Seq<char>> {
    if tags.len() > 0 {
        seq![field("tags"@, tags_value(tags))]
    } else {
        Seq::empty()
    }
}

pub open spec fn series_lines(series: Option<SeriesRow>, order: Option<i32>) -> Seq<Seq<char>> {
    match series {
        Some(s) => seq![field("series"@, quoted(s.slug))] + match order {
            Some(n) => seq![field("series_order"@, int_text(n as int))],
            None => Seq::empty(),
        },
        None => Seq::empty(),
    }
}

/// The lines of the block, in order.
pub open spec fn header_lines(
    post: PostRow,
    series: Option<SeriesRow>,
    tags: Seq<Seq<char>>,
    date: Seq<char>,
    published_at: Option<Seq<char>>,
) -> Seq<Seq<char>> {
    common_lines(post, date) + published_lines(published_at) + excerpt_lines(post.excerpt)
        + tags_lines(tags) + series_lines(series, post.series_order)
}

/// A body that ends in a line feed.
pub open spec fn closed_body(body: Seq<char>) -> Seq<char> {
    if body.len() > 0 && body.last() == '\n' {
        body
    } else {
        body.push('\n')
    }
}

/// The whole file: the block, an empty line, and the body.
pub open spec fn file_text(lines: Seq<Seq<char>>, body: Seq<char>) -> Seq<char> {
    "---\n"@ + lines_text(lines) + "---\n\n"@ + closed_body(body)
}

/// Appends one line of the block.
fn push_line(out: &mut String, key: &str, value: &str, Ghost(lines): Ghost<Seq<Seq<char>>>)
    requires
        old(out)@ == "---\n"@ + lines_text(lines),
    ensures
        final(out)@ == "---\n"@ + lines_text(lines.push(field(key@, value@))),
{
    let ghost before = out@;
    out.append(key);
    out.append(": ");
    out.append(value);
    out.push('\n');
    proof {
        lemma_lines_text_push(lines, field(key@, value@));
        assert(out@ =~= "---\n"@ + lines_text(lines.push(field(key@, value@))));
    }
}

/// Appends one line of the block with a quoted value.
fn push_str(out: &mut String, key: &str, value: &str, Ghost(lines): Ghost<Seq<Seq<char>>>)
    requires
        old(out)@ == "---\n"@ + lines_text(lines),
    ensures
        final(out)@ == "---\n"@ + lines_text(lines.push(field(key@, quoted(value@)))),
{
    push_line(out, key, quote(value).as_str(), Ghost(lines));
}

/// The tags, quoted, in brackets.
fn tags_text(tags: &Vec<String>) -> (out: String)
    ensures
        out@ == tags_value(views(tags@)),
{
    let ghost all = views(tags@);
    let ghost f = |t: Seq<char>| quoted(t);
    let mut list: Vec<String> = Vec::new();
    let mut i: usize = 0;
    assert(views(list@) =~= all.map_values(f).take(0));
    while i < tags.len()
        invariant
            i <= tags@.len(),
            all == views(tags@),
            f == (|t: Seq<char>| quoted(t)),
            views(list@) == all.map_values(f).take(i as int),
        decreases tags@.len() - i,
    {
        let ghost before = views(list@);
        let q: String = quote(tags[i].as_str());
        let ghost v = q@;
        list.push(q);
        assert(views(list@) =~= before.push(v));
        i = i + 1;
        assert(views(list@) =~= all.map_values(f).take(i as int));
    }
    assert(all.map_values(f).take(i as int) =~= all.map_values(f));
    let mut out: String = "[".to_owned();
    out.append(join(&list, ", ").as_str());
    out.append("]");
    out
}

/// The row of an optional series.
pub open spec fn series_ref_row(s: Option<&series::Model>) -> Option<SeriesRow> {
    match s {
        Some(r) => Some(r@),
        None => None,
    }
}

/// The document for a post whose tags have been read and whose times have been
/// written out.
pub fn assemble(
    post: &post::Model,
    series: Option<&series::Model>,
    body: &str,
    tags: &Vec<String>,
    date: &str,
    published_at: &Option<String>,
) -> (out: String)
    ensures
        out@ == file_text(
            header_lines(
                post@,
                series_ref_row(series),
                views(tags@),
                date@,
                opt_view(*published_at),
            ),
            body@,
        ),
{
    let mut out: String = "---\n".to_owned();
    let ghost mut lines: Seq<Seq<char>> = Seq::empty();
    assert(out@ =~= "---\n"@ + lines_text(lines));
    push_str(&mut out, "title", post.title.as_str(), Ghost(lines));
    proof {
        lines = lines.push(field("title"@, quoted(post.title@)));
    }
    push_str(&mut out, "slug", post.slug.as_str(), Ghost(lines));
    proof {
        lines = lines.push(field("slug"@, quoted(post.slug@)));
    }
    push_line(&mut out, "date", date, Ghost(lines));
    proof {
        lines = lines.push(field("date"@, date@));
    }
    let flag: &str = if post.published {
        "true"
    } else {
        "false"
    };
    push_line(&mut out, "published", flag, Ghost(lines));
    proof {
        lines = lines.push(field("published"@, flag@));
        assert(lines =~= common_lines(post@, date@));
    }
    let ghost l1 = lines;
    if let Some(at) = published_at {
        push_line(&mut out, "published_at", at.as_str(), Ghost(lines));
        proof {
            lines = lines.push(field("published_at"@, at@));
        }
    }
    assert(lines =~= l1 + published_lines(opt_view(*published_at)));
    let ghost l2 = lines;
    if let Some(e) = &post.excerpt {
        if !e.as_str().is_empty() {
            push_str(&mut out, "excerpt", e.as_str(), Ghost(lines));
            proof {
                lines = lines.push(field("excerpt"@, quoted(e@)));
            }
        }
    }
    assert(lines =~= l2 + excerpt_lines(post@.excerpt));
    let ghost l3 = lines;
    if tags.len() > 0 {
        push_line(&mut out, "tags", tags_text(tags).as_str(), Ghost(lines));
        proof {
            lines = lines.push(field("tags"@, tags_value(views(tags@))));
        }
    }
    assert(lines =~= l3 + tags_lines(views(tags@)));
    let ghost l4 = lines;
    if let Some(s) = series {
        push_str(&mut out, "series", s.slug.as_str(), Ghost(lines));
        proof {
            lines = lines.push(field("series"@, quoted(s.slug@)));
        }
        if let Some(order) = post.series_order {
            push_line(
                &mut out,
                "series_order",
                signed_decimal(order as i64).as_str(),
                Ghost(lines),
            );
            proof {
                lines = lines.push(field("series_order"@, int_text(order as int)));
            }
        }
    }
    assert(lines =~= l4 + series_lines(series_ref_row(series), post@.series_order));
    out.append("---\n\n");
    out.append(body);
    let b: Vec<char> = chars_of(body);
    if b.len() == 0 || b[b.len() - 1] != '\n' {
        out.push('\n');
    }
    assert(out@ =~= file_text(lines, body@));
    out
}

/// An instant's text, or the epoch's where the instant is out of range.
pub open spec fn timestamp_of(seconds: i64) -> Seq<char> {
    match utc_text_of(seconds) {
        Some(t) => t,
        None => utc_text_of(0)->0,
    }
}

/// The first text, or the second.
pub fn or_else_text(text: Option<String>, other: String) -> (out: String)
    ensures
        out@ == match opt_view(text) {
            Some(t) => t,
            None => other@,
        },
{
    match text {
        Some(t) => t,
        None => other,
    }
}

/// Seconds as RFC 3339 in UTC; a number of seconds that no date has as the
/// epoch.
pub fn timestamp(seconds: i64) -> (out: String)
    ensures
        out@ == timestamp_of(seconds),
        forall|i: int| 0 <= i < out@.len() ==> is_date_char(#[trigger] out@[i]),
{
    match utc_text(0) {
        Some(epoch) => or_else_text(utc_text(seconds), epoch),
        None => String::new(),
    }
}

/// The file that is written for a post.
pub open spec fn document_of(post: PostRow, series: Option<SeriesRow>, body: Seq<char>) -> Seq<
    char,
> {
    file_text(
        header_lines(
            post,
            series,
            tags_in(post.tags),
            timestamp_of(post.created_at),
            match post.published_at {
                Some(at) => Some(timestamp_of(at)),
                None => None,
            },
        ),
        body,
    )
}

/// The file that is written for a post: front matter, then the body as it
/// stands.
///
/// `series` is the series that the post is in, if it is in one. Its slug is
/// written and not its id, because an id means nothing in another database.
pub fn document(post: &post::Model, series: Option<&series::Model>, body: &str) -> (out: String)
    ensures
        out@ == document_of(post@, series_ref_row(series), body@),
{
    let tags: Vec<String> = tags_from_json(&post.tags);
    let date: String = timestamp(post.created_at);
    let published_at: Option<String> = match post.published_at {
        Some(at) => Some(timestamp(at)),
        None => None,
    };
    assemble(post, series, body, &tags, date.as_str(), &published_at)
}

// ─── Laws ───────────────────────────────────────────────────────────────────

proof fn lemma_hex_char_plain(n: u8)
    requires
        n < 16,
    ensures
        !is_raw_control(hex_char(n)),
        hex_char(n) != '\n',
        hex_char(n) != '\r',
{
}

/// No control character and no line break reaches the block raw, whatever the
/// value holds.
pub proof fn quoting_leaves_no_raw_control(s: Seq<char>, i: int)
    requires
        0 <= i < quoted(s).len(),
    ensures
        !is_raw_control(quoted(s)[i]),
{
    if 0 < i < quoted(s).len() - 1 {
        lemma_escaped_plain(s, i - 1);
    }
}

proof fn lemma_escaped_plain(s: Seq<char>, i: int)
    requires
        0 <= i < escaped(s).len(),
    ensures
        !is_raw_control(escaped(s)[i]),
    decreases s.len(),
{
    if s.len() > 0 {
        let n = escaped(s.drop_last()).len();
        if i < n {
            lemma_escaped_plain(s.drop_last(), i);
        } else {
            let c = s.last();
            if c < '\u{20}' || c == '\u{7f}' {
                lemma_hex_char_plain((c as u8) / 16);
                lemma_hex_char_plain((c as u8) % 16);
            }
            assert(escaped(s)[i] == escape_of(c)[i - n]);
        }
    }
}

/// A text with each character as it is written, taken from the front.
proof fn lemma_escaped_front(s: Seq<char>)
    requires
        s.len() > 0,
    ensures
        escaped(s) == escape_of(s[0]) + escaped(s.drop_first()),
    decreases s.len(),
{
    if s.len() == 1 {
        assert(s.drop_last() =~= Seq::<char>::empty());
        assert(s.drop_first() =~= Seq::<char>::empty());
        assert(escaped(Seq::<char>::empty()) == Seq::<char>::empty());
        assert(s.last() == s[0]);
        assert(escaped(s) =~= escape_of(s[0]));
        assert(escape_of(s[0]) + escaped(s.drop_first()) =~= escape_of(s[0]));
    } else {
        lemma_escaped_front(s.drop_last());
        assert(s.drop_last().drop_first() =~= s.drop_first().drop_last());
        assert(s.drop_first().last() == s.last());
        assert(escaped(s) =~= escape_of(s[0]) + escaped(s.drop_first()));
    }
}

/// No character's writing is the beginning of another's.
proof fn lemma_escape_prefix_free(a: char, x: Seq<char>, b: char, y: Seq<char>)
    requires
        escape_of(a) + x == escape_of(b) + y,
    ensures
        a == b,
        x == y,
{
    let (ea, eb) = (escape_of(a), escape_of(b));
    let s = ea + x;
    let t = eb + y;
    assert(s[0] == ea[0] && t[0] == eb[0]);
    if ea.len() >= 2 && eb.len() >= 2 {
        assert(s[1] == ea[1] && t[1] == eb[1]);
        if ea.len() == 4 && eb.len() == 4 {
            assert(s[2] == ea[2] && t[2] == eb[2]);
            assert(s[3] == ea[3] && t[3] == eb[3]);
            let (m, n) = (a as u8, b as u8);
            assert(hex_char(m / 16) == hex_char(n / 16));
            assert(hex_char(m % 16) == hex_char(n % 16));
            assert(m == n);
        }
    }
    assert(a == b);
    assert(s.skip(ea.len() as int) =~= x);
    assert(t.skip(eb.len() as int) =~= y);
}

proof fn lemma_escaped_injective(a: Seq<char>, b: Seq<char>)
    requires
        escaped(a) == escaped(b),
    ensures
        a == b,
    decreases a.len(),
{
    if a.len() > 0 {
        lemma_escaped_front(a);
        assert(escape_of(a[0]).len() >= 1);
        assert(escaped(a).len() >= 1);
    } else {
        assert(escaped(a).len() == 0);
    }
    if b.len() > 0 {
        lemma_escaped_front(b);
        assert(escape_of(b[0]).len() >= 1);
        assert(escaped(b).len() >= 1);
    } else {
        assert(escaped(b).len() == 0);
    }
    if a.len() > 0 && b.len() > 0 {
        lemma_escape_prefix_free(
            a[0],
            escaped(a.drop_first()),
            b[0],
            escaped(b.drop_first()),
        );
        lemma_escaped_injective(a.drop_first(), b.drop_first());
        assert(a =~= seq![a[0]] + a.drop_first());
        assert(b =~= seq![b[0]] + b.drop_first());
    } else {
        assert(a =~= b);
    }
}

/// A quoted value stands for one text only.
pub proof fn quoting_loses_nothing(a: Seq<char>, b: Seq<char>)
    requires
        quoted(a) == quoted(b),
    ensures
        a == b,
{
    let (x, y) = (quoted(a), quoted(b));
    assert(x.subrange(1, x.len() - 1) =~= escaped(a));
    assert(y.subrange(1, y.len() - 1) =~= escaped(b));
    lemma_escaped_injective(a, b);
}

/// A line that can stand in a block: it is one line, and does not close the
/// block.
pub open spec fn is_inner_line(l: Seq<char>) -> bool {
    &&& forall|i: int| 0 <= i < l.len() ==> !is_break(#[trigger] l[i])
    &&& l != "---"@
    &&& l != "..."@
}

/// A line followed by a line feed ends there.
#[verifier::spinoff_prover]
proof fn lemma_line_ends(l: Seq<char>, rest: Seq<char>)
    requires
        forall|i: int| 0 <= i < l.len() ==> !is_break(#[trigger] l[i]),
    ensures
        line_end(l + seq!['\n'] + rest, 0) == l.len() + 1,
{
    let s = l + seq!['\n'] + rest;
    let nl = seq!['\n'];
    lemma_first_at(s, nl, 0);
    assert(s.subrange(l.len() as int, l.len() as int + 1) =~= nl);
    assert(occurs_at(s, nl, l.len() as int));
    let f = first_at(s, nl, 0)->0;
    assert(s.subrange(f, f + 1)[0] == s[f]);
    assert(s[f] == '\n');
    if f < l.len() {
        assert(s[f] == l[f]);
    }
}

/// Such a line is a closing one where it is one of the two delimiters.
#[verifier::spinoff_prover]
proof fn lemma_line_then_rest(l: Seq<char>, rest: Seq<char>)
    requires
        forall|i: int| 0 <= i < l.len() ==> !is_break(#[trigger] l[i]),
    ensures
        line_end(l + seq!['\n'] + rest, 0) == l.len() + 1,
        is_closing((l + seq!['\n'] + rest).subrange(0, l.len() as int + 1)) <==> (l == "---"@ || l
            == "..."@),
{
    lemma_line_ends(l, rest);
    let s = l + seq!['\n'] + rest;
    let line = s.subrange(0, l.len() as int + 1);
    assert forall|j: int| l.len() <= j < line.len() implies is_break(line[j]) by {
        assert(line[j] == s[j]);
    }
    if l.len() > 0 {
        assert(line[l.len() - 1] == l[l.len() - 1]);
    }
    lemma_trim_end(line, |c: char| is_break(c), l.len() as int);
    assert(line.take(l.len() as int) =~= l);
}

/// The closing line, seen from a later start.
proof fn lemma_closing_shift(p: Seq<char>, s: Seq<char>, k: int)
    requires
        0 <= k,
    ensures
        match closing_line(s, k) {
            Some(c) => closing_line(p + s, p.len() + k) == Some(p.len() + c),
            None => closing_line(p + s, p.len() + k) is None,
        },
    decreases s.len() - k,
{
    let t = p + s;
    let n = p.len() as int;
    if k < s.len() {
        lemma_line_end_skip(s, k);
        lemma_line_end_skip(t, n + k);
        assert(t.skip(n + k) =~= s.skip(k));
        let e = line_end(s, k);
        assert(line_end(t, n + k) == n + e);
        lemma_first_at(s, seq!['\n'], k);
        assert(k < e <= s.len());
        assert(t.subrange(n + k, n + e) =~= s.subrange(k, e));
        if !is_closing(s.subrange(k, e)) {
            lemma_closing_shift(p, s, e);
        }
    }
}

/// A block of inner lines ends where its closing line stands.
proof fn lemma_block_ends(lines: Seq<Seq<char>>, tail: Seq<char>)
    requires
        forall|i: int| 0 <= i < lines.len() ==> is_inner_line(#[trigger] lines[i]),
    ensures
        closing_line(lines_text(lines) + ("---\n"@ + tail), 0) == Some(
            lines_text(lines).len() as int,
        ),
    decreases lines.len(),
{
    reveal_strlit("---\n");
    reveal_strlit("---");
    reveal_strlit("...");
    let end = "---\n"@ + tail;
    if lines.len() == 0 {
        assert(lines_text(lines) + end =~= "---"@ + seq!['\n'] + tail);
        lemma_line_then_rest("---"@, tail);
    } else {
        let l = lines[0];
        let more = lines_text(lines.drop_first()) + end;
        assert(lines_text(lines) + end =~= l + seq!['\n'] + more);
        assert(is_inner_line(l));
        lemma_line_then_rest(l, more);
        assert forall|i: int| 0 <= i < lines.drop_first().len() implies is_inner_line(
            #[trigger] lines.drop_first()[i],
        ) by {
            assert(lines.drop_first()[i] == lines[i + 1]);
        }
        lemma_block_ends(lines.drop_first(), tail);
        lemma_closing_shift(l + seq!['\n'], more, 0);
        assert(l + seq!['\n'] + more =~= (l + seq!['\n']) + more);
    }
}

proof fn lemma_field_is_inner(key: Seq<char>, value: Seq<char>)
    requires
        key.len() > 0,
        forall|i: int| 0 <= i < key.len() ==> !is_break(#[trigger] key[i]),
        forall|i: int| 0 <= i < value.len() ==> !is_break(#[trigger] value[i]),
        key[0] != '-',
        key[0] != '.',
    ensures
        is_inner_line(field(key, value)),
{
    reveal_strlit(": ");
    reveal_strlit("---");
    reveal_strlit("...");
    let f = field(key, value);
    assert(f[0] == key[0]);
    assert("---"@[0] == '-' && "..."@[0] == '.');
    assert forall|i: int| 0 <= i < f.len() implies !is_break(#[trigger] f[i]) by {
        if i < key.len() {
            assert(f[i] == key[i]);
        } else if i < key.len() + 2 {
            assert(f[i] == ": "@[i - key.len()]);
        } else {
            assert(f[i] == value[i - key.len() - 2]);
        }
    }
}

proof fn lemma_quoted_is_one_line(s: Seq<char>)
    ensures
        forall|i: int| 0 <= i < quoted(s).len() ==> !is_break(#[trigger] quoted(s)[i]),
{
    assert forall|i: int| 0 <= i < quoted(s).len() implies !is_break(#[trigger] quoted(s)[i]) by {
        quoting_leaves_no_raw_control(s, i);
    }
}

proof fn lemma_joined_is_one_line(parts: Seq<Seq<char>>)
    requires
        forall|k: int, i: int|
            0 <= k < parts.len() && 0 <= i < parts[k].len() ==> !is_break(#[trigger] parts[k][i]),
    ensures
        forall|i: int|
            0 <= i < joined(parts, ", "@).len() ==> !is_break(#[trigger] joined(parts, ", "@)[i]),
    decreases parts.len(),
{
    reveal_strlit(", ");
    if parts.len() > 1 {
        let rest = parts.drop_last();
        assert forall|k: int, i: int|
            0 <= k < rest.len() && 0 <= i < rest[k].len() implies !is_break(
            #[trigger] rest[k][i],
        ) by {
            assert(rest[k][i] == parts[k][i]);
        }
        lemma_joined_is_one_line(rest);
        let j = joined(parts, ", "@);
        let a = joined(rest, ", "@);
        assert forall|i: int| 0 <= i < j.len() implies !is_break(#[trigger] j[i]) by {
            if i < a.len() {
                assert(j[i] == a[i]);
            } else if i < a.len() + 2 {
                assert(j[i] == ", "@[i - a.len()]);
            } else {
                assert(j[i] == parts[parts.len() - 1][i - a.len() - 2]);
            }
        }
    } else if parts.len() == 1 {
        assert forall|i: int| 0 <= i < joined(parts, ", "@).len() implies !is_break(
            #[trigger] joined(parts, ", "@)[i],
        ) by {
            assert(joined(parts, ", "@)[i] == parts[0][i]);
        }
    }
}

proof fn lemma_tags_value_is_one_line(tags: Seq<Seq<char>>)
    ensures
        forall|i: int|
            0 <= i < tags_value(tags).len() ==> !is_break(#[trigger] tags_value(tags)[i]),
{
    reveal_strlit("[");
    reveal_strlit("]");
    let parts = tags.map_values(|t: Seq<char>| quoted(t));
    assert forall|k: int, i: int| 0 <= k < parts.len() && 0 <= i < parts[k].len() implies !is_break(
        #[trigger] parts[k][i],
    ) by {
        lemma_quoted_is_one_line(tags[k]);
        assert(parts[k] == quoted(tags[k]));
    }
    lemma_joined_is_one_line(parts);
    let v = tags_value(tags);
    let j = joined(parts, ", "@);
    assert forall|i: int| 0 <= i < v.len() implies !is_break(#[trigger] v[i]) by {
        if 0 < i < v.len() - 1 {
            assert(v[i] == j[i - 1]);
        }
    }
}

proof fn lemma_decimal_is_one_line(n: nat)
    ensures
        forall|i: int| 0 <= i < decimal_of(n).len() ==> !is_break(#[trigger] decimal_of(n)[i]),
    decreases n,
{
    if n >= 10 {
        lemma_decimal_is_one_line(n / 10);
        let d = decimal_of(n);
        assert forall|i: int| 0 <= i < d.len() implies !is_break(#[trigger] d[i]) by {
            if i < d.len() - 1 {
                assert(d[i] == decimal_of(n / 10)[i]);
            }
        }
    }
}

proof fn lemma_int_is_one_line(n: int)
    ensures
        forall|i: int| 0 <= i < int_text(n).len() ==> !is_break(#[trigger] int_text(n)[i]),
{
    if n < 0 {
        lemma_decimal_is_one_line((-n) as nat);
        assert forall|i: int| 0 <= i < int_text(n).len() implies !is_break(
            #[trigger] int_text(n)[i],
        ) by {
            if i > 0 {
                assert(int_text(n)[i] == decimal_of((-n) as nat)[i - 1]);
            }
        }
    } else {
        lemma_decimal_is_one_line(n as nat);
    }
}

/// A date's text.
pub open spec fn is_date_text(s: Seq<char>) -> bool {
    forall|i: int| 0 <= i < s.len() ==> is_date_char(#[trigger] s[i])
}

/// Every line of a block is one line, and none closes it early, whatever the
/// post holds.
pub proof fn a_block_has_one_line_per_field(
    post: PostRow,
    series: Option<SeriesRow>,
    tags: Seq<Seq<char>>,
    date: Seq<char>,
    published_at: Option<Seq<char>>,
    i: int,
)
    requires
        is_date_text(date),
        published_at matches Some(at) ==> is_date_text(at),
        0 <= i < header_lines(post, series, tags, date, published_at).len(),
    ensures
        is_inner_line(header_lines(post, series, tags, date, published_at)[i]),
{
    reveal_strlit("title");
    reveal_strlit("slug");
    reveal_strlit("date");
    reveal_strlit("published");
    reveal_strlit("published_at");
    reveal_strlit("excerpt");
    reveal_strlit("tags");
    reveal_strlit("series");
    reveal_strlit("series_order");
    reveal_strlit("true");
    reveal_strlit("false");
    lemma_quoted_is_one_line(post.title);
    lemma_quoted_is_one_line(post.slug);
    lemma_field_is_inner("title"@, quoted(post.title));
    lemma_field_is_inner("slug"@, quoted(post.slug));
    lemma_field_is_inner("date"@, date);
    lemma_field_is_inner("published"@, "true"@);
    lemma_field_is_inner("published"@, "false"@);
    if let Some(at) = published_at {
        lemma_field_is_inner("published_at"@, at);
    }
    if let Some(e) = post.excerpt {
        lemma_quoted_is_one_line(e);
        lemma_field_is_inner("excerpt"@, quoted(e));
    }
    lemma_tags_value_is_one_line(tags);
    lemma_field_is_inner("tags"@, tags_value(tags));
    if let Some(s) = series {
        lemma_quoted_is_one_line(s.slug);
        lemma_field_is_inner("series"@, quoted(s.slug));
        if let Some(n) = post.series_order {
            lemma_int_is_one_line(n as int);
            lemma_field_is_inner("series_order"@, int_text(n as int));
        }
    }
    let a = common_lines(post, date);
    let b = published_lines(published_at);
    let c = excerpt_lines(post.excerpt);
    let d = tags_lines(tags);
    let e = series_lines(series, post.series_order);
    let all = header_lines(post, series, tags, date, published_at);
    if i < a.len() {
        assert(all[i] == a[i]);
    } else if i < a.len() + b.len() {
        assert(all[i] == b[i - a.len()]);
    } else if i < a.len() + b.len() + c.len() {
        assert(all[i] == c[i - a.len() - b.len()]);
    } else if i < a.len() + b.len() + c.len() + d.len() {
        assert(all[i] == d[i - a.len() - b.len() - c.len()]);
    } else {
        assert(all[i] == e[i - a.len() - b.len() - c.len() - d.len()]);
    }
}

/// Importing an exported file finds the block that was written, and gives back
/// the body, without the line breaks that it started with.
pub proof fn an_exported_file_imports_as_its_body(
    post: PostRow,
    series: Option<SeriesRow>,
    tags: Seq<Seq<char>>,
    date: Seq<char>,
    published_at: Option<Seq<char>>,
    body: Seq<char>,
)
    requires
        is_date_text(date),
        published_at matches Some(at) ==> is_date_text(at),
    ensures
        ({
            let lines = header_lines(post, series, tags, date, published_at);
            block_and_body(file_text(lines, body)) == Some(
                (lines_text(lines), trim_start_by(closed_body(body), |c: char| is_break(c))),
            )
        }),
{
    let lines = header_lines(post, series, tags, date, published_at);
    assert forall|i: int| 0 <= i < lines.len() implies is_inner_line(#[trigger] lines[i]) by {
        a_block_has_one_line_per_field(post, series, tags, date, published_at, i);
    }
    let tail = seq!['\n'] + closed_body(body);
    lemma_block_ends(lines, tail);
    reveal_strlit("---\n");
    reveal_strlit("---\n\n");
    reveal_strlit("---");
    let doc = file_text(lines, body);
    let rest = lines_text(lines) + ("---\n"@ + tail);
    assert(doc =~= "---\n"@ + rest);
    assert("---\n"@.is_prefix_of(doc));
    assert(doc.skip(4) =~= rest);
    let k = lines_text(lines).len() as int;
    assert(rest.take(k) =~= lines_text(lines));
    lemma_line_end_skip(rest, k);
    assert(rest.skip(k) =~= "---"@ + seq!['\n'] + tail);
    lemma_line_then_rest("---"@, tail);
    assert(rest.skip(k + 4) =~= tail);
    let p = |c: char| is_break(c);
    assert(trim_start_by(tail, p) == trim_start_by(closed_body(body), p)) by {
        assert(tail[0] == '\n');
        assert(tail.drop_first() =~= closed_body(body));
    }
}

/// An exported file says all of a post that there is to say, of a draft as of a live
/// one: a line each for title, slug, date and whether it is published, then those that
/// it has of the others, and no more.
pub proof fn an_export_says_what_the_post_is(
    post: PostRow,
    series: Option<SeriesRow>,
    tags: Seq<Seq<char>>,
    date: Seq<char>,
    published_at: Option<Seq<char>>,
)
    ensures
        ({
            let lines = header_lines(post, series, tags, date, published_at);
            &&& lines.len() >= 4
            &&& lines[0] == "title"@ + ": "@ + quoted(post.title)
            &&& lines[1] == "slug"@ + ": "@ + quoted(post.slug)
            &&& lines[2] == "date"@ + ": "@ + date
            &&& post.published ==> lines[3] == "published"@ + ": "@ + "true"@
            &&& !post.published ==> lines[3] == "published"@ + ": "@ + "false"@
            &&& published_at is Some ==> lines.contains(
                "published_at"@ + ": "@ + published_at->0,
            )
            &&& post.excerpt is Some && post.excerpt->0.len() > 0 ==> lines.contains(
                "excerpt"@ + ": "@ + quoted(post.excerpt->0),
            )
            &&& tags.len() > 0 ==> lines.contains(
                "tags"@ + ": "@ + ("["@ + joined(
                    Seq::new(tags.len(), |i: int| quoted(tags[i])),
                    ", "@,
                ) + "]"@),
            )
            &&& series is Some ==> lines.contains("series"@ + ": "@ + quoted(series->0.slug))
            &&& series is Some && post.series_order is Some ==> lines.contains(
                "series_order"@ + ": "@ + int_text(post.series_order->0 as int),
            )
            &&& lines.len() == 4 + (if published_at is Some { 1int } else { 0 }) + (
            if post.excerpt is Some && post.excerpt->0.len() > 0 { 1int } else { 0 }) + (
            if tags.len() > 0 { 1int } else { 0 }) + (if series is Some {
                if post.series_order is Some { 2int } else { 1 }
            } else {
                0
            })
        }),
{
    let a = common_lines(post, date);
    let b = published_lines(published_at);
    let c = excerpt_lines(post.excerpt);
    let d = tags_lines(tags);
    let e = series_lines(series, post.series_order);
    let lines = header_lines(post, series, tags, date, published_at);
    assert(lines[0] == a[0] && lines[1] == a[1] && lines[2] == a[2] && lines[3] == a[3]);
    if published_at is Some {
        assert(lines[4] == b[0]);
    }
    if post.excerpt is Some && post.excerpt->0.len() > 0 {
        assert(lines[(a.len() + b.len()) as int] == c[0]);
    }
    if tags.len() > 0 {
        assert(lines[(a.len() + b.len() + c.len()) as int] == d[0]);
        assert(tags.map_values(|t: Seq<char>| quoted(t)) =~= Seq::new(
            tags.len(),
            |i: int| quoted(tags[i]),
        ));
    }
    if series is Some {
        assert(lines[(a.len() + b.len() + c.len() + d.len()) as int] == e[0]);
        if post.series_order is Some {
            assert(lines[(a.len() + b.len() + c.len() + d.len() + 1) as int] == e[1]);
        }
    }
}

/// An exported file is its block, an empty line, and the text as it stands, with a line
/// feed put behind it where it ends in none.
pub proof fn an_export_ends_in_its_text(lines: Seq<Seq<char>>, body: Seq<char>)
    ensures
        body.len() > 0 && body.last() == '\n' ==> file_text(lines, body) == "---\n"@ + lines_text(
            lines,
        ) + "---\n\n"@ + body,
        !(body.len() > 0 && body.last() == '\n') ==> file_text(lines, body) == "---\n"@
            + lines_text(lines) + "---\n\n"@ + body.push('\n'),
{
}

/// What needs no escape is written as it is, letter by letter.
pub proof fn plain_text_is_written_as_it_is(s: Seq<char>)
    requires
        forall|i: int|
            0 <= i < s.len() ==> !is_raw_control(#[trigger] s[i]) && s[i] != '"' && s[i] != '\\',
    ensures
        escaped(s) == s,
        quoted(s) == seq!['"'] + s + seq!['"'],
    decreases s.len(),
{
    if s.len() > 0 {
        let d = s.drop_last();
        assert forall|i: int| 0 <= i < d.len() implies !is_raw_control(#[trigger] d[i]) && d[i]
            != '"' && d[i] != '\\' by {
            assert(d[i] == s[i]);
        }
        plain_text_is_written_as_it_is(d);
        assert(!is_raw_control(s[s.len() - 1]));
        assert(escaped(s) =~= s);
    } else {
        assert(escaped(s) =~= s);
    }
}

/// The file of a post is dated by when the post was made and, where it was published,
/// by when it first was; its tags are those of its column.
pub proof fn an_export_dates_the_post(post: PostRow, series: Option<SeriesRow>, body: Seq<char>)
    ensures
        ({
            let at = match post.published_at {
                Some(seconds) => Some(timestamp_of(seconds)),
                None => None,
            };
            &&& document_of(post, series, body) == file_text(
                header_lines(
                    post,
                    series,
                    tags_in(post.tags),
                    timestamp_of(post.created_at),
                    at,
                ),
                body,
            )
            &&& utc_text_of(post.created_at) is Some ==> timestamp_of(post.created_at)
                == utc_text_of(post.created_at)->0
        }),
{
}

/// A block of any lines that do not close it is taken off a document, however it is
/// closed, and the text behind it stays but for the line breaks that it starts with.
pub proof fn a_block_is_taken_off(lines: Seq<Seq<char>>, tail: Seq<char>)
    requires
        forall|i: int| 0 <= i < lines.len() ==> is_inner_line(#[trigger] lines[i]),
    ensures
        block_and_body("---\n"@ + lines_text(lines) + "---\n"@ + tail) == Some(
            (lines_text(lines), trim_start_by(tail, |c: char| is_break(c))),
        ),
{
    lemma_block_ends(lines, tail);
    reveal_strlit("---\n");
    reveal_strlit("---");
    let rest = lines_text(lines) + ("---\n"@ + tail);
    let doc = "---\n"@ + lines_text(lines) + "---\n"@ + tail;
    assert(doc =~= "---\n"@ + rest);
    assert("---\n"@.is_prefix_of(doc));
    assert(doc.skip(4) =~= rest);
    let k = lines_text(lines).len() as int;
    assert(rest.take(k) =~= lines_text(lines));
    lemma_line_end_skip(rest, k);
    assert(rest.skip(k) =~= "---"@ + seq!['\n'] + tail);
    lemma_line_then_rest("---"@, tail);
    assert(rest.skip(k + 4) =~= tail);
}

}
