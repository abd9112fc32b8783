//! Character-level operations on text, with the mathematical functions that
//! say what they compute.
//!
//! A string is its sequence of characters. Everything here works on that
//! sequence, so positions count characters and never fall inside one.

use crate::table::lemma_push_contains;
use vstd::prelude::*;
use vstd::slice::slice_subrange;
use vstd::string::StringExecFns;

verus! {

/// `String::push` puts one character at the end of the text.
pub assume_specification[ String::push ](s: &mut String, c: char)
    ensures
        final(s)@ == old(s)@.push(c),
;

// ─── What the operations compute ────────────────────────────────────────────

/// The characters of each string of a list.
pub open spec fn views(list: Seq<String>) -> Seq<Seq<char>> {
    list.map_values(|s: String| s@)
}

/// The characters of an optional string.
pub open spec fn opt_view(s: Option<String>) -> Option<Seq<char>> {
    match s {
        Some(t) => Some(t@),
        None => None,
    }
}

/// The characters with Unicode's `White_Space` property.
pub open spec fn is_white_space(c: char) -> bool {
    ||| '\u{0009}' <= c <= '\u{000d}'
    ||| c == '\u{0020}'
    ||| c == '\u{0085}'
    ||| c == '\u{00a0}'
    ||| c == '\u{1680}'
    ||| '\u{2000}' <= c <= '\u{200a}'
    ||| c == '\u{2028}'
    ||| c == '\u{2029}'
    ||| c == '\u{202f}'
    ||| c == '\u{205f}'
    ||| c == '\u{3000}'
}

pub open spec fn is_upper(c: char) -> bool {
    'A' <= c <= 'Z'
}

pub open spec fn is_alphanumeric(c: char) -> bool {
    'a' <= c <= 'z' || 'A' <= c <= 'Z' || '0' <= c <= '9'
}

pub open spec fn is_hex_digit(c: char) -> bool {
    'a' <= c <= 'f' || 'A' <= c <= 'F' || '0' <= c <= '9'
}

/// An ASCII capital as its small letter; any other character as it is.
pub open spec fn lower_char(c: char) -> char {
    if is_upper(c) {
        (c as u8 + 32) as char
    } else {
        c
    }
}

/// Every ASCII capital of `s` as its small letter.
pub open spec fn lower(s: Seq<char>) -> Seq<char> {
    s.map_values(|c: char| lower_char(c))
}

/// `s` without the longest run of characters at its start that `p` holds of.
pub open spec fn trim_start_by(s: Seq<char>, p: spec_fn(char) -> bool) -> Seq<char>
    decreases s.len(),
{
    if s.len() > 0 && p(s[0]) {
        trim_start_by(s.drop_first(), p)
    } else {
        s
    }
}

/// `s` without the longest run of characters at its end that `p` holds of.
pub open spec fn trim_end_by(s: Seq<char>, p: spec_fn(char) -> bool) -> Seq<char>
    decreases s.len(),
{
    if s.len() > 0 && p(s.last()) {
        trim_end_by(s.drop_last(), p)
    } else {
        s
    }
}

/// `s` without white space at either end.
pub open spec fn trimmed(s: Seq<char>) -> Seq<char> {
    trim_end_by(trim_start_by(s, |c: char| is_white_space(c)), |c: char| is_white_space(c))
}

/// Whether `pat` stands in `s` at position `i`.
pub open spec fn occurs_at(s: Seq<char>, pat: Seq<char>, i: int) -> bool {
    0 <= i && i + pat.len() <= s.len() && s.subrange(i, i + pat.len()) == pat
}

/// Whether `pat` stands anywhere in `s`.
pub open spec fn has_text(s: Seq<char>, pat: Seq<char>) -> bool {
    exists|i: int| occurs_at(s, pat, i)
}

/// The first position of `pat` in `s`, from position `from` on.
pub open spec fn first_at(s: Seq<char>, pat: Seq<char>, from: int) -> Option<int>
    decreases s.len() - from + 1,
{
    if from < 0 || from + pat.len() > s.len() {
        None
    } else if occurs_at(s, pat, from) {
        Some(from)
    } else {
        first_at(s, pat, from + 1)
    }
}

/// `s` with each occurrence of `pat`, taken from the left and not overlapping,
/// replaced by `with`.
pub open spec fn replaced(s: Seq<char>, pat: Seq<char>, with: Seq<char>) -> Seq<char>
    decreases s.len(),
{
    if pat.len() == 0 {
        s
    } else {
        match first_at(s, pat, 0) {
            Some(i) => if 0 <= i && i + pat.len() <= s.len() {
                s.take(i) + with + replaced(s.skip(i + pat.len()), pat, with)
            } else {
                s
            },
            None => s,
        }
    }
}

/// Whether `a` comes before `b`: at the first character in which they differ
/// it has the smaller one, or it is a proper beginning of `b`.
pub open spec fn comes_before(a: Seq<char>, b: Seq<char>) -> bool
    decreases a.len(),
{
    if b.len() == 0 {
        false
    } else if a.len() == 0 {
        true
    } else if a[0] != b[0] {
        a[0] < b[0]
    } else {
        comes_before(a.drop_first(), b.drop_first())
    }
}

/// The decimal digits of `n`.
pub open spec fn decimal_of(n: nat) -> Seq<char>
    decreases n,
{
    if n < 10 {
        seq![(n + 48) as char]
    } else {
        decimal_of(n / 10).push((n % 10 + 48) as char)
    }
}

/// An integer in decimal, with `-` in front of a negative one.
pub open spec fn int_text(i: int) -> Seq<char> {
    if i < 0 {
        seq!['-'] + decimal_of((-i) as nat)
    } else {
        decimal_of(i as nat)
    }
}

/// The pieces of `s` between the occurrences of `sep`: one more than there are
/// of those.
pub open spec fn split_on(s: Seq<char>, sep: char) -> Seq<Seq<char>>
    decreases s.len(),
{
    match first_at(s, seq![sep], 0) {
        Some(i) => if 0 <= i < s.len() {
            seq![s.take(i)] + split_on(s.skip(i + 1), sep)
        } else {
            seq![s]
        },
        None => seq![s],
    }
}

/// Where the line of `s` that starts at `from` ends: behind its line feed, or
/// at the end of `s`.
pub open spec fn line_end(s: Seq<char>, from: int) -> int {
    match first_at(s, seq!['\n'], from) {
        Some(i) => i + 1,
        None => s.len() as int,
    }
}

/// A line without its line feed, and without a carriage return before that.
pub open spec fn bare_line(line: Seq<char>) -> Seq<char> {
    if line.len() > 0 && line.last() == '\n' {
        let l = line.drop_last();
        if l.len() > 0 && l.last() == '\r' {
            l.drop_last()
        } else {
            l
        }
    } else {
        line
    }
}

/// The lines of `s`.
pub open spec fn lines_of(s: Seq<char>) -> Seq<Seq<char>>
    decreases s.len(),
{
    if s.len() == 0 {
        Seq::empty()
    } else {
        let e = line_end(s, 0);
        if 0 < e <= s.len() {
            seq![bare_line(s.take(e))] + lines_of(s.skip(e))
        } else {
            Seq::empty()
        }
    }
}

/// The texts one after another, with `sep` between neighbours.
pub open spec fn joined(parts: Seq<Seq<char>>, sep: Seq<char>) -> Seq<char>
    decreases parts.len(),
{
    if parts.len() == 0 {
        Seq::empty()
    } else if parts.len() == 1 {
        parts[0]
    } else {
        joined(parts.drop_last(), sep) + sep + parts.last()
    }
}

/// The texts, each where it first stands.
pub open spec fn firsts(list: Seq<Seq<char>>) -> Seq<Seq<char>>
    decreases list.len(),
{
    if list.len() == 0 {
        Seq::empty()
    } else {
        let before = firsts(list.drop_last());
        if before.contains(list.last()) {
            before
        } else {
            before.push(list.last())
        }
    }
}

// ─── Conversions ────────────────────────────────────────────────────────────

/// The characters of `s`, in order.
pub fn chars_of(s: &str) -> (out: Vec<char>)
    ensures
        out@ == s@,
{
    let mut out: Vec<char> = Vec::new();
    for c in it: s.chars()
        invariant
            out@ == it.seq().take(it.index()),
            it.seq() == s@,
    {
        out.push(c);
    }
    out
}

/// The string made of `chars`.
pub fn string_of(chars: &[char]) -> (out: String)
    ensures
        out@ == chars@,
{
    let mut out: String = String::new();
    let mut i: usize = 0;
    while i < chars.len()
        invariant
            i <= chars@.len(),
            out@ == chars@.take(i as int),
        decreases chars@.len() - i,
    {
        out.push(chars[i]);
        i = i + 1;
    }
    assert(chars@.take(i as int) =~= chars@);
    out
}

/// A copy of an optional string.
pub fn copy_opt(s: &Option<String>) -> (out: Option<String>)
    ensures
        opt_view(out) == opt_view(*s),
{
    match s {
        Some(t) => Some(t.clone()),
        None => None,
    }
}

/// A copy of a list of strings.
pub fn copy_list(list: &Vec<String>) -> (out: Vec<String>)
    ensures
        views(out@) == views(list@),
{
    let mut out: Vec<String> = Vec::new();
    let mut i: usize = 0;
    while i < list.len()
        invariant
            i <= list@.len(),
            views(out@) == views(list@).take(i as int),
        decreases list@.len() - i,
    {
        let ghost prior = out@;
        out.push(list[i].clone());
        assert(views(out@) =~= views(prior).push(list@[i as int]@));
        i = i + 1;
        assert(views(out@) =~= views(list@).take(i as int));
    }
    assert(views(list@).take(i as int) =~= views(list@));
    out
}

// ─── Comparing ──────────────────────────────────────────────────────────────

/// Whether two slices hold the same characters.
pub fn same_chars(a: &[char], b: &[char]) -> (r: bool)
    ensures
        r == (a@ == b@),
{
    if a.len() != b.len() {
        return false;
    }
    let mut i: usize = 0;
    while i < a.len()
        invariant
            i <= a@.len(),
            a@.len() == b@.len(),
            forall|j: int| 0 <= j < i ==> a@[j] == b@[j],
        decreases a@.len() - i,
    {
        if a[i] != b[i] {
            return false;
        }
        i = i + 1;
    }
    assert(a@ =~= b@);
    true
}

/// Whether two strings are the same text.
pub fn same(a: &str, b: &str) -> (r: bool)
    ensures
        r == (a@ == b@),
{
    let x: Vec<char> = chars_of(a);
    let y: Vec<char> = chars_of(b);
    same_chars(x.as_slice(), y.as_slice())
}

/// Whether two optional strings are both absent or the same text.
pub fn same_opt(a: &Option<String>, b: &Option<String>) -> (r: bool)
    ensures
        r == (opt_view(*a) == opt_view(*b)),
{
    match (a, b) {
        (Some(x), Some(y)) => *x == *y,
        (None, None) => true,
        _ => false,
    }
}

/// Whether two lists hold the same texts in the same order.
pub fn same_list(a: &Vec<String>, b: &Vec<String>) -> (r: bool)
    ensures
        r == (views(a@) == views(b@)),
{
    if a.len() != b.len() {
        assert(views(a@).len() != views(b@).len());
        return false;
    }
    let mut i: usize = 0;
    while i < a.len()
        invariant
            i <= a@.len(),
            a@.len() == b@.len(),
            forall|j: int| 0 <= j < i ==> a@[j]@ == b@[j]@,
        decreases a@.len() - i,
    {
        if a[i] != b[i] {
            assert(views(a@)[i as int] != views(b@)[i as int]);
            return false;
        }
        i = i + 1;
    }
    assert(views(a@) =~= views(b@));
    true
}

/// Whether `list` holds `s`.
pub fn holds(list: &Vec<String>, s: &str) -> (r: bool)
    ensures
        r == views(list@).contains(s@),
{
    let mut i: usize = 0;
    while i < list.len()
        invariant
            i <= list@.len(),
            forall|j: int| 0 <= j < i ==> list@[j]@ != s@,
        decreases list@.len() - i,
    {
        if same(list[i].as_str(), s) {
            assert(views(list@)[i as int] == s@);
            return true;
        }
        i = i + 1;
    }
    assert(!views(list@).contains(s@)) by {
        if views(list@).contains(s@) {
            let j: int = choose|j: int| 0 <= j < views(list@).len() && views(list@)[j] == s@;
            assert(list@[j]@ == s@);
        }
    }
    false
}

/// Whether `a` comes before `b` in the order of their characters.
pub fn is_before(a: &str, b: &str) -> (r: bool)
    ensures
        r == comes_before(a@, b@),
{
    let x: Vec<char> = chars_of(a);
    let y: Vec<char> = chars_of(b);
    let mut i: usize = 0;
    assert(x@.skip(0) =~= x@);
    assert(y@.skip(0) =~= y@);
    while i < x.len() && i < y.len()
        invariant
            i <= x@.len(),
            i <= y@.len(),
            x@ == a@,
            y@ == b@,
            comes_before(x@.skip(i as int), y@.skip(i as int)) == comes_before(x@, y@),
        decreases x@.len() - i,
    {
        assert(x@.skip(i as int)[0] == x@[i as int]);
        assert(y@.skip(i as int)[0] == y@[i as int]);
        assert(x@.skip(i as int).drop_first() =~= x@.skip(i + 1));
        assert(y@.skip(i as int).drop_first() =~= y@.skip(i + 1));
        let c: char = x[i];
        let d: char = y[i];
        if c != d {
            return c < d;
        }
        i = i + 1;
    }
    i < y.len()
}

/// Of two texts, one comes before the other or they are the same.
pub proof fn lemma_order_total(a: Seq<char>, b: Seq<char>)
    ensures
        comes_before(a, b) || comes_before(b, a) || a == b,
        !(comes_before(a, b) && comes_before(b, a)),
        a == b ==> !comes_before(a, b),
    decreases a.len(),
{
    if a.len() > 0 && b.len() > 0 && a[0] == b[0] {
        lemma_order_total(a.drop_first(), b.drop_first());
        if a.drop_first() == b.drop_first() {
            assert(a =~= seq![a[0]] + a.drop_first());
            assert(b =~= seq![b[0]] + b.drop_first());
        }
    } else if a.len() == 0 && b.len() == 0 {
        assert(a =~= b);
    }
}

/// The order of texts is transitive.
pub proof fn lemma_order_transitive(a: Seq<char>, b: Seq<char>, c: Seq<char>)
    requires
        comes_before(a, b),
        comes_before(b, c),
    ensures
        comes_before(a, c),
    decreases a.len(),
{
    if a.len() > 0 && b.len() > 0 && c.len() > 0 && a[0] == b[0] && b[0] == c[0] {
        lemma_order_transitive(a.drop_first(), b.drop_first(), c.drop_first());
    }
}

// ─── Classes of characters ──────────────────────────────────────────────────

/// Whether `c` is white space.
pub fn white_space(c: char) -> (r: bool)
    ensures
        r == is_white_space(c),
{
    ('\u{0009}' <= c && c <= '\u{000d}') || c == '\u{0020}' || c == '\u{0085}' || c == '\u{00a0}'
        || c == '\u{1680}' || ('\u{2000}' <= c && c <= '\u{200a}') || c == '\u{2028}' || c
        == '\u{2029}' || c == '\u{202f}' || c == '\u{205f}' || c == '\u{3000}'
}

/// Whether `c` is an ASCII letter or digit.
pub fn alphanumeric(c: char) -> (r: bool)
    ensures
        r == is_alphanumeric(c),
{
    ('a' <= c && c <= 'z') || ('A' <= c && c <= 'Z') || ('0' <= c && c <= '9')
}

/// Whether `c` is an ASCII hexadecimal digit.
pub fn hex_digit(c: char) -> (r: bool)
    ensures
        r == is_hex_digit(c),
{
    ('a' <= c && c <= 'f') || ('A' <= c && c <= 'F') || ('0' <= c && c <= '9')
}

/// The small letter of an ASCII capital, or the character itself.
pub fn to_lower_char(c: char) -> (r: char)
    ensures
        r == lower_char(c),
{
    if 'A' <= c && c <= 'Z' {
        (c as u8 + 32) as char
    } else {
        c
    }
}

/// `s` with its ASCII capitals as small letters.
pub fn to_lower(s: &str) -> (out: String)
    ensures
        out@ == lower(s@),
{
    let x: Vec<char> = chars_of(s);
    let mut out: String = String::new();
    let mut i: usize = 0;
    while i < x.len()
        invariant
            i <= x@.len(),
            out@ == lower(x@).take(i as int),
        decreases x@.len() - i,
    {
        out.push(to_lower_char(x[i]));
        i = i + 1;
        assert(out@ =~= lower(x@).take(i as int));
    }
    assert(lower(x@).take(i as int) =~= lower(x@));
    out
}

// ─── Trimming ───────────────────────────────────────────────────────────────

/// The trimming of `s` at its start is the rest from the first character that
/// `p` does not hold of.
pub proof fn lemma_trim_start(s: Seq<char>, p: spec_fn(char) -> bool, n: int)
    requires
        0 <= n <= s.len(),
        forall|j: int| 0 <= j < n ==> p(s[j]),
        n < s.len() ==> !p(s[n]),
    ensures
        trim_start_by(s, p) == s.skip(n),
    decreases n,
{
    if n == 0 {
        assert(s.skip(0) =~= s);
    } else {
        lemma_trim_start(s.drop_first(), p, n - 1);
        assert(s.drop_first().skip(n - 1) =~= s.skip(n));
    }
}

/// The trimming of `s` at its end is what comes up to the last character that
/// `p` does not hold of.
pub proof fn lemma_trim_end(s: Seq<char>, p: spec_fn(char) -> bool, n: int)
    requires
        0 <= n <= s.len(),
        forall|j: int| n <= j < s.len() ==> p(s[j]),
        n > 0 ==> !p(s[n - 1]),
    ensures
        trim_end_by(s, p) == s.take(n),
    decreases s.len() - n,
{
    if n == s.len() {
        assert(s.take(n) =~= s);
    } else {
        lemma_trim_end(s.drop_last(), p, n);
        assert(s.drop_last().take(n) =~= s.take(n));
    }
}

/// The bounds of `chars[from..to]` without white space at either end.
pub fn trim_bounds(chars: &[char], from: usize, to: usize) -> (r: (usize, usize))
    requires
        from <= to <= chars@.len(),
    ensures
        from <= r.0 <= r.1 <= to,
        chars@.subrange(r.0 as int, r.1 as int) == trimmed(
            chars@.subrange(from as int, to as int),
        ),
{
    let ghost whole = chars@.subrange(from as int, to as int);
    let ghost p = |c: char| is_white_space(c);
    let mut i: usize = from;
    while i < to && white_space(chars[i])
        invariant
            from <= i <= to <= chars@.len(),
            forall|j: int| from <= j < i ==> is_white_space(chars@[j]),
        decreases to - i,
    {
        i = i + 1;
    }
    proof {
        assert forall|j: int| 0 <= j < i - from implies p(whole[j]) by {
            assert(whole[j] == chars@[from + j]);
        }
        lemma_trim_start(whole, p, i - from);
        assert(whole.skip(i - from) =~= chars@.subrange(i as int, to as int));
    }
    let mut k: usize = to;
    while i < k && white_space(chars[k - 1])
        invariant
            i <= k <= to <= chars@.len(),
            forall|j: int| k <= j < to ==> is_white_space(chars@[j]),
        decreases k,
    {
        k = k - 1;
    }
    proof {
        let mid = chars@.subrange(i as int, to as int);
        assert forall|j: int| k - i <= j < mid.len() implies p(mid[j]) by {
            assert(mid[j] == chars@[i + j]);
        }
        lemma_trim_end(mid, p, k - i);
        assert(mid.take(k - i) =~= chars@.subrange(i as int, k as int));
    }
    (i, k)
}

/// `s` without white space at either end.
pub fn trim(s: &str) -> (out: &str)
    ensures
        out@ == trimmed(s@),
{
    let x: Vec<char> = chars_of(s);
    let b = trim_bounds(x.as_slice(), 0, x.len());
    assert(x@.subrange(0, x@.len() as int) =~= x@);
    s.substring_char(b.0, b.1)
}

/// `s` without any `c` at its start.
pub fn trim_start_char(s: &str, c: char) -> (out: &str)
    ensures
        out@ == trim_start_by(s@, |d: char| d == c),
{
    let x: Vec<char> = chars_of(s);
    let mut i: usize = 0;
    while i < x.len() && x[i] == c
        invariant
            i <= x@.len(),
            forall|j: int| 0 <= j < i ==> x@[j] == c,
        decreases x@.len() - i,
    {
        i = i + 1;
    }
    proof {
        lemma_trim_start(x@, |d: char| d == c, i as int);
        assert(x@.skip(i as int) =~= x@.subrange(i as int, x@.len() as int));
    }
    s.substring_char(i, x.len())
}

/// `s` without any `c` at its end.
pub fn trim_end_char(s: &str, c: char) -> (out: &str)
    ensures
        out@ == trim_end_by(s@, |d: char| d == c),
{
    let x: Vec<char> = chars_of(s);
    let mut k: usize = x.len();
    while 0 < k && x[k - 1] == c
        invariant
            k <= x@.len(),
            forall|j: int| k <= j < x@.len() ==> x@[j] == c,
        decreases k,
    {
        k = k - 1;
    }
    proof {
        lemma_trim_end(x@, |d: char| d == c, k as int);
        assert(x@.take(k as int) =~= x@.subrange(0, k as int));
    }
    s.substring_char(0, k)
}

/// Whether nothing but white space is in `s`.
pub fn is_blank(s: &str) -> (r: bool)
    ensures
        r == (trimmed(s@).len() == 0),
{
    trim(s).is_empty()
}

// ─── Searching ──────────────────────────────────────────────────────────────

/// Whether `pat` stands in `chars` at position `i`.
pub fn stands_at(chars: &[char], pat: &[char], i: usize) -> (r: bool)
    ensures
        r == occurs_at(chars@, pat@, i as int),
{
    let n: usize = chars.len();
    if pat.len() > n || i > n - pat.len() {
        return false;
    }
    let mut j: usize = 0;
    while j < pat.len()
        invariant
            j <= pat@.len(),
            n == chars@.len(),
            i + pat@.len() <= n,
            forall|k: int| 0 <= k < j ==> chars@[i + k] == pat@[k],
        decreases pat@.len() - j,
    {
        if chars[i + j] != pat[j] {
            assert(chars@.subrange(i as int, i + pat@.len())[j as int] != pat@[j as int]);
            return false;
        }
        j = j + 1;
    }
    assert(chars@.subrange(i as int, i + pat@.len()) =~= pat@);
    true
}

/// The first position of `pat` in `chars` from `from` on.
pub fn find_from(chars: &[char], pat: &[char], from: usize) -> (r: Option<usize>)
    requires
        from <= chars@.len(),
    ensures
        match r {
            Some(i) => first_at(chars@, pat@, from as int) == Some(i as int),
            None => first_at(chars@, pat@, from as int) is None,
        },
{
    let mut i: usize = from;
    while pat.len() <= chars.len() && i <= chars.len() - pat.len()
        invariant
            from <= i,
            i <= chars@.len() + 1,
            pat@.len() <= chars@.len() ==> i <= chars@.len() - pat@.len() + 1 || i == from,
            first_at(chars@, pat@, from as int) == first_at(chars@, pat@, i as int),
        decreases chars@.len() + 1 - i,
    {
        if stands_at(chars, pat, i) {
            return Some(i);
        }
        if i == chars.len() - pat.len() {
            assert(first_at(chars@, pat@, i + 1) is None);
            return None;
        }
        i = i + 1;
    }
    None
}

/// A first position is a position, and there is none before it.
pub proof fn lemma_first_at(s: Seq<char>, pat: Seq<char>, from: int)
    requires
        0 <= from,
    ensures
        match first_at(s, pat, from) {
            Some(i) => from <= i && occurs_at(s, pat, i) && forall|j: int|
                from <= j < i ==> !occurs_at(s, pat, j),
            None => forall|j: int| from <= j ==> !occurs_at(s, pat, j),
        },
    decreases s.len() - from + 1,
{
    if from + pat.len() <= s.len() && !occurs_at(s, pat, from) {
        lemma_first_at(s, pat, from + 1);
    }
}

/// Whether `pat` stands anywhere in `s`.
pub fn contains(s: &str, pat: &str) -> (r: bool)
    ensures
        r == has_text(s@, pat@),
{
    let x: Vec<char> = chars_of(s);
    let y: Vec<char> = chars_of(pat);
    proof {
        lemma_first_at(x@, y@, 0);
    }
    find_from(x.as_slice(), y.as_slice(), 0).is_some()
}

/// Whether `s` begins with `pat`.
pub fn starts_with(s: &str, pat: &str) -> (r: bool)
    ensures
        r == pat@.is_prefix_of(s@),
{
    let x: Vec<char> = chars_of(s);
    let y: Vec<char> = chars_of(pat);
    stands_at(x.as_slice(), y.as_slice(), 0)
}

/// What follows `pat` at the start of `s`, if `s` begins with it.
pub fn strip_prefix<'a>(s: &'a str, pat: &str) -> (r: Option<&'a str>)
    ensures
        match r {
            Some(rest) => s@ == pat@ + rest@,
            None => !pat@.is_prefix_of(s@),
        },
{
    if starts_with(s, pat) {
        let n: usize = pat.unicode_len();
        let m: usize = s.unicode_len();
        let rest: &str = s.substring_char(n, m);
        assert(s@ =~= pat@ + rest@);
        Some(rest)
    } else {
        None
    }
}

/// `s` with each occurrence of `pat` replaced by `with`.
pub fn replace(s: &str, pat: &str, with: &str) -> (out: String)
    requires
        pat@.len() > 0,
    ensures
        out@ == replaced(s@, pat@, with@),
{
    let x: Vec<char> = chars_of(s);
    let y: Vec<char> = chars_of(pat);
    let n: usize = x.len();
    let mut out: String = String::new();
    let mut i: usize = 0;
    assert(x@.skip(0) =~= x@);
    loop
        invariant
            i <= x@.len(),
            n == x@.len(),
            x@ == s@,
            y@ == pat@,
            y@.len() > 0,
            out@ + replaced(x@.skip(i as int), y@, with@) == replaced(s@, pat@, with@),
        decreases x@.len() - i,
    {
        proof {
            lemma_first_at(x@, y@, i as int);
            lemma_first_at(x@.skip(i as int), y@, 0);
            lemma_first_skip(x@, y@, i as int);
        }
        match find_from(x.as_slice(), y.as_slice(), i) {
            Some(k) => {
                let part: String = string_of(slice_subrange(x.as_slice(), i, k));
                let ghost before = out@;
                out.append(part.as_str());
                out.append(with);
                let next: usize = k + y.len();
                proof {
                    let rest = x@.skip(i as int);
                    assert(rest.take(k - i) =~= x@.subrange(i as int, k as int));
                    assert(rest.skip(k - i + y@.len()) =~= x@.skip(next as int));
                    assert(out@ + replaced(x@.skip(next as int), y@, with@) =~= before + (
                    rest.take(k - i) + with@ + replaced(x@.skip(next as int), y@, with@)));
                }
                i = next;
            },
            None => {
                let part: String = string_of(slice_subrange(x.as_slice(), i, x.len()));
                assert(x@.skip(i as int) =~= x@.subrange(i as int, x@.len() as int));
                out.append(part.as_str());
                return out;
            },
        }
    }
}

/// Searching from a position is searching what follows it.
pub proof fn lemma_first_skip(s: Seq<char>, pat: Seq<char>, from: int)
    requires
        0 <= from <= s.len(),
    ensures
        match first_at(s, pat, from) {
            Some(i) => first_at(s.skip(from), pat, 0) == Some(i - from),
            None => first_at(s.skip(from), pat, 0) is None,
        },
{
    let t = s.skip(from);
    lemma_first_at(s, pat, from);
    lemma_first_at(t, pat, 0);
    assert forall|j: int| 0 <= j implies occurs_at(t, pat, j) == occurs_at(s, pat, from + j) by {
        if j + pat.len() <= t.len() {
            assert(t.subrange(j, j + pat.len()) =~= s.subrange(from + j, from + j + pat.len()));
        }
    }
    match first_at(s, pat, from) {
        Some(i) => {
            assert(occurs_at(t, pat, i - from));
        },
        None => {
            match first_at(t, pat, 0) {
                Some(j) => {
                    assert(occurs_at(s, pat, from + j));
                },
                None => {},
            }
        },
    }
}

/// No occurrence of `pat` in `a` followed by `b` lies across the seam.
pub open spec fn seam_is_clean(a: Seq<char>, b: Seq<char>, pat: Seq<char>) -> bool {
    forall|i: int| i < a.len() < i + pat.len() ==> !#[trigger] occurs_at(a + b, pat, i)
}

/// Replacing in two texts that follow one another is replacing in each, where
/// nothing is to be replaced across the seam.
pub proof fn lemma_replaced_concat(
    a: Seq<char>,
    b: Seq<char>,
    pat: Seq<char>,
    with: Seq<char>,
)
    requires
        seam_is_clean(a, b, pat),
        pat.len() > 0,
    ensures
        replaced(a + b, pat, with) == replaced(a, pat, with) + replaced(b, pat, with),
    decreases a.len(),
{
    let s = a + b;
    let p = pat.len() as int;
    lemma_first_at(s, pat, 0);
    lemma_first_at(a, pat, 0);
    lemma_first_at(b, pat, 0);
    assert forall|i: int| 0 <= i && i + p <= a.len() implies occurs_at(s, pat, i) == occurs_at(
        a,
        pat,
        i,
    ) by {
        assert(s.subrange(i, i + p) =~= a.subrange(i, i + p));
    }
    assert forall|i: int| 0 <= i implies occurs_at(s, pat, a.len() + i) == occurs_at(
        b,
        pat,
        i,
    ) by {
        if i + p <= b.len() {
            assert(s.subrange(a.len() + i, a.len() + i + p) =~= b.subrange(i, i + p));
        }
    }
    match first_at(a, pat, 0) {
        Some(f) => {
            assert(occurs_at(s, pat, f));
            match first_at(s, pat, 0) {
                Some(g) => {
                    if g < f {
                        assert(occurs_at(a, pat, g));
                    }
                },
                None => {},
            }
            let rest = a.skip(f + p);
            assert(s.skip(f + p) =~= rest + b);
            assert forall|i: int| i < rest.len() < i + p implies !#[trigger] occurs_at(
                rest + b,
                pat,
                i,
            ) by {
                if occurs_at(rest + b, pat, i) {
                    assert((rest + b).subrange(i, i + p) =~= s.subrange(
                        f + p + i,
                        f + p + i + p,
                    ));
                    assert(occurs_at(s, pat, f + p + i));
                }
            }
            lemma_replaced_concat(rest, b, pat, with);
            assert(s.take(f) =~= a.take(f));
            assert(replaced(s, pat, with) =~= replaced(a, pat, with) + replaced(b, pat, with));
        },
        None => {
            match first_at(s, pat, 0) {
                Some(g) => {
                    assert(g >= a.len()) by {
                        if g < a.len() {
                            if g + p <= a.len() {
                                assert(occurs_at(a, pat, g));
                            }
                        }
                    }
                    let h = g - a.len();
                    assert(occurs_at(b, pat, h));
                    match first_at(b, pat, 0) {
                        Some(k) => {
                            assert(occurs_at(s, pat, a.len() + k));
                        },
                        None => {},
                    }
                    assert(first_at(b, pat, 0) == Some(h));
                    assert(s.take(g) =~= a + b.take(h));
                    assert(s.skip(g + p) =~= b.skip(h + p));
                },
                None => {
                    match first_at(b, pat, 0) {
                        Some(k) => {
                            assert(occurs_at(s, pat, a.len() + k));
                        },
                        None => {},
                    }
                },
            }
            assert(replaced(s, pat, with) =~= a + replaced(b, pat, with));
        },
    }
}

/// What does not occur is not replaced.
pub proof fn lemma_nothing_to_replace(s: Seq<char>, pat: Seq<char>, with: Seq<char>)
    requires
        !has_text(s, pat),
    ensures
        replaced(s, pat, with) == s,
{
    lemma_first_at(s, pat, 0);
}

/// The first position of `c` in `chars` from `from` on.
pub fn find_char(chars: &[char], c: char, from: usize) -> (r: Option<usize>)
    requires
        from <= chars@.len(),
    ensures
        match r {
            Some(i) => {
                &&& first_at(chars@, seq![c], from as int) == Some(i as int)
                &&& from <= i < chars@.len()
                &&& chars@[i as int] == c
                &&& forall|j: int| from <= j < i ==> chars@[j] != c
            },
            None => {
                &&& first_at(chars@, seq![c], from as int) is None
                &&& forall|j: int| from <= j < chars@.len() ==> chars@[j] != c
            },
        },
{
    let mut pat: Vec<char> = Vec::new();
    pat.push(c);
    proof {
        assert(pat@ =~= seq![c]);
        lemma_first_at(chars@, pat@, from as int);
        assert forall|j: int| 0 <= j < chars@.len() implies occurs_at(chars@, seq![c], j) == (
        chars@[j] == c) by {
            if chars@[j] == c {
                assert(chars@.subrange(j, j + 1) =~= seq![c]);
            }
            if occurs_at(chars@, seq![c], j) {
                assert(chars@.subrange(j, j + 1)[0] == c);
            }
        }
    }
    find_from(chars, pat.as_slice(), from)
}

/// Where the line of `chars` that starts at `from` ends.
pub fn end_of_line(chars: &[char], from: usize) -> (r: usize)
    requires
        from <= chars@.len(),
    ensures
        r == line_end(chars@, from as int),
        from <= r <= chars@.len(),
        from < chars@.len() ==> from < r,
{
    let n: usize = chars.len();
    match find_char(chars, '\n', from) {
        Some(i) => i + 1,
        None => n,
    }
}

/// Line ends seen from a later start.
pub proof fn lemma_line_end_skip(s: Seq<char>, from: int)
    requires
        0 <= from <= s.len(),
    ensures
        line_end(s, from) == from + line_end(s.skip(from), 0),
{
    lemma_first_skip(s, seq!['\n'], from);
}

/// The pieces of `s` between the occurrences of `sep`.
pub fn split(s: &str, sep: char) -> (out: Vec<String>)
    ensures
        views(out@) == split_on(s@, sep),
{
    let x: Vec<char> = chars_of(s);
    let n: usize = x.len();
    let mut out: Vec<String> = Vec::new();
    let mut at: usize = 0;
    proof {
        assert(x@.skip(0) =~= x@);
        assert(views(out@) + split_on(x@, sep) =~= split_on(x@, sep));
    }
    loop
        invariant
            at <= x@.len(),
            n == x@.len(),
            x@ == s@,
            views(out@) + split_on(x@.skip(at as int), sep) == split_on(s@, sep),
        decreases x@.len() - at,
    {
        let ghost before = views(out@);
        let ghost rest = x@.skip(at as int);
        proof {
            lemma_first_skip(x@, seq![sep], at as int);
        }
        match find_char(x.as_slice(), sep, at) {
            Some(i) => {
                let piece: String = string_of(slice_subrange(x.as_slice(), at, i));
                proof {
                    assert(rest.take(i - at) =~= piece@);
                    assert(rest.skip(i - at + 1) =~= x@.skip(i + 1));
                }
                let ghost v = piece@;
                out.push(piece);
                proof {
                    assert(views(out@) =~= before.push(v));
                    assert(before + (seq![v] + split_on(x@.skip(i + 1), sep)) =~= before.push(v)
                        + split_on(x@.skip(i + 1), sep));
                }
                at = i + 1;
            },
            None => {
                let piece: String = string_of(slice_subrange(x.as_slice(), at, x.len()));
                assert(rest =~= piece@);
                let ghost v = piece@;
                out.push(piece);
                assert(views(out@) =~= before + seq![v]);
                return out;
            },
        }
    }
}

/// The lines of `s`.
pub fn lines(s: &str) -> (out: Vec<String>)
    ensures
        views(out@) == lines_of(s@),
{
    let x: Vec<char> = chars_of(s);
    let mut out: Vec<String> = Vec::new();
    let mut at: usize = 0;
    proof {
        assert(x@.skip(0) =~= x@);
        assert(views(out@) + lines_of(x@) =~= lines_of(x@));
    }
    while at < x.len()
        invariant
            at <= x@.len(),
            x@ == s@,
            views(out@) + lines_of(x@.skip(at as int)) == lines_of(s@),
        decreases x@.len() - at,
    {
        let ghost before = views(out@);
        let ghost rest = x@.skip(at as int);
        let end: usize = end_of_line(x.as_slice(), at);
        proof {
            lemma_line_end_skip(x@, at as int);
            assert(rest.take(end - at) =~= x@.subrange(at as int, end as int));
            assert(rest.skip(end - at) =~= x@.skip(end as int));
        }
        let ghost raw = x@.subrange(at as int, end as int);
        let mut stop: usize = end;
        if x[end - 1] == '\n' {
            stop = end - 1;
            if stop > at && x[stop - 1] == '\r' {
                stop = stop - 1;
            }
        }
        let line: String = string_of(slice_subrange(x.as_slice(), at, stop));
        assert(line@ =~= bare_line(raw));
        let ghost v = line@;
        out.push(line);
        proof {
            assert(views(out@) =~= before.push(v));
            assert(before + (seq![v] + lines_of(x@.skip(end as int))) =~= before.push(v)
                + lines_of(x@.skip(end as int)));
        }
        at = end;
    }
    assert(x@.skip(at as int) =~= Seq::<char>::empty());
    assert(views(out@) + Seq::<Seq<char>>::empty() =~= views(out@));
    out
}

/// The texts one after another, with `sep` between neighbours.
pub fn join(parts: &Vec<String>, sep: &str) -> (out: String)
    ensures
        out@ == joined(views(parts@), sep@),
{
    let ghost all = views(parts@);
    let mut out: String = String::new();
    let mut i: usize = 0;
    assert(all.take(0) =~= Seq::<Seq<char>>::empty());
    while i < parts.len()
        invariant
            i <= parts@.len(),
            all == views(parts@),
            out@ == joined(all.take(i as int), sep@),
        decreases parts@.len() - i,
    {
        proof {
            assert(all.take(i + 1).drop_last() =~= all.take(i as int));
            assert(all.take(i + 1).last() == parts@[i as int]@);
        }
        if i > 0 {
            out.append(sep);
        }
        let ghost before = out@;
        out.append(parts[i].as_str());
        proof {
            if i == 0 {
                assert(out@ =~= parts@[0]@);
            }
        }
        i = i + 1;
    }
    assert(all.take(i as int) =~= all);
    out
}

/// The texts, each where it first stands, are the same texts, each once.
pub proof fn lemma_firsts_contains(list: Seq<Seq<char>>)
    ensures
        forall|v: Seq<char>| #[trigger] firsts(list).contains(v) <==> list.contains(v),
        firsts(list).no_duplicates(),
    decreases list.len(),
{
    if list.len() > 0 {
        lemma_firsts_contains(list.drop_last());
        lemma_push_contains(firsts(list.drop_last()), list.last());
        lemma_push_contains(list.drop_last(), list.last());
        assert(list =~= list.drop_last().push(list.last()));
    }
}

/// Appends `s` unless it is there already.
pub fn push_new(list: &mut Vec<String>, s: String)
    ensures
        views(final(list)@) == if views(old(list)@).contains(s@) {
            views(old(list)@)
        } else {
            views(old(list)@).push(s@)
        },
{
    let ghost before = views(list@);
    if !holds(list, s.as_str()) {
        let ghost v = s@;
        list.push(s);
        assert(views(list@) =~= before.push(v));
    }
}

// ─── Building ───────────────────────────────────────────────────────────────

/// `a` followed by `b`.
pub fn plus(a: &str, b: &str) -> (out: String)
    ensures
        out@ == a@ + b@,
{
    let mut out: String = a.to_owned();
    out.append(b);
    out
}

/// `n` in decimal.
pub fn decimal(n: u128) -> (out: String)
    ensures
        out@ == decimal_of(n as nat),
    decreases n,
{
    if n < 10 {
        let mut out: String = String::new();
        out.push((n as u8 + 48) as char);
        assert(out@ =~= decimal_of(n as nat));
        out
    } else {
        let mut out: String = decimal(n / 10);
        out.push(((n % 10) as u8 + 48) as char);
        out
    }
}

/// `i` in decimal.
pub fn signed_decimal(i: i64) -> (out: String)
    ensures
        out@ == int_text(i as int),
{
    if i < 0 {
        let mut out: String = String::new();
        out.push('-');
        let size: u128 = (0 - (i as i128)) as u128;
        let digits: String = decimal(size);
        out.append(digits.as_str());
        assert(out@ =~= seq!['-'] + decimal_of((-i) as nat));
        out
    } else {
        decimal(i as u128)
    }
}

// ─── Laws ───────────────────────────────────────────────────────────────────

proof fn lemma_joined_front(first: Seq<char>, rest: Seq<Seq<char>>, sep: Seq<char>)
    requires
        rest.len() > 0,
    ensures
        joined(seq![first] + rest, sep) == first + sep + joined(rest, sep),
    decreases rest.len(),
{
    let all = seq![first] + rest;
    assert(all.last() == rest.last());
    if rest.len() == 1 {
        assert(all.drop_last() =~= seq![first]);
        assert(joined(all.drop_last(), sep) == first);
    } else {
        assert(all.drop_last() =~= seq![first] + rest.drop_last());
        lemma_joined_front(first, rest.drop_last(), sep);
        assert(joined(all, sep) =~= first + sep + joined(rest, sep));
    }
}

/// Splitting loses nothing and leaves nothing to split: the pieces with the separator
/// between them are the text, and no piece holds the separator.
pub proof fn splitting_loses_nothing(s: Seq<char>, sep: char)
    ensures
        split_on(s, sep).len() > 0,
        joined(split_on(s, sep), seq![sep]) == s,
        forall|i: int|
            0 <= i < split_on(s, sep).len() ==> !(#[trigger] split_on(s, sep)[i]).contains(sep),
    decreases s.len(),
{
    let pat = seq![sep];
    lemma_first_at(s, pat, 0);
    match first_at(s, pat, 0) {
        Some(i) => {
            let (head, rest) = (s.take(i), s.skip(i + 1));
            assert(s[i] == sep) by {
                assert(s.subrange(i, i + 1)[0] == s[i]);
            }
            splitting_loses_nothing(rest, sep);
            let more = split_on(rest, sep);
            lemma_joined_front(head, more, pat);
            assert(head + pat + rest =~= s);
            assert(!head.contains(sep)) by {
                if head.contains(sep) {
                    let j = choose|j: int| 0 <= j < head.len() && head[j] == sep;
                    assert(s.subrange(j, j + 1) =~= pat);
                    assert(occurs_at(s, pat, j));
                }
            }
            let all = split_on(s, sep);
            assert(all == seq![head] + more);
            assert forall|k: int| 0 <= k < all.len() implies !(#[trigger] all[k]).contains(sep) by {
                if k > 0 {
                    assert(all[k] == more[k - 1]);
                }
            }
        },
        None => {
            let all = split_on(s, sep);
            assert(all == seq![s]);
            assert(!s.contains(sep)) by {
                if s.contains(sep) {
                    let j = choose|j: int| 0 <= j < s.len() && s[j] == sep;
                    assert(s.subrange(j, j + 1) =~= pat);
                    assert(occurs_at(s, pat, j));
                }
            }
        },
    }
}

/// Trimming takes the white space off both ends and nothing else.
pub proof fn trimming_takes_the_space_off(before: Seq<char>, s: Seq<char>, after: Seq<char>)
    requires
        forall|i: int| 0 <= i < before.len() ==> is_white_space(#[trigger] before[i]),
        forall|i: int| 0 <= i < after.len() ==> is_white_space(#[trigger] after[i]),
        s.len() > 0,
        !is_white_space(s[0]),
        !is_white_space(s.last()),
    ensures
        trimmed(before + s + after) == s,
        trimmed(before + after).len() == 0,
{
    let p = |c: char| is_white_space(c);
    let all = before + s + after;
    let n = before.len() as int;
    assert forall|j: int| 0 <= j < n implies p(all[j]) by {
        assert(all[j] == before[j]);
    }
    assert(all[n] == s[0]);
    lemma_trim_start(all, p, n);
    let mid = all.skip(n);
    assert(mid =~= s + after);
    let m = s.len() as int;
    assert forall|j: int| m <= j < mid.len() implies p(mid[j]) by {
        assert(mid[j] == after[j - m]);
    }
    assert(mid[m - 1] == s.last());
    lemma_trim_end(mid, p, m);
    assert(mid.take(m) =~= s);
    let blank = before + after;
    assert forall|j: int| 0 <= j < blank.len() implies p(blank[j]) by {
        if j < n {
            assert(blank[j] == before[j]);
        } else {
            assert(blank[j] == after[j - n]);
        }
    }
    lemma_trim_start(blank, p, blank.len() as int);
    assert(blank.skip(blank.len() as int) =~= Seq::<char>::empty());
}

/// A text's lines are what stands between its line feeds: a line in front of a text is
/// its first line, without the line feed and a carriage return before that, and the
/// lines of the text follow.
pub proof fn a_line_is_a_line(line: Seq<char>, rest: Seq<char>)
    requires
        !line.contains('\n'),
    ensures
        lines_of(line + seq!['\n'] + rest) == seq![
            if line.len() > 0 && line.last() == '\r' {
                line.drop_last()
            } else {
                line
            },
        ] + lines_of(rest),
        line.len() > 0 ==> lines_of(line) == seq![line],
        lines_of(Seq::<char>::empty()).len() == 0,
{
    let pat = seq!['\n'];
    let s = line + pat + rest;
    let n = line.len() as int;
    assert forall|j: int| 0 <= j < n implies !occurs_at(s, pat, j) && !occurs_at(line, pat, j) by {
        assert(s[j] == line[j]);
        assert(line.contains(line[j]));
        assert(s.subrange(j, j + 1)[0] == s[j]);
        assert(line.subrange(j, j + 1)[0] == line[j]);
    }
    assert(s.subrange(n, n + 1) =~= pat);
    assert(occurs_at(s, pat, n));
    lemma_first_at(s, pat, 0);
    lemma_first_at(line, pat, 0);
    assert(first_at(s, pat, 0) == Some(n));
    assert(s.take(n + 1) =~= line + pat);
    assert((line + pat).drop_last() =~= line);
    assert(s.skip(n + 1) =~= rest);
    assert(lines_of(s) == seq![bare_line(s.take(n + 1))] + lines_of(s.skip(n + 1)));
    if line.len() > 0 {
        assert(first_at(line, pat, 0) is None);
        assert(line.take(n) =~= line);
        assert(line.skip(n) =~= Seq::<char>::empty());
        assert(line.last() != '\n') by {
            assert(line.contains(line[n - 1]));
        }
        assert(line_end(line, 0) == n);
        assert(bare_line(line) == line);
        let none = Seq::<char>::empty();
        assert(lines_of(none) =~= Seq::<Seq<char>>::empty());
        assert(lines_of(line) == seq![bare_line(line.take(n))] + lines_of(line.skip(n)));
        assert(line.skip(n) == none);
        assert(lines_of(line) =~= seq![line]);
    }
}

/// The texts, each once, come in the order in which they first stand: what follows
/// changes nothing of what came before, and a text that was there adds nothing.
pub proof fn firsts_keep_their_order(list: Seq<Seq<char>>, v: Seq<char>)
    ensures
        list.contains(v) ==> firsts(list.push(v)) == firsts(list),
        !list.contains(v) ==> firsts(list.push(v)) == firsts(list).push(v),
        firsts(Seq::<Seq<char>>::empty()).len() == 0,
{
    lemma_firsts_contains(list);
    assert(list.push(v).drop_last() =~= list);
}

/// Which characters are what, and what small letters are made of: the ASCII capitals
/// become the letters thirty-two further on, and every other character stays.
pub proof fn classes_of_characters(c: char)
    ensures
        is_alphanumeric(c) <==> 'a' <= c <= 'z' || 'A' <= c <= 'Z' || '0' <= c <= '9',
        is_hex_digit(c) <==> 'a' <= c <= 'f' || 'A' <= c <= 'F' || '0' <= c <= '9',
        'A' <= c <= 'Z' ==> lower_char(c) as int == c as int + 32,
        !('A' <= c <= 'Z') ==> lower_char(c) == c,
        lower(seq![c]) == seq![lower_char(c)],
{
    assert(lower(seq![c]) =~= seq![lower_char(c)]);
}

}
