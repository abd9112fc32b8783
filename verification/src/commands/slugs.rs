//! Slugs: the names that posts and series have in a URL.

use crate::db::{has_slug, series_has_slug, series_slug_taken, slug_taken, Store};
use crate::media_keys::{is_slug_char, safe_slug};
use crate::text::{
    alphanumeric, chars_of, decimal, decimal_of, holds, int_text, is_alphanumeric, lemma_trim_end,
    lemma_trim_start, lower_char, plus, signed_decimal, to_lower_char, trim_end_by, trim_end_char,
    trim_start_by, trim_start_char, views,
};
use vstd::prelude::*;
use vstd::string::StringExecFns;

verus! {

// ─── Making a slug ──────────────────────────────────────────────────────────

/// Letters and digits in small letters, and each run of anything else as one
/// hyphen.
pub open spec fn hyphenated(s: Seq<char>) -> Seq<char>
    decreases s.len(),
{
    if s.len() == 0 {
        Seq::empty()
    } else {
        let before = hyphenated(s.drop_last());
        if is_alphanumeric(s.last()) {
            before.push(lower_char(s.last()))
        } else if before.len() > 0 && before.last() == '-' {
            before
        } else {
            before.push('-')
        }
    }
}

/// A text as a slug: [`hyphenated`], without a hyphen at either end.
pub open spec fn slug_of(s: Seq<char>) -> Seq<char> {
    trim_end_by(trim_start_by(hyphenated(s), |c: char| c == '-'), |c: char| c == '-')
}

/// Turns any text into a slug: small letters and digits, everything else as
/// single hyphens, none of those at either end.
pub fn slugify(input: &str) -> (out: String)
    ensures
        out@ == slug_of(input@),
{
    let x: Vec<char> = chars_of(input);
    let mut slug: String = String::new();
    let mut ends_in_hyphen: bool = false;
    let mut i: usize = 0;
    assert(slug@ =~= hyphenated(x@.take(0)));
    while i < x.len()
        invariant
            i <= x@.len(),
            slug@ == hyphenated(x@.take(i as int)),
            ends_in_hyphen == (slug@.len() > 0 && slug@.last() == '-'),
        decreases x@.len() - i,
    {
        let c: char = x[i];
        proof {
            assert(x@.take(i + 1).drop_last() =~= x@.take(i as int));
            assert(x@.take(i + 1).last() == c);
        }
        if alphanumeric(c) {
            slug.push(to_lower_char(c));
            ends_in_hyphen = false;
        } else if !ends_in_hyphen {
            slug.push('-');
            ends_in_hyphen = true;
        }
        i = i + 1;
    }
    assert(x@.take(i as int) =~= x@);
    trim_end_char(trim_start_char(slug.as_str(), '-'), '-').to_owned()
}

// ─── Laws of slugs ──────────────────────────────────────────────────────────

/// A small letter, a digit or a hyphen.
pub open spec fn is_slug_letter(c: char) -> bool {
    'a' <= c <= 'z' || '0' <= c <= '9' || c == '-'
}

/// The shape of a slug: small letters, digits and hyphens, no hyphen at either
/// end, and no two next to each other.
pub open spec fn is_slug_shaped(s: Seq<char>) -> bool {
    &&& forall|i: int| 0 <= i < s.len() ==> is_slug_letter(#[trigger] s[i])
    &&& s.len() > 0 ==> s[0] != '-' && s.last() != '-'
    &&& forall|i: int|
        #![trigger s[i]]
        0 <= i < s.len() - 1 && s[i] == '-' ==> s[i + 1] != '-'
}

proof fn lemma_hyphenated(s: Seq<char>)
    ensures
        forall|i: int|
            0 <= i < hyphenated(s).len() ==> is_slug_letter(#[trigger] hyphenated(s)[i]),
        forall|i: int|
            #![trigger hyphenated(s)[i]]
            0 <= i < hyphenated(s).len() - 1 && hyphenated(s)[i] == '-' ==> hyphenated(s)[i + 1]
                != '-',
    decreases s.len(),
{
    if s.len() > 0 {
        lemma_hyphenated(s.drop_last());
        let b = hyphenated(s.drop_last());
        let h = hyphenated(s);
        assert forall|i: int| 0 <= i < h.len() implies is_slug_letter(#[trigger] h[i]) by {
            if i < b.len() {
                assert(h[i] == b[i]);
            }
        }
        assert forall|i: int|
            #![trigger h[i]]
            0 <= i < h.len() - 1 && h[i] == '-' implies h[i + 1] != '-' by {
            assert(h[i] == b[i]);
            if i + 1 < b.len() {
                assert(h[i + 1] == b[i + 1]);
            }
        }
    }
}

/// What trimming hyphens does, by positions.
proof fn lemma_trim_hyphens(s: Seq<char>) -> (r: (int, int))
    ensures
        0 <= r.0 <= r.1 <= s.len(),
        trim_end_by(trim_start_by(s, |c: char| c == '-'), |c: char| c == '-') == s.subrange(
            r.0,
            r.1,
        ),
        r.0 < r.1 ==> s[r.0] != '-' && s[r.1 - 1] != '-',
        forall|j: int| 0 <= j < r.0 ==> s[j] == '-',
        forall|j: int| r.1 <= j < s.len() ==> s[j] == '-',
{
    let p = |c: char| c == '-';
    let a = lead(s);
    lemma_lead(s);
    lemma_trim_start(s, p, a);
    let m = s.skip(a);
    let b = trail(m);
    lemma_trail(m);
    lemma_trim_end(m, p, b);
    assert(m.take(b) =~= s.subrange(a, a + b));
    assert forall|j: int| a + b <= j < s.len() implies s[j] == '-' by {
        assert(m[j - a] == s[j]);
    }
    if b > 0 {
        assert(m[0] == s[a]);
        assert(m[b - 1] == s[a + b - 1]);
    }
    (a, a + b)
}

/// How many hyphens `s` starts with.
spec fn lead(s: Seq<char>) -> int
    decreases s.len(),
{
    if s.len() > 0 && s[0] == '-' {
        1 + lead(s.drop_first())
    } else {
        0
    }
}

proof fn lemma_lead(s: Seq<char>)
    ensures
        0 <= lead(s) <= s.len(),
        forall|j: int| 0 <= j < lead(s) ==> s[j] == '-',
        lead(s) < s.len() ==> s[lead(s)] != '-',
    decreases s.len(),
{
    if s.len() > 0 && s[0] == '-' {
        lemma_lead(s.drop_first());
        assert forall|j: int| 0 <= j < lead(s) implies s[j] == '-' by {
            if j > 0 {
                assert(s.drop_first()[j - 1] == s[j]);
            }
        }
    }
}

/// Where the hyphens at the end of `s` start.
spec fn trail(s: Seq<char>) -> int
    decreases s.len(),
{
    if s.len() > 0 && s.last() == '-' {
        trail(s.drop_last())
    } else {
        s.len() as int
    }
}

proof fn lemma_trail(s: Seq<char>)
    ensures
        0 <= trail(s) <= s.len(),
        forall|j: int| trail(s) <= j < s.len() ==> s[j] == '-',
        trail(s) > 0 ==> s[trail(s) - 1] != '-',
    decreases s.len(),
{
    if s.len() > 0 && s.last() == '-' {
        lemma_trail(s.drop_last());
        assert forall|j: int| trail(s) <= j < s.len() implies s[j] == '-' by {
            if j < s.len() - 1 {
                assert(s.drop_last()[j] == s[j]);
            }
        }
    }
}

/// Whatever the text, its slug has the shape of a slug, and one that is not
/// empty is safe in a path.
pub proof fn slugs_are_safe(s: Seq<char>)
    ensures
        is_slug_shaped(slug_of(s)),
        slug_of(s).len() > 0 ==> safe_slug(slug_of(s)),
{
    lemma_hyphenated(s);
    let h = hyphenated(s);
    let (a, b) = lemma_trim_hyphens(h);
    let r = slug_of(s);
    assert(r == h.subrange(a, b));
    assert forall|i: int| 0 <= i < r.len() implies is_slug_letter(#[trigger] r[i]) by {
        assert(r[i] == h[a + i]);
    }
    assert forall|i: int|
        #![trigger r[i]]
        0 <= i < r.len() - 1 && r[i] == '-' implies r[i + 1] != '-' by {
        assert(r[i] == h[a + i]);
        assert(r[i + 1] == h[a + i + 1]);
    }
    assert forall|i: int| 0 <= i < r.len() implies is_slug_char(#[trigger] r[i]) by {
        assert(is_slug_letter(r[i]));
    }
}

/// The ASCII letters and digits of a text in order, in small letters.
pub open spec fn letters_of(s: Seq<char>) -> Seq<char>
    decreases s.len(),
{
    if s.len() == 0 {
        Seq::empty()
    } else if is_alphanumeric(s.last()) {
        letters_of(s.drop_last()).push(lower_char(s.last()))
    } else {
        letters_of(s.drop_last())
    }
}

/// A text without its hyphens.
pub open spec fn without_hyphens(s: Seq<char>) -> Seq<char>
    decreases s.len(),
{
    if s.len() == 0 {
        Seq::empty()
    } else if s.last() != '-' {
        without_hyphens(s.drop_last()).push(s.last())
    } else {
        without_hyphens(s.drop_last())
    }
}

proof fn lemma_without_hyphens_concat(a: Seq<char>, b: Seq<char>)
    ensures
        without_hyphens(a + b) == without_hyphens(a) + without_hyphens(b),
    decreases b.len(),
{
    if b.len() == 0 {
        assert(a + b =~= a);
        assert(without_hyphens(a) + without_hyphens(b) =~= without_hyphens(a));
    } else {
        assert((a + b).drop_last() =~= a + b.drop_last());
        assert((a + b).last() == b.last());
        lemma_without_hyphens_concat(a, b.drop_last());
        assert(without_hyphens(a + b) =~= without_hyphens(a) + without_hyphens(b));
    }
}

proof fn lemma_only_hyphens(s: Seq<char>)
    requires
        forall|j: int| 0 <= j < s.len() ==> s[j] == '-',
    ensures
        without_hyphens(s) == Seq::<char>::empty(),
    decreases s.len(),
{
    if s.len() > 0 {
        assert(s.last() == '-');
        lemma_only_hyphens(s.drop_last());
    }
}

proof fn lemma_hyphenated_letters(s: Seq<char>)
    ensures
        without_hyphens(hyphenated(s)) == letters_of(s),
    decreases s.len(),
{
    if s.len() > 0 {
        lemma_hyphenated_letters(s.drop_last());
        let before = hyphenated(s.drop_last());
        let h = hyphenated(s);
        if is_alphanumeric(s.last()) {
            assert(h.drop_last() =~= before);
            assert(lower_char(s.last()) != '-');
        } else if !(before.len() > 0 && before.last() == '-') {
            assert(h.drop_last() =~= before);
        }
    }
}

/// A slug keeps what a text says: without its hyphens it is the text's ASCII letters
/// and digits in order, in small letters.
pub proof fn a_slug_keeps_the_letters(s: Seq<char>)
    ensures
        without_hyphens(slug_of(s)) == letters_of(s),
{
    lemma_hyphenated_letters(s);
    let h = hyphenated(s);
    let (a, b) = lemma_trim_hyphens(h);
    let (x, m, y) = (h.take(a), h.subrange(a, b), h.skip(b));
    assert(h =~= x + m + y);
    lemma_without_hyphens_concat(x + m, y);
    lemma_without_hyphens_concat(x, m);
    lemma_only_hyphens(x);
    lemma_only_hyphens(y);
    assert(without_hyphens(h) =~= without_hyphens(m));
}

/// What has the shape of a slug is left as it is.
proof fn lemma_shaped_hyphenated(s: Seq<char>)
    requires
        forall|i: int| 0 <= i < s.len() ==> is_slug_letter(#[trigger] s[i]),
        forall|i: int|
            #![trigger s[i]]
            0 <= i < s.len() - 1 && s[i] == '-' ==> s[i + 1] != '-',
    ensures
        hyphenated(s) == s,
    decreases s.len(),
{
    if s.len() > 0 {
        let d = s.drop_last();
        assert forall|i: int| 0 <= i < d.len() implies is_slug_letter(#[trigger] d[i]) by {
            assert(d[i] == s[i]);
        }
        assert forall|i: int|
            #![trigger d[i]]
            0 <= i < d.len() - 1 && d[i] == '-' implies d[i + 1] != '-' by {
            assert(d[i] == s[i]);
            assert(d[i + 1] == s[i + 1]);
        }
        lemma_shaped_hyphenated(d);
        assert(is_slug_letter(s[s.len() - 1]));
        if d.len() > 0 {
            assert(d.last() == s[s.len() - 2]);
        }
        assert(hyphenated(s) =~= s);
    } else {
        assert(hyphenated(s) =~= s);
    }
}

/// Making a slug of a slug changes nothing.
pub proof fn slugs_stay_slugs(s: Seq<char>)
    ensures
        slug_of(slug_of(s)) == slug_of(s),
{
    slugs_are_safe(s);
    let r = slug_of(s);
    lemma_shaped_hyphenated(r);
    let p = |c: char| c == '-';
    lemma_trim_start(r, p, 0);
    assert(r.skip(0) =~= r);
    lemma_trim_end(r, p, r.len() as int);
    assert(r.take(r.len() as int) =~= r);
}

// ─── A slug that nobody has ─────────────────────────────────────────────────

/// `base` with a number behind it.
pub open spec fn numbered(base: Seq<char>, n: nat) -> Seq<char> {
    base + "-"@ + decimal_of(n)
}

/// `out` is `base` where that is free, and otherwise `base` with the first
/// number from 2 on that is.
pub open spec fn first_free(
    taken: spec_fn(Seq<char>) -> bool,
    base: Seq<char>,
    out: Seq<char>,
) -> bool {
    if !taken(base) {
        out == base
    } else {
        exists|n: nat|
            n >= 2 && out == #[trigger] numbered(base, n) && !taken(out) && forall|k: nat|
                2 <= k < n ==> taken(#[trigger] numbered(base, k))
    }
}

/// A number's digits are its own.
pub proof fn lemma_decimal_injective(a: nat, b: nat)
    requires
        decimal_of(a) == decimal_of(b),
    ensures
        a == b,
    decreases a,
{
    lemma_decimal_len(a);
    lemma_decimal_len(b);
    let (x, y) = (decimal_of(a), decimal_of(b));
    if a < 10 {
        assert(b < 10);
        assert(x[0] == (a + 48) as char);
        assert(y[0] == (b + 48) as char);
        assert((a + 48) as char as int == a + 48);
        assert((b + 48) as char as int == b + 48);
    } else {
        assert(b >= 10);
        assert(x.last() == (a % 10 + 48) as char);
        assert(y.last() == (b % 10 + 48) as char);
        assert((a % 10 + 48) as char as int == a % 10 + 48);
        assert((b % 10 + 48) as char as int == b % 10 + 48);
        assert(x.drop_last() =~= decimal_of(a / 10));
        assert(y.drop_last() =~= decimal_of(b / 10));
        lemma_decimal_injective(a / 10, b / 10);
    }
}

proof fn lemma_decimal_len(n: nat)
    ensures
        decimal_of(n).len() >= 1,
        n < 10 ==> decimal_of(n).len() == 1,
        n >= 10 ==> decimal_of(n).len() >= 2,
    decreases n,
{
    if n >= 10 {
        lemma_decimal_len(n / 10);
    }
}

proof fn lemma_numbered_injective(base: Seq<char>, a: nat, b: nat)
    requires
        numbered(base, a) == numbered(base, b),
    ensures
        a == b,
{
    let n = (base + "-"@).len() as int;
    assert(numbered(base, a).skip(n) =~= decimal_of(a));
    assert(numbered(base, b).skip(n) =~= decimal_of(b));
    lemma_decimal_injective(a, b);
}

/// The first of `base`, `base-2`, `base-3` and so on that is not in `slugs`.
/// The search ends: every candidate that is taken is another entry.
fn free_slug(slugs: &Vec<String>, base: &str) -> (out: String)
    ensures
        first_free(|s: Seq<char>| views(slugs@).contains(s), base@, out@),
{
    let ghost taken = |s: Seq<char>| views(slugs@).contains(s);
    if !holds(slugs, base) {
        return base.to_owned();
    }
    let count: usize = slugs.len();
    let mut n: u128 = 2;
    let ghost mut used: Set<int> = Set::empty();
    loop
        invariant
            2 <= n,
            count == slugs@.len(),
            taken == (|s: Seq<char>| views(slugs@).contains(s)),
            taken(base@),
            used.finite(),
            used.len() == n - 2,
            used.subset_of(vstd::set_lib::set_int_range(0, count as int)),
            forall|k: nat| 2 <= k < n ==> taken(#[trigger] numbered(base@, k)),
            forall|i: int|
                used.contains(i) ==> exists|k: nat|
                    2 <= k < n && #[trigger] views(slugs@)[i] == numbered(base@, k),
        decreases count + 3 - n,
    {
        proof {
            vstd::set_lib::lemma_int_range(0, count as int);
            vstd::set_lib::lemma_len_subset(
                used,
                vstd::set_lib::set_int_range(0, count as int),
            );
        }
        let digits: String = decimal(n);
        let mut candidate: String = base.to_owned();
        candidate.append("-");
        candidate.append(digits.as_str());
        assert(candidate@ == numbered(base@, n as nat));
        if !holds(slugs, candidate.as_str()) {
            assert(!taken(candidate@));
            return candidate;
        }
        proof {
            let i = choose|i: int|
                0 <= i < views(slugs@).len() && views(slugs@)[i] == candidate@;
            if used.contains(i) {
                let k = choose|k: nat|
                    2 <= k < n && #[trigger] views(slugs@)[i] == numbered(base@, k);
                lemma_numbered_injective(base@, k, n as nat);
            }
            let more = used.insert(i);
            assert forall|j: int| more.contains(j) implies exists|k: nat|
                2 <= k < n + 1 && #[trigger] views(slugs@)[j] == numbered(base@, k) by {
                if used.contains(j) {
                    let k = choose|k: nat|
                        2 <= k < n && #[trigger] views(slugs@)[j] == numbered(base@, k);
                    assert(views(slugs@)[j] == numbered(base@, k));
                } else {
                    assert(views(slugs@)[j] == numbered(base@, n as nat));
                }
            }
            assert forall|k: nat| 2 <= k < n + 1 implies taken(
                #[trigger] numbered(base@, k),
            ) by {
                if k == n {
                    assert(taken(candidate@));
                }
            }
            used = more;
            vstd::set_lib::lemma_int_range(0, count as int);
            vstd::set_lib::lemma_len_subset(
                used,
                vstd::set_lib::set_int_range(0, count as int),
            );
        }
        n = n + 1;
    }
}

/// A slug that no post has: `base`, else `base-2`, `base-3`, and so on. The
/// trash keeps its posts' slugs.
pub fn unique_slug(db: &Store, base: &str) -> (out: String)
    requires
        db.wf(),
    ensures
        first_free(|s: Seq<char>| slug_taken(db@.posts, s), base@, out@),
{
    let ghost listed = db.posts.listed();
    let mut slugs: Vec<String> = Vec::new();
    let mut i: usize = 0;
    while i < db.posts.len()
        invariant
            i <= listed.len(),
            listed == db.posts.listed(),
            slugs@.len() == i,
            forall|j: int| 0 <= j < i ==> views(slugs@)[j] == (#[trigger] listed[j]).slug,
        decreases listed.len() - i,
    {
        let ghost before = views(slugs@);
        slugs.push(db.posts.row(i).slug.clone());
        assert(views(slugs@) =~= before.push(listed[i as int].slug));
        i = i + 1;
    }
    let out: String = free_slug(&slugs, base);
    proof {
        db.posts.lemma_listed();
        let a = |s: Seq<char>| views(slugs@).contains(s);
        let b = |s: Seq<char>| slug_taken(db@.posts, s);
        assert forall|s: Seq<char>| #[trigger] a(s) == b(s) by {
            if a(s) {
                let j = choose|j: int| 0 <= j < views(slugs@).len() && views(slugs@)[j] == s;
                assert(listed.contains(listed[j]));
                assert(has_slug(db@.posts, listed[j].id, s));
            }
            if b(s) {
                let k = choose|k: i32| has_slug(db@.posts, k, s);
                assert(listed.contains(db@.posts[k]));
                let j = choose|j: int| 0 <= j < listed.len() && listed[j] == db@.posts[k];
                assert(views(slugs@)[j] == s);
            }
        }
        lemma_first_free_same(a, b, base@, out@);
    }
    out
}

/// A slug that no series has, on the same rule.
pub fn unique_series_slug(db: &Store, base: &str) -> (out: String)
    requires
        db.wf(),
    ensures
        first_free(|s: Seq<char>| series_slug_taken(db@.series, s), base@, out@),
{
    let ghost listed = db.series.listed();
    let mut slugs: Vec<String> = Vec::new();
    let mut i: usize = 0;
    while i < db.series.len()
        invariant
            i <= listed.len(),
            listed == db.series.listed(),
            slugs@.len() == i,
            forall|j: int| 0 <= j < i ==> views(slugs@)[j] == (#[trigger] listed[j]).slug,
        decreases listed.len() - i,
    {
        let ghost before = views(slugs@);
        slugs.push(db.series.row(i).slug.clone());
        assert(views(slugs@) =~= before.push(listed[i as int].slug));
        i = i + 1;
    }
    let out: String = free_slug(&slugs, base);
    proof {
        db.series.lemma_listed();
        let a = |s: Seq<char>| views(slugs@).contains(s);
        let b = |s: Seq<char>| series_slug_taken(db@.series, s);
        assert forall|s: Seq<char>| #[trigger] a(s) == b(s) by {
            if a(s) {
                let j = choose|j: int| 0 <= j < views(slugs@).len() && views(slugs@)[j] == s;
                assert(listed.contains(listed[j]));
                assert(series_has_slug(db@.series, listed[j].id, s));
            }
            if b(s) {
                let k = choose|k: i32| series_has_slug(db@.series, k, s);
                assert(listed.contains(db@.series[k]));
                let j = choose|j: int| 0 <= j < listed.len() && listed[j] == db@.series[k];
                assert(views(slugs@)[j] == s);
            }
        }
        lemma_first_free_same(a, b, base@, out@);
    }
    out
}

proof fn lemma_first_free_same(
    a: spec_fn(Seq<char>) -> bool,
    b: spec_fn(Seq<char>) -> bool,
    base: Seq<char>,
    out: Seq<char>,
)
    requires
        forall|s: Seq<char>| #[trigger] a(s) == b(s),
        first_free(a, base, out),
    ensures
        first_free(b, base, out),
{
    assert(a(base) == b(base));
    if a(base) {
        let n = choose|n: nat|
            n >= 2 && out == #[trigger] numbered(base, n) && !a(out) && forall|k: nat|
                2 <= k < n ==> a(#[trigger] numbered(base, k));
        assert(a(out) == b(out));
        assert forall|k: nat| 2 <= k < n implies b(#[trigger] numbered(base, k)) by {
            assert(a(numbered(base, k)) == b(numbered(base, k)));
        }
        assert(out == numbered(base, n));
    }
}

/// A free slug is free, and there is only one that is found.
pub proof fn a_free_slug_is_free(
    taken: spec_fn(Seq<char>) -> bool,
    base: Seq<char>,
    a: Seq<char>,
    b: Seq<char>,
)
    requires
        first_free(taken, base, a),
        first_free(taken, base, b),
    ensures
        !taken(a),
        a == b,
{
    if taken(base) {
        let n = choose|n: nat|
            n >= 2 && a == #[trigger] numbered(base, n) && !taken(a) && forall|k: nat|
                2 <= k < n ==> taken(#[trigger] numbered(base, k));
        let m = choose|n: nat|
            n >= 2 && b == #[trigger] numbered(base, n) && !taken(b) && forall|k: nat|
                2 <= k < n ==> taken(#[trigger] numbered(base, k));
        if n < m {
            assert(taken(numbered(base, n)));
        }
        if m < n {
            assert(taken(numbered(base, m)));
        }
    }
}

/// The slug for a text, or one made of the time where the text yields none.
pub open spec fn slug_or(text: Seq<char>, prefix: Seq<char>, now: i64) -> Seq<char> {
    if slug_of(text).len() == 0 {
        prefix + int_text(now as int)
    } else {
        slug_of(text)
    }
}

/// The slug for a text, or `prefix` and the time where the text yields none, as
/// a title without a Latin letter or a digit does.
pub fn slug_for(text: &str, prefix: &str, now: i64) -> (out: String)
    ensures
        out@ == slug_or(text@, prefix@, now),
{
    let slug: String = slugify(text);
    if slug.as_str().is_empty() {
        plus(prefix, signed_decimal(now).as_str())
    } else {
        slug
    }
}

/// A slug that is free is taken as it is; one that is not gets the first number from 2
/// on that is free.
pub proof fn which_slug_is_taken(
    taken: spec_fn(Seq<char>) -> bool,
    base: Seq<char>,
    out: Seq<char>,
    n: nat,
)
    requires
        first_free(taken, base, out),
    ensures
        !taken(out),
        !taken(base) ==> out == base,
        taken(base) && n >= 2 && !taken(base + "-"@ + decimal_of(n)) && (forall|k: nat|
            2 <= k < n ==> taken(#[trigger] (base + "-"@ + decimal_of(k)))) ==> out == base + "-"@
            + decimal_of(n),
{
    a_free_slug_is_free(taken, base, out, out);
    if taken(base) && n >= 2 && !taken(base + "-"@ + decimal_of(n)) && (forall|k: nat|
        2 <= k < n ==> taken(#[trigger] (base + "-"@ + decimal_of(k)))) {
        let m = choose|m: nat|
            m >= 2 && out == #[trigger] numbered(base, m) && !taken(out) && forall|k: nat|
                2 <= k < m ==> taken(#[trigger] numbered(base, k));
        if m < n {
            assert(taken(base + "-"@ + decimal_of(m)));
        }
        if n < m {
            assert(taken(numbered(base, n)));
        }
    }
}

/// A text without a letter or a digit gets a slug of the time, and any other its own.
pub proof fn a_slug_of_the_time(text: Seq<char>, prefix: Seq<char>, now: i64)
    ensures
        slug_of(text).len() > 0 ==> slug_or(text, prefix, now) == slug_of(text),
        slug_of(text).len() == 0 ==> slug_or(text, prefix, now) == prefix + int_text(now as int),
{
}

}
