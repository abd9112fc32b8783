//! What publishing does to the text of a post.
//!
//! Text that is no reference stays as it is, and each reference to an image that
//! goes up becomes the image's address.

use crate::commands::publication::{extension_of, file_of, reference_to, rewritten};
use crate::media_keys::{media_key_of, public_url_of};
use crate::media_usage::{ends_reference, mentioned, reference_len};
use crate::text::{
    first_at, firsts, has_text, is_white_space, lemma_first_at, lemma_firsts_contains,
    lemma_nothing_to_replace, lemma_replaced_concat, lower, occurs_at, replaced, seam_is_clean,
    trim_end_by,
};
use vstd::prelude::*;

verus! {

/// The image of the `i`th reference goes up: it names a plain file, and that could be
/// read.
pub open spec fn goes_up(refs: Seq<Seq<char>>, files: Seq<Option<Vec<u8>>>, i: int) -> bool {
    0 <= i < refs.len() && file_of(refs[i]) is Some && files[i] is Some
}

/// Where readers find the image of the `i`th reference: under the key that its bytes
/// have.
pub open spec fn address_of(
    base: Seq<char>,
    pattern: Seq<char>,
    slug: Seq<char>,
    refs: Seq<Seq<char>>,
    files: Seq<Option<Vec<u8>>>,
    i: int,
) -> Seq<char> {
    public_url_of(
        base,
        media_key_of(pattern, slug, files[i]->0@, lower(extension_of(file_of(refs[i])->0))),
    )
}

/// The text is a reference as bodies have them.
pub open spec fn is_reference(r: Seq<char>) -> bool {
    &&& r.len() > 7
    &&& "assets/"@.is_prefix_of(r)
    &&& forall|i: int| 0 <= i < r.len() ==> !ends_reference(#[trigger] r[i])
}

/// The references can be told apart: the images have web addresses, and none of the
/// references that are rewritten stands in another reference, or in an address.
pub open spec fn kept_apart(
    base: Seq<char>,
    pattern: Seq<char>,
    slug: Seq<char>,
    refs: Seq<Seq<char>>,
    files: Seq<Option<Vec<u8>>>,
) -> bool {
    &&& "http"@.is_prefix_of(base)
    &&& refs.no_duplicates()
    &&& refs.len() <= files.len()
    &&& forall|i: int| 0 <= i < refs.len() ==> is_reference(#[trigger] refs[i])
    &&& forall|i: int, j: int|
        #![trigger refs[i], refs[j]]
        goes_up(refs, files, i) && 0 <= j < refs.len() && i != j ==> !has_text(refs[j], refs[i])
    &&& forall|i: int, j: int|
        #![trigger goes_up(refs, files, i), goes_up(refs, files, j)]
        goes_up(refs, files, i) && goes_up(refs, files, j) ==> !has_text(
            address_of(base, pattern, slug, refs, files, j),
            refs[i],
        )
}

proof fn lemma_word()
    ensures
        "assets/"@ == seq!['a', 's', 's', 'e', 't', 's', '/'],
        "http"@ == seq!['h', 't', 't', 'p'],
{
    reveal_strlit("assets/");
    reveal_strlit("http");
    assert("assets/"@ =~= seq!['a', 's', 's', 'e', 't', 's', '/']);
    assert("http"@ =~= seq!['h', 't', 't', 'p']);
}

proof fn lemma_occurs_chars(s: Seq<char>, pat: Seq<char>, i: int)
    requires
        occurs_at(s, pat, i),
    ensures
        forall|k: int| 0 <= k < pat.len() ==> s[i + k] == #[trigger] pat[k],
{
    assert forall|k: int| 0 <= k < pat.len() implies s[i + k] == #[trigger] pat[k] by {
        assert(s.subrange(i, i + pat.len())[k] == s[i + k]);
    }
}

proof fn lemma_address_starts(
    base: Seq<char>,
    pattern: Seq<char>,
    slug: Seq<char>,
    refs: Seq<Seq<char>>,
    files: Seq<Option<Vec<u8>>>,
    i: int,
)
    requires
        "http"@.is_prefix_of(base),
    ensures
        address_of(base, pattern, slug, refs, files, i).len() > 0,
        address_of(base, pattern, slug, refs, files, i)[0] == 'h',
{
    lemma_word();
    assert(base[0] == "http"@[0]);
    lemma_trimmed_keeps_start(base);
}

proof fn lemma_trimmed_keeps_start(s: Seq<char>)
    requires
        s.len() > 0,
        s[0] == 'h',
    ensures
        trim_end_by(s, |c: char| c == '/').len() > 0,
        trim_end_by(s, |c: char| c == '/')[0] == 'h',
    decreases s.len(),
{
    if s.last() == '/' {
        assert(s.len() > 1);
        lemma_trimmed_keeps_start(s.drop_last());
    }
}

/// A reference does not lie across the end of another.
proof fn lemma_seam(a: Seq<char>, b: Seq<char>, p: Seq<char>)
    requires
        is_reference(p),
        b.len() == 0 || ends_reference(b[0]),
    ensures
        seam_is_clean(a, b, p),
{
    assert forall|i: int| i < a.len() < i + p.len() implies !#[trigger] occurs_at(a + b, p, i) by {
        if occurs_at(a + b, p, i) {
            lemma_occurs_chars(a + b, p, i);
            assert((a + b)[a.len() as int] == p[a.len() - i]);
            assert((a + b)[a.len() as int] == b[0]);
        }
    }
}

proof fn lemma_no_text_concat(a: Seq<char>, b: Seq<char>, p: Seq<char>)
    requires
        !has_text(a, p),
        !has_text(b, p),
        seam_is_clean(a, b, p),
    ensures
        !has_text(a + b, p),
{
    if has_text(a + b, p) {
        let i = choose|i: int| occurs_at(a + b, p, i);
        if i + p.len() <= a.len() {
            assert((a + b).subrange(i, i + p.len()) =~= a.subrange(i, i + p.len()));
            assert(occurs_at(a, p, i));
        } else if i >= a.len() {
            assert((a + b).subrange(i, i + p.len()) =~= b.subrange(
                i - a.len(),
                i - a.len() + p.len(),
            ));
            assert(occurs_at(b, p, i - a.len()));
        } else {
            assert(i < a.len() < i + p.len());
        }
    }
}

/// Where nothing in front mentions the directory, a reference does not start before
/// the end of that.
#[verifier::spinoff_prover]
proof fn lemma_not_before(w: Seq<char>, x: Seq<char>, p: Seq<char>, i: int)
    requires
        is_reference(p),
        !has_text(w, "assets/"@),
        x.len() > 0,
        x[0] == 'a' || x[0] == 'h',
        occurs_at(w + x, p, i),
    ensures
        i >= w.len(),
{
    lemma_word();
    let s = w + x;
    let word = "assets/"@;
    let n = w.len() as int;
    lemma_occurs_chars(s, p, i);
    assert forall|k: int| 0 <= k < 7 implies s[i + k] == #[trigger] word[k] by {
        assert(p[k] == word[k]);
    }
    if i + 7 <= n {
        assert forall|k: int| 0 <= k < 7 implies w.subrange(i, i + 7)[k] == #[trigger] word[k] by {
            assert(s[i + k] == w[i + k]);
        }
        assert(w.subrange(i, i + 7) =~= word);
        assert(occurs_at(w, word, i));
    } else if i < n {
        assert(s[i + (n - i)] == word[n - i]);
        assert(s[n] == x[0]);
    }
}

proof fn lemma_not_in_front(w: Seq<char>, x: Seq<char>, p: Seq<char>)
    requires
        is_reference(p),
        !has_text(w, "assets/"@),
        x.len() > 0,
        x[0] == 'a' || x[0] == 'h',
        !has_text(x, p),
    ensures
        !has_text(w + x, p),
{
    if has_text(w + x, p) {
        let i = choose|i: int| occurs_at(w + x, p, i);
        let n = w.len() as int;
        lemma_not_before(w, x, p, i);
        assert((w + x).subrange(i, i + p.len()) =~= x.subrange(i - n, i - n + p.len()));
        assert(occurs_at(x, p, i - n));
    }
}

/// Replacing what stands at the end and nowhere before.
proof fn lemma_replaced_once(s: Seq<char>, p: Seq<char>, u: Seq<char>, n: int)
    requires
        p.len() > 0,
        0 <= n,
        first_at(s, p, 0) == Some(n),
        n + p.len() == s.len(),
    ensures
        replaced(s, p, u) == s.take(n) + u,
{
    let rest = s.skip(n + p.len());
    assert(rest =~= Seq::<char>::empty());
    assert(first_at(rest, p, 0) is None);
    assert(replaced(rest, p, u) == rest);
    assert(s.take(n) + u + rest =~= s.take(n) + u);
}

/// Replacing a reference that stands at the end.
#[verifier::spinoff_prover]
proof fn lemma_replaced_at_end(w: Seq<char>, p: Seq<char>, u: Seq<char>)
    requires
        is_reference(p),
        !has_text(w, "assets/"@),
    ensures
        replaced(w + p, p, u) == w + u,
{
    let s = w + p;
    let n = w.len() as int;
    assert(occurs_at(s, p, n)) by {
        assert(s.subrange(n, n + p.len()) =~= p);
    }
    assert(p[0] == 'a') by {
        lemma_word();
        assert(p[0] == "assets/"@[0]);
    }
    lemma_first_at(s, p, 0);
    let i = first_at(s, p, 0)->0;
    lemma_not_before(w, p, p, i);
    assert(i + p.len() <= s.len());
    assert(i == n);
    lemma_replaced_once(s, p, u, n);
    assert(s.take(n) =~= w);
}

proof fn lemma_step(
    s: Seq<char>,
    base: Seq<char>,
    pattern: Seq<char>,
    slug: Seq<char>,
    refs: Seq<Seq<char>>,
    files: Seq<Option<Vec<u8>>>,
    k: int,
)
    requires
        0 <= k < refs.len() <= files.len(),
    ensures
        rewritten(s, base, pattern, slug, refs.take(k + 1), files) == if goes_up(refs, files, k) {
            replaced(
                rewritten(s, base, pattern, slug, refs.take(k), files),
                refs[k],
                address_of(base, pattern, slug, refs, files, k),
            )
        } else {
            rewritten(s, base, pattern, slug, refs.take(k), files)
        },
{
    assert(refs.take(k + 1).drop_last() =~= refs.take(k));
    assert(refs.take(k + 1).last() == refs[k]);
}

/// A text that starts with the end of a reference still does.
proof fn lemma_starts_alike(
    s: Seq<char>,
    base: Seq<char>,
    pattern: Seq<char>,
    slug: Seq<char>,
    refs: Seq<Seq<char>>,
    files: Seq<Option<Vec<u8>>>,
    k: int,
)
    requires
        kept_apart(base, pattern, slug, refs, files),
        0 <= k <= refs.len(),
        s.len() == 0 || ends_reference(s[0]),
    ensures
        ({
            let out = rewritten(s, base, pattern, slug, refs.take(k), files);
            out.len() == 0 || ends_reference(out[0])
        }),
    decreases k,
{
    lemma_word();
    if k > 0 {
        lemma_starts_alike(s, base, pattern, slug, refs, files, k - 1);
        lemma_step(s, base, pattern, slug, refs, files, k - 1);
        let before = rewritten(s, base, pattern, slug, refs.take(k - 1), files);
        let p = refs[k - 1];
        assert(is_reference(p));
        if goes_up(refs, files, k - 1) {
            lemma_first_at(before, p, 0);
            if let Some(i) = first_at(before, p, 0) {
                lemma_occurs_chars(before, p, i);
                assert(before[i] == p[0]);
                assert(p[0] == "assets/"@[0]);
                assert(i > 0);
                let out = rewritten(s, base, pattern, slug, refs.take(k), files);
                assert(out[0] == before[0]);
            }
        }
    } else {
        assert(refs.take(0) =~= Seq::<Seq<char>>::empty());
    }
}

/// What has become of the reference `r`, which is the `j`th, after `k` of them.
spec fn turned_to(
    r: Seq<char>,
    base: Seq<char>,
    pattern: Seq<char>,
    slug: Seq<char>,
    refs: Seq<Seq<char>>,
    files: Seq<Option<Vec<u8>>>,
    j: int,
    k: int,
) -> Seq<char> {
    if j < k && goes_up(refs, files, j) {
        address_of(base, pattern, slug, refs, files, j)
    } else {
        r
    }
}

proof fn lemma_piece(
    w: Seq<char>,
    r: Seq<char>,
    rest: Seq<char>,
    base: Seq<char>,
    pattern: Seq<char>,
    slug: Seq<char>,
    refs: Seq<Seq<char>>,
    files: Seq<Option<Vec<u8>>>,
    j: int,
    k: int,
)
    requires
        kept_apart(base, pattern, slug, refs, files),
        !has_text(w, "assets/"@),
        rest.len() == 0 || ends_reference(rest[0]),
        0 <= j <= refs.len(),
        j < refs.len() ==> refs[j] == r,
        j == refs.len() ==> r == "assets/"@,
        0 <= k <= refs.len(),
    ensures
        rewritten(w + r + rest, base, pattern, slug, refs.take(k), files) == w + turned_to(
            r,
            base,
            pattern,
            slug,
            refs,
            files,
            j,
            k,
        ) + rewritten(rest, base, pattern, slug, refs.take(k), files),
    decreases k,
{
    if k == 0 {
        assert(refs.take(0) =~= Seq::<Seq<char>>::empty());
    } else {
        let m = k - 1;
        lemma_piece(w, r, rest, base, pattern, slug, refs, files, j, m);
        lemma_step(w + r + rest, base, pattern, slug, refs, files, m);
        lemma_step(rest, base, pattern, slug, refs, files, m);
        let p = refs[m];
        assert(is_reference(p));
        if goes_up(refs, files, m) {
            let u = address_of(base, pattern, slug, refs, files, m);
            let x = turned_to(r, base, pattern, slug, refs, files, j, m);
            let tail = rewritten(rest, base, pattern, slug, refs.take(m), files);
            lemma_starts_alike(rest, base, pattern, slug, refs, files, m);
            lemma_seam(w + x, tail, p);
            lemma_replaced_concat(w + x, tail, p, u);
            if j == m {
                lemma_replaced_at_end(w, p, u);
            } else {
                lemma_untouched(w, r, base, pattern, slug, refs, files, j, m, m);
                lemma_nothing_to_replace(w + x, p, u);
            }
        }
    }
}

/// What has become of a reference holds none that is rewritten, but itself before it
/// is.
proof fn lemma_untouched(
    w: Seq<char>,
    r: Seq<char>,
    base: Seq<char>,
    pattern: Seq<char>,
    slug: Seq<char>,
    refs: Seq<Seq<char>>,
    files: Seq<Option<Vec<u8>>>,
    j: int,
    k: int,
    m: int,
)
    requires
        kept_apart(base, pattern, slug, refs, files),
        !has_text(w, "assets/"@),
        0 <= j <= refs.len(),
        j < refs.len() ==> refs[j] == r,
        j == refs.len() ==> r == "assets/"@,
        goes_up(refs, files, m),
        j != m || j < k,
    ensures
        !has_text(w + turned_to(r, base, pattern, slug, refs, files, j, k), refs[m]),
{
    lemma_word();
    let p = refs[m];
    assert(is_reference(p));
    let x = turned_to(r, base, pattern, slug, refs, files, j, k);
    if j < k && goes_up(refs, files, j) {
        lemma_address_starts(base, pattern, slug, refs, files, j);
        assert(!has_text(address_of(base, pattern, slug, refs, files, j), p));
    } else if j < refs.len() {
        assert(is_reference(refs[j]));
        assert(r[0] == "assets/"@[0]);
        assert(!has_text(refs[j], refs[m]));
    } else {
        assert(r[0] == 'a');
        if has_text(r, p) {
            let i = choose|i: int| occurs_at(r, p, i);
            assert(i + p.len() <= r.len());
        }
    }
    lemma_not_in_front(w, x, p);
}

// ─── Laws ───────────────────────────────────────────────────────────────────

/// Text that mentions no staged file is published as it is.
pub proof fn text_without_references_stays(
    text: Seq<char>,
    base: Seq<char>,
    pattern: Seq<char>,
    slug: Seq<char>,
    refs: Seq<Seq<char>>,
    files: Seq<Option<Vec<u8>>>,
)
    requires
        !has_text(text, "assets/"@),
        refs.len() <= files.len(),
        forall|i: int| 0 <= i < refs.len() ==> is_reference(#[trigger] refs[i]),
    ensures
        rewritten(text, base, pattern, slug, refs, files) == text,
    decreases refs.len(),
{
    if refs.len() > 0 {
        let rest = refs.drop_last();
        assert forall|i: int| 0 <= i < rest.len() implies is_reference(#[trigger] rest[i]) by {
            assert(rest[i] == refs[i]);
        }
        text_without_references_stays(text, base, pattern, slug, rest, files);
        let p = refs[refs.len() - 1];
        assert(is_reference(p));
        assert(!has_text(text, p)) by {
            if has_text(text, p) {
                lemma_word();
                let i = choose|i: int| occurs_at(text, p, i);
                lemma_occurs_chars(text, p, i);
                assert(text.subrange(i, i + 7) =~= "assets/"@) by {
                    assert forall|k: int| 0 <= k < 7 implies text.subrange(i, i + 7)[k]
                        == "assets/"@[k] by {
                        assert(p[k] == "assets/"@[k]);
                    }
                }
                assert(occurs_at(text, "assets/"@, i));
            }
        }
        if file_of(p) is Some && files[refs.len() - 1] is Some {
            lemma_nothing_to_replace(
                text,
                p,
                address_of(base, pattern, slug, refs, files, refs.len() - 1),
            );
        }
    }
}

/// Each reference becomes the address of its image where that goes up, whichever
/// place it has among the references, and stays as it is where the image does not;
/// the text in front of it stays, and what follows is published in the same way.
pub proof fn a_reference_becomes_its_address(
    before: Seq<char>,
    after: Seq<char>,
    base: Seq<char>,
    pattern: Seq<char>,
    slug: Seq<char>,
    refs: Seq<Seq<char>>,
    files: Seq<Option<Vec<u8>>>,
    i: int,
)
    requires
        kept_apart(base, pattern, slug, refs, files),
        0 <= i < refs.len(),
        !has_text(before, "assets/"@),
        after.len() == 0 || ends_reference(after[0]),
    ensures
        rewritten(before + refs[i] + after, base, pattern, slug, refs, files) == before + (
        if file_of(refs[i]) is Some && files[i] is Some {
            address_of(base, pattern, slug, refs, files, i)
        } else {
            refs[i]
        }) + rewritten(after, base, pattern, slug, refs, files),
{
    assert(refs.take(refs.len() as int) =~= refs);
    lemma_piece(
        before,
        refs[i],
        after,
        base,
        pattern,
        slug,
        refs,
        files,
        i,
        refs.len() as int,
    );
}

/// The references of a body, as publishing looks them up.
pub open spec fn references_in(body: Seq<char>) -> Seq<Seq<char>> {
    firsts(mentioned(body)).map_values(|n: Seq<char>| reference_to(n))
}

proof fn lemma_reference_len(s: Seq<char>)
    ensures
        0 <= reference_len(s) <= s.len(),
        forall|j: int| 0 <= j < reference_len(s) ==> !ends_reference(#[trigger] s[j]),
        reference_len(s) < s.len() ==> ends_reference(s[reference_len(s)]),
    decreases s.len(),
{
    if s.len() > 0 && !ends_reference(s[0]) {
        let d = s.drop_first();
        lemma_reference_len(d);
        assert forall|j: int| 0 <= j < reference_len(s) implies !ends_reference(
            #[trigger] s[j],
        ) by {
            if j > 0 {
                assert(d[j - 1] == s[j]);
            }
        }
    }
}

/// A body is text without a reference, or such text, a reference, and the rest.
proof fn lemma_first_piece(s: Seq<char>)
    ensures
        match first_at(s, "assets/"@, 0) {
            None => !has_text(s, "assets/"@) && mentioned(s).len() == 0,
            Some(i) => {
                let n = reference_len(s.skip(i + 7));
                let (w, r, rest) = (s.take(i), s.subrange(i, i + 7 + n), s.skip(i + 7 + n));
                &&& 0 <= i && i + 7 + n <= s.len() && 0 <= n
                &&& s == w + r + rest
                &&& !has_text(w, "assets/"@)
                &&& rest.len() == 0 || ends_reference(rest[0])
                &&& "assets/"@.is_prefix_of(r)
                &&& if n == 0 {
                    r == "assets/"@ && mentioned(s) == mentioned(rest)
                } else {
                    &&& is_reference(r)
                    &&& r == reference_to(r.skip(7))
                    &&& mentioned(s) == seq![r.skip(7)] + mentioned(rest)
                }
            },
        },
{
    lemma_word();
    lemma_first_at(s, "assets/"@, 0);
    match first_at(s, "assets/"@, 0) {
        None => {},
        Some(i) => {
            let after = s.skip(i + 7);
            lemma_reference_len(after);
            let n = reference_len(after);
            let (w, r, rest) = (s.take(i), s.subrange(i, i + 7 + n), s.skip(i + 7 + n));
            assert(s =~= w + r + rest);
            assert(after.skip(n) =~= rest);
            assert(after.take(n) =~= r.skip(7));
            if rest.len() > 0 {
                assert(rest[0] == after[n]);
            }
            assert(!has_text(w, "assets/"@)) by {
                if has_text(w, "assets/"@) {
                    let j = choose|j: int| occurs_at(w, "assets/"@, j);
                    assert(w.subrange(j, j + 7) =~= s.subrange(j, j + 7));
                    assert(occurs_at(s, "assets/"@, j));
                }
            }
            let word = "assets/"@;
            assert(s.subrange(i, i + 7) == word);
            assert(r.take(7) =~= word) by {
                assert(r.take(7) =~= s.subrange(i, i + 7));
            }
            assert forall|j: int| 0 <= j < 7 implies r[j] == word[j] by {
                assert(r.take(7)[j] == r[j]);
            }
            assert(word.is_prefix_of(r)) by {
                assert(r.subrange(0, 7) =~= word);
            }
            if n > 0 {
                assert(r =~= word + r.skip(7));
                assert forall|j: int| 0 <= j < r.len() implies !ends_reference(
                    #[trigger] r[j],
                ) by {
                    if j < 7 {
                        assert(r[j] == word[j]);
                        assert(!is_white_space(r[j]));
                    } else {
                        assert(r[j] == after[j - 7]);
                    }
                }
            } else {
                assert(r =~= word);
                assert(rest =~= after);
            }
        },
    }
}

proof fn lemma_nothing_left(
    s: Seq<char>,
    base: Seq<char>,
    pattern: Seq<char>,
    slug: Seq<char>,
    refs: Seq<Seq<char>>,
    files: Seq<Option<Vec<u8>>>,
)
    requires
        kept_apart(base, pattern, slug, refs, files),
        forall|n: Seq<char>| #[trigger] mentioned(s).contains(n) ==> refs.contains(reference_to(n)),
    ensures
        forall|m: int|
            #![trigger refs[m]]
            goes_up(refs, files, m) ==> !has_text(
                rewritten(s, base, pattern, slug, refs, files),
                refs[m],
            ),
        forall|m: int, n: Seq<char>|
            #![trigger refs[m], mentioned(s).contains(n)]
            goes_up(refs, files, m) && mentioned(s).contains(n) && refs[m] == reference_to(n)
                ==> has_text(
                rewritten(s, base, pattern, slug, refs, files),
                address_of(base, pattern, slug, refs, files, m),
            ),
    decreases s.len(),
{
    lemma_word();
    lemma_first_piece(s);
    let out = rewritten(s, base, pattern, slug, refs, files);
    match first_at(s, "assets/"@, 0) {
        None => {
            text_without_references_stays(s, base, pattern, slug, refs, files);
            assert forall|m: int| #![trigger refs[m]] goes_up(refs, files, m) implies !has_text(
                out,
                refs[m],
            ) by {
                let p = refs[m];
                assert(is_reference(p));
                if has_text(s, p) {
                    let i = choose|i: int| occurs_at(s, p, i);
                    lemma_occurs_chars(s, p, i);
                    assert(s.subrange(i, i + 7) =~= "assets/"@) by {
                        assert forall|k: int| 0 <= k < 7 implies s.subrange(i, i + 7)[k]
                            == "assets/"@[k] by {
                            assert(p[k] == "assets/"@[k]);
                        }
                    }
                    assert(occurs_at(s, "assets/"@, i));
                }
            }
        },
        Some(i) => {
            let n = reference_len(s.skip(i + 7));
            let (w, r, rest) = (s.take(i), s.subrange(i, i + 7 + n), s.skip(i + 7 + n));
            let size = refs.len() as int;
            assert(refs.take(size) =~= refs);
            let j = if n == 0 {
                size
            } else {
                assert(mentioned(s)[0] == r.skip(7));
                assert(mentioned(s).contains(r.skip(7)));
                choose|j: int| 0 <= j < refs.len() && refs[j] == r
            };
            assert forall|v: Seq<char>| #[trigger] mentioned(rest).contains(v) implies refs.contains(
                reference_to(v),
            ) by {
                let a = choose|a: int| 0 <= a < mentioned(rest).len() && mentioned(rest)[a] == v;
                if n > 0 {
                    assert(mentioned(s)[a + 1] == v);
                }
                assert(mentioned(s).contains(v));
            }
            lemma_nothing_left(rest, base, pattern, slug, refs, files);
            lemma_piece(w, r, rest, base, pattern, slug, refs, files, j, size);
            let x = turned_to(r, base, pattern, slug, refs, files, j, size);
            let tail = rewritten(rest, base, pattern, slug, refs, files);
            lemma_starts_alike(rest, base, pattern, slug, refs, files, size);
            assert(out == w + x + tail);
            assert forall|m: int| #![trigger refs[m]] goes_up(refs, files, m) implies !has_text(
                out,
                refs[m],
            ) by {
                assert(is_reference(refs[m]));
                lemma_untouched(w, r, base, pattern, slug, refs, files, j, size, m);
                lemma_seam(w + x, tail, refs[m]);
                lemma_no_text_concat(w + x, tail, refs[m]);
            }
            assert forall|m: int, v: Seq<char>|
                #![trigger refs[m], mentioned(s).contains(v)]
                goes_up(refs, files, m) && mentioned(s).contains(v) && refs[m] == reference_to(
                    v,
                ) implies has_text(out, address_of(base, pattern, slug, refs, files, m)) by {
                let u = address_of(base, pattern, slug, refs, files, m);
                let a = choose|a: int| 0 <= a < mentioned(s).len() && mentioned(s)[a] == v;
                if n > 0 && a == 0 {
                    assert(refs[m] == r && refs[j] == r);
                    assert(j == m);
                    assert(x == u);
                    let at = w.len() as int;
                    assert(out.subrange(at, at + u.len()) =~= u);
                    assert(occurs_at(out, u, at));
                } else {
                    let b = if n > 0 { a - 1 } else { a };
                    assert(mentioned(rest)[b] == v);
                    assert(mentioned(rest).contains(v));
                    assert(has_text(tail, u));
                    let at = choose|at: int| occurs_at(tail, u, at);
                    let from = (w + x).len() + at;
                    assert(out.subrange(from, from + u.len()) =~= tail.subrange(
                        at,
                        at + u.len(),
                    ));
                    assert(occurs_at(out, u, from));
                }
            }
        },
    }
}

/// No link is dead for an image that went up: of every such image the published body
/// holds the address, and of none of them the reference, be it the first image of
/// the body or a later one.
pub proof fn every_published_image_is_linked(
    body: Seq<char>,
    base: Seq<char>,
    pattern: Seq<char>,
    slug: Seq<char>,
    files: Seq<Option<Vec<u8>>>,
    i: int,
)
    requires
        kept_apart(base, pattern, slug, references_in(body), files),
        0 <= i < references_in(body).len(),
        file_of(references_in(body)[i]) is Some,
        files[i] is Some,
    ensures
        ({
            let refs = references_in(body);
            let out = rewritten(body, base, pattern, slug, refs, files);
            &&& has_text(out, address_of(base, pattern, slug, refs, files, i))
            &&& !has_text(out, refs[i])
        }),
{
    let refs = references_in(body);
    let names = firsts(mentioned(body));
    lemma_firsts_contains(mentioned(body));
    assert forall|n: Seq<char>| #[trigger] mentioned(body).contains(n) implies refs.contains(
        reference_to(n),
    ) by {
        assert(names.contains(n));
        let a = choose|a: int| 0 <= a < names.len() && names[a] == n;
        assert(refs[a] == reference_to(n));
    }
    lemma_nothing_left(body, base, pattern, slug, refs, files);
    assert(names.contains(names[i]));
    assert(refs[i] == reference_to(names[i]));
    assert(mentioned(body).contains(names[i]));
    assert(goes_up(refs, files, i));
}

/// The references of a body are distinct, and such as [`kept_apart`] asks for.
pub proof fn bodies_have_references(body: Seq<char>)
    ensures
        references_in(body).no_duplicates(),
        forall|i: int|
            0 <= i < references_in(body).len() ==> is_reference(#[trigger] references_in(body)[i]),
{
    let refs = references_in(body);
    let names = firsts(mentioned(body));
    lemma_firsts_contains(mentioned(body));
    lemma_mentioned(body);
    assert forall|i: int| 0 <= i < refs.len() implies is_reference(#[trigger] refs[i]) by {
        assert(names.contains(names[i]));
        assert(mentioned(body).contains(names[i]));
    }
    assert forall|i: int, j: int| 0 <= i < refs.len() && 0 <= j < refs.len() && i != j implies refs[i]
        != refs[j] by {
        if refs[i] == refs[j] {
            lemma_word();
            assert(refs[i].skip(7) =~= names[i]);
            assert(refs[j].skip(7) =~= names[j]);
        }
    }
}

proof fn lemma_mentioned(s: Seq<char>)
    ensures
        forall|n: Seq<char>| #[trigger]
            mentioned(s).contains(n) ==> is_reference(reference_to(n)),
    decreases s.len(),
{
    lemma_word();
    lemma_first_piece(s);
    if let Some(i) = first_at(s, "assets/"@, 0) {
        let n = reference_len(s.skip(i + 7));
        let rest = s.skip(i + 7 + n);
        lemma_mentioned(rest);
        assert forall|v: Seq<char>| #[trigger] mentioned(s).contains(v) implies is_reference(
            reference_to(v),
        ) by {
            let a = choose|a: int| 0 <= a < mentioned(s).len() && mentioned(s)[a] == v;
            if n > 0 {
                if a > 0 {
                    assert(mentioned(rest)[a - 1] == v);
                    assert(mentioned(rest).contains(v));
                }
            }
        }
    }
}

proof fn lemma_reference_len_is(s: Seq<char>, n: int)
    requires
        0 <= n <= s.len(),
        forall|j: int| 0 <= j < n ==> !ends_reference(#[trigger] s[j]),
        n < s.len() ==> ends_reference(s[n]),
    ensures
        reference_len(s) == n,
{
    lemma_reference_len(s);
    let m = reference_len(s);
    if m < n {
        assert(!ends_reference(s[m]));
    } else if n < m {
        assert(!ends_reference(s[n]));
    }
}

/// A text that mentions no staged file has no reference; one behind such text is
/// found, with the whole of its name.
pub proof fn a_reference_is_found(text: Seq<char>, name: Seq<char>)
    requires
        !has_text(text, "assets/"@),
        name.len() > 0,
        forall|i: int| 0 <= i < name.len() ==> !ends_reference(#[trigger] name[i]),
    ensures
        mentioned(text).len() == 0,
        mentioned(text + reference_to(name)) == seq![name],
{
    lemma_word();
    lemma_first_at(text, "assets/"@, 0);
    let s = text + reference_to(name);
    let n = text.len() as int;
    let word = "assets/"@;
    let r = reference_to(name);
    assert(is_reference(r)) by {
        assert(r.subrange(0, 7) =~= word);
        assert forall|j: int| 0 <= j < r.len() implies !ends_reference(#[trigger] r[j]) by {
            if j < 7 {
                assert(r[j] == word[j]);
                assert(!is_white_space(r[j]));
            } else {
                assert(r[j] == name[j - 7]);
            }
        }
    }
    assert(occurs_at(s, word, n)) by {
        assert(s.subrange(n, n + 7) =~= word);
    }
    lemma_first_at(s, word, 0);
    let i = first_at(s, word, 0)->0;
    if i < n {
        lemma_word_position(text, r, i);
    }
    assert(i == n);
    let after = s.skip(n + 7);
    assert(after =~= name);
    lemma_reference_len_is(after, name.len() as int);
    let rest = after.skip(name.len() as int);
    assert(rest =~= Seq::<char>::empty());
    lemma_first_at(rest, word, 0);
    assert(after.take(name.len() as int) =~= name);
    assert(mentioned(rest) =~= Seq::<Seq<char>>::empty());
    assert(mentioned(s) =~= seq![name]);
}

/// The directory is not mentioned across the start of a reference, nor across the
/// end of one.
#[verifier::spinoff_prover]
proof fn lemma_word_position(w: Seq<char>, x: Seq<char>, i: int)
    requires
        !has_text(w, "assets/"@),
        x.len() > 0,
        x[0] == 'a' || ends_reference(x[0]),
        occurs_at(w + x, "assets/"@, i),
    ensures
        i >= w.len(),
{
    lemma_word();
    let s = w + x;
    let word = "assets/"@;
    let n = w.len() as int;
    lemma_occurs_chars(s, word, i);
    if i + 7 <= n {
        assert(w.subrange(i, i + 7) =~= s.subrange(i, i + 7));
        assert(occurs_at(w, word, i));
    } else if i < n {
        assert(s[i + (n - i)] == word[n - i]);
        assert(s[n] == x[0]);
        assert(!is_white_space(word[n - i]));
    }
}

/// Where the first of two texts has no reference, the first one of both is that of the
/// second.
#[verifier::spinoff_prover]
proof fn lemma_first_in_second(a: Seq<char>, b: Seq<char>)
    requires
        b.len() > 0,
        ends_reference(b[0]),
        !has_text(a, "assets/"@),
    ensures
        match first_at(b, "assets/"@, 0) {
            Some(i) => first_at(a + b, "assets/"@, 0) == Some(a.len() + i),
            None => first_at(a + b, "assets/"@, 0) is None,
        },
{
    let word = "assets/"@;
    let s = a + b;
    let n = word.len() as int;
    lemma_first_at(b, word, 0);
    lemma_first_at(s, word, 0);
    if let Some(i) = first_at(b, word, 0) {
        assert(s.subrange(a.len() + i, a.len() + i + n) =~= b.subrange(i, i + n));
        assert(occurs_at(s, word, a.len() + i));
    }
    if let Some(g) = first_at(s, word, 0) {
        lemma_word_position(a, b, g);
        let h = g - a.len();
        assert(s.subrange(g, g + n) =~= b.subrange(h, h + n));
        assert(occurs_at(b, word, h));
    }
}

/// Where the first of two texts has a reference, that is the first one of both, and
/// ends where it did.
#[verifier::spinoff_prover]
proof fn lemma_first_in_first(a: Seq<char>, b: Seq<char>, i: int)
    requires
        b.len() > 0,
        ends_reference(b[0]),
        first_at(a, "assets/"@, 0) == Some(i),
    ensures
        0 <= i && i + 7 <= a.len(),
        first_at(a + b, "assets/"@, 0) == Some(i),
        reference_len((a + b).skip(i + 7)) == reference_len(a.skip(i + 7)),
        0 <= reference_len(a.skip(i + 7)) <= a.len() - i - 7,
{
    let word = "assets/"@;
    let s = a + b;
    assert(word.len() == 7) by {
        lemma_word();
    }
    lemma_first_at(a, word, 0);
    lemma_first_at(s, word, 0);
    assert(s.subrange(i, i + 7) =~= a.subrange(i, i + 7));
    assert(occurs_at(s, word, i));
    let g = first_at(s, word, 0)->0;
    if g < i {
        assert(s.subrange(g, g + 7) =~= a.subrange(g, g + 7));
        assert(occurs_at(a, word, g));
    }
    let after = a.skip(i + 7);
    lemma_reference_len(after);
    let n = reference_len(after);
    let longer = s.skip(i + 7);
    assert(longer =~= after + b);
    assert forall|j: int| 0 <= j < n implies !ends_reference(#[trigger] longer[j]) by {
        assert(longer[j] == after[j]);
    }
    if n < after.len() {
        assert(longer[n] == after[n]);
    } else {
        assert(longer[n] == b[0]);
    }
    lemma_reference_len_is(longer, n);
}

/// What a text mentions, from its first reference on.
proof fn lemma_mentioned_from(s: Seq<char>, i: int)
    requires
        first_at(s, "assets/"@, 0) == Some(i),
        0 <= i,
        i + 7 <= s.len(),
        0 <= reference_len(s.skip(i + 7)) <= s.len() - i - 7,
    ensures
        ({
            let after = s.skip(i + 7);
            let n = reference_len(after);
            let rest = s.skip(i + 7 + n);
            mentioned(s) == if n > 0 {
                seq![after.take(n)] + mentioned(rest)
            } else {
                mentioned(rest)
            }
        }),
{
    assert("assets/"@.len() == 7) by {
        lemma_word();
    }
    let after = s.skip(i + 7);
    let n = reference_len(after);
    assert(after.skip(n) =~= s.skip(i + 7 + n));
    assert(after.skip(0) =~= after);
}

/// The references of two texts, the second of which starts where a reference would
/// end, are those of the first and then those of the second: none is lost, wherever
/// it stands.
#[verifier::spinoff_prover]
pub proof fn references_add_up(a: Seq<char>, b: Seq<char>)
    requires
        b.len() == 0 || ends_reference(b[0]),
    ensures
        mentioned(a + b) == mentioned(a) + mentioned(b),
    decreases a.len(),
{
    let word = "assets/"@;
    let s = a + b;
    lemma_first_at(a, word, 0);
    if b.len() == 0 {
        lemma_first_piece(b);
        lemma_first_at(b, word, 0);
        assert(first_at(b, word, 0) is None) by {
            lemma_word();
        }
        assert(s =~= a);
        assert(mentioned(a) + mentioned(b) =~= mentioned(a));
    } else {
        match first_at(a, word, 0) {
            None => {
                lemma_first_piece(a);
                lemma_first_in_second(a, b);
                lemma_first_piece(b);
                lemma_first_piece(s);
                assert(mentioned(a) + mentioned(b) =~= mentioned(b));
                if let Some(i) = first_at(b, word, 0) {
                    let g = a.len() + i;
                    assert(s.skip(g + 7) =~= b.skip(i + 7));
                    let n = reference_len(b.skip(i + 7));
                    assert(s.skip(g + 7 + n) =~= b.skip(i + 7 + n));
                    lemma_mentioned_from(b, i);
                    lemma_mentioned_from(s, g);
                }
            },
            Some(i) => {
                lemma_first_in_first(a, b, i);
                let after = a.skip(i + 7);
                let n = reference_len(after);
                let longer = s.skip(i + 7);
                let rest = a.skip(i + 7 + n);
                references_add_up(rest, b);
                lemma_mentioned_from(a, i);
                lemma_mentioned_from(s, i);
                assert(s.skip(i + 7 + n) =~= rest + b);
                assert(longer.take(n) =~= after.take(n));
                assert(seq![after.take(n)] + (mentioned(rest) + mentioned(b)) =~= (
                seq![after.take(n)] + mentioned(rest)) + mentioned(b));
            },
        }
    }
}

}
