//! The key layout for everything that belongs to a post.
//!
//! The body's key is fixed. Media keys come from two configurable patterns: a
//! body image may be laid out at will, because its URL is written into the
//! published Markdown, while the thumbnail's key is derived by the reader from
//! the slug alone.

use crate::digest::{hex_digest, hex_of, sha256};
use crate::error::{AppError, AppResult};
use crate::text::{
    alphanumeric, chars_of, contains, has_text, is_alphanumeric, is_hex_digit, lemma_first_at,
    lemma_nothing_to_replace, lemma_replaced_concat, lemma_trim_start, occurs_at, replace, replaced,
    seam_is_clean, trim, trim_end_by, trim_end_char, trim_start_by, trim_start_char, trimmed,
};
use vstd::prelude::*;
use vstd::string::StringExecFns;

verus! {

/// Default layout for a post's thumbnail.
pub const DEFAULT_THUMBNAIL_PATTERN: &'static str = "posts/{slug}/thumbnail.{ext}";

/// Default layout for an image used in a post body.
pub const DEFAULT_MEDIA_PATTERN: &'static str = "posts/{slug}/{hash}.{ext}";

/// What a character of a slug may be.
pub open spec fn is_slug_char(c: char) -> bool {
    is_alphanumeric(c) || c == '-' || c == '_'
}

/// A slug that is safe in a path: not empty, and nothing but letters, digits,
/// `-` and `_`.
pub open spec fn safe_slug(s: Seq<char>) -> bool {
    s.len() > 0 && forall|i: int| 0 <= i < s.len() ==> is_slug_char(#[trigger] s[i])
}

/// A strict, filesystem-safe slug: no path separators, no dots.
pub fn is_safe_slug(s: &str) -> (r: bool)
    ensures
        r == safe_slug(s@),
{
    let x: Vec<char> = chars_of(s);
    if x.len() == 0 {
        return false;
    }
    let mut i: usize = 0;
    while i < x.len()
        invariant
            i <= x@.len(),
            x@ == s@,
            forall|j: int| 0 <= j < i ==> is_slug_char(#[trigger] x@[j]),
        decreases x@.len() - i,
    {
        let c: char = x[i];
        if !(alphanumeric(c) || c == '-' || c == '_') {
            assert(!is_slug_char(s@[i as int]));
            return false;
        }
        i = i + 1;
    }
    true
}

/// A body's key.
pub open spec fn body_key_of(slug: Seq<char>) -> Seq<char> {
    "posts/"@ + slug + ".md"@
}

/// The post body's key. Not configurable: the reader fetches it by this name.
pub fn body_key(slug: &str) -> (out: String)
    ensures
        out@ == body_key_of(slug@),
{
    let mut out: String = "posts/".to_owned();
    out.append(slug);
    out.append(".md");
    out
}

/// A pattern with `{slug}`, then `{hash}`, then `{ext}` expanded.
pub open spec fn expanded(
    pattern: Seq<char>,
    slug: Seq<char>,
    hash: Seq<char>,
    ext: Seq<char>,
) -> Seq<char> {
    replaced(
        replaced(replaced(pattern, "{slug}"@, slug), "{hash}"@, hash),
        "{ext}"@,
        ext,
    )
}

/// The key that a pattern stands for: expanded, without a `/` at its start.
pub open spec fn rendered(
    pattern: Seq<char>,
    slug: Seq<char>,
    hash: Seq<char>,
    ext: Seq<char>,
) -> Seq<char> {
    trim_start_by(expanded(pattern, slug, hash, ext), |c: char| c == '/')
}

/// Expands `{slug}`, `{hash}` and `{ext}` in a key pattern.
///
/// An unknown placeholder is left as written, so that a typo shows up in the
/// key instead of quietly collapsing two images onto one.
pub fn render(pattern: &str, slug: &str, hash: &str, ext: &str) -> (out: String)
    ensures
        out@ == rendered(pattern@, slug@, hash@, ext@),
{
    proof {
        reveal_strlit("{slug}");
        reveal_strlit("{hash}");
        reveal_strlit("{ext}");
    }
    let with_slug: String = replace(pattern, "{slug}", slug);
    let with_hash: String = replace(with_slug.as_str(), "{hash}", hash);
    let with_ext: String = replace(with_hash.as_str(), "{ext}", ext);
    trim_start_char(with_ext.as_str(), '/').to_owned()
}

/// The thumbnail's key under `pattern`.
pub fn thumbnail_key(pattern: &str, slug: &str, ext: &str) -> (out: String)
    ensures
        out@ == rendered(pattern@, slug@, Seq::empty(), ext@),
{
    let empty: String = String::new();
    render(pattern, slug, empty.as_str(), ext)
}

/// The key of a body image under `pattern`, addressed by its content hash.
pub open spec fn media_key_of(
    pattern: Seq<char>,
    slug: Seq<char>,
    bytes: Seq<u8>,
    ext: Seq<char>,
) -> Seq<char> {
    rendered(pattern, slug, hex_of(sha256(bytes)), ext)
}

/// The key of a body image under `pattern`, addressed by its content hash.
pub fn media_key(pattern: &str, slug: &str, bytes: &[u8], ext: &str) -> (out: String)
    ensures
        out@ == media_key_of(pattern@, slug@, bytes@, ext@),
{
    render(pattern, slug, hex_digest(bytes).as_str(), ext)
}

/// A key under a public origin.
pub open spec fn public_url_of(base: Seq<char>, key: Seq<char>) -> Seq<char> {
    trim_end_by(base, |c: char| c == '/') + "/"@ + key
}

/// The public URL written into published Markdown for a body image.
pub fn public_url(public_base: &str, key: &str) -> (out: String)
    ensures
        out@ == public_url_of(public_base@, key@),
{
    let mut out: String = trim_end_char(public_base, '/').to_owned();
    out.append("/");
    out.append(key);
    out
}

/// Which of the two patterns is meant.
#[derive(Clone, Copy, Debug, PartialEq, Eq, Structural)]
pub enum PatternKind {
    Thumbnail,
    Media,
}

/// Why a pattern is refused, if it is. The first reason that holds is given.
pub open spec fn pattern_fault(pattern: Seq<char>, kind: PatternKind) -> Option<Seq<char>> {
    let p = trimmed(pattern);
    if p.len() == 0 {
        Some("Pattern cannot be empty"@)
    } else if has_text(p, ".."@) {
        Some("Pattern cannot contain `..`"@)
    } else if !has_text(p, "{slug}"@) {
        Some("Pattern must contain {slug}, or every post would share one key"@)
    } else if kind == PatternKind::Media && !has_text(p, "{hash}"@) {
        Some(
            "Media pattern must contain {hash}, or images in a post would overwrite each other"@,
        )
    } else if kind == PatternKind::Thumbnail && has_text(p, "{hash}"@) {
        Some(
            "Thumbnail pattern cannot contain {hash} — the blog derives this key from the slug alone"@,
        )
    } else {
        None
    }
}

/// Whether a key pattern can be used, and why not when it cannot, phrased for
/// display.
pub fn validate_pattern(pattern: &str, kind: PatternKind) -> (r: AppResult<()>)
    ensures
        match r {
            Ok(_) => pattern_fault(pattern@, kind) is None,
            Err(e) => e matches AppError::InvalidPattern(m) && pattern_fault(pattern@, kind)
                == Some(m@),
        },
{
    let p: &str = trim(pattern);
    if p.is_empty() {
        return Err(AppError::InvalidPattern("Pattern cannot be empty"));
    }
    if contains(p, "..") {
        return Err(AppError::InvalidPattern("Pattern cannot contain `..`"));
    }
    if !contains(p, "{slug}") {
        return Err(
            AppError::InvalidPattern(
                "Pattern must contain {slug}, or every post would share one key",
            ),
        );
    }
    let hashed: bool = contains(p, "{hash}");
    match kind {
        PatternKind::Media => {
            if !hashed {
                return Err(
                    AppError::InvalidPattern(
                        "Media pattern must contain {hash}, or images in a post would overwrite each other",
                    ),
                );
            }
        },
        PatternKind::Thumbnail => {
            if hashed {
                return Err(
                    AppError::InvalidPattern(
                        "Thumbnail pattern cannot contain {hash} — the blog derives this key from the slug alone",
                    ),
                );
            }
        },
    }
    Ok(())
}

/// The content hash that a body image is addressed by, as it appears in a key.
///
/// It is the identity of a media object, not merely part of a key: a library
/// object is matched with the copies of it that travelled into posts by it.
pub fn content_digest(bytes: &[u8]) -> (out: String)
    ensures
        out@ == hex_of(sha256(bytes@)),
        out@.len() == 64,
{
    hex_digest(bytes)
}

// ─── Laws ───────────────────────────────────────────────────────────────────

proof fn lemma_placeholders()
    ensures
        "{slug}"@ == seq!['{', 's', 'l', 'u', 'g', '}'],
        "{hash}"@ == seq!['{', 'h', 'a', 's', 'h', '}'],
        "{ext}"@ == seq!['{', 'e', 'x', 't', '}'],
{
    reveal_strlit("{slug}");
    reveal_strlit("{hash}");
    reveal_strlit("{ext}");
    assert("{slug}"@ =~= seq!['{', 's', 'l', 'u', 'g', '}']);
    assert("{hash}"@ =~= seq!['{', 'h', 'a', 's', 'h', '}']);
    assert("{ext}"@ =~= seq!['{', 'e', 'x', 't', '}']);
}

/// An occurrence, read character by character.
proof fn lemma_occurs_chars(s: Seq<char>, pat: Seq<char>, i: int)
    requires
        occurs_at(s, pat, i),
    ensures
        forall|k: int| 0 <= k < pat.len() ==> s[i + k] == #[trigger] pat[k],
{
    assert forall|k: int| 0 <= k < pat.len() implies s[i + k] == #[trigger] pat[k] by {
        assert(s.subrange(i, i + pat.len())[k] == s[i + k]);
    }
}

/// A placeholder: a brace at either end and none between.
spec fn is_placeholder(p: Seq<char>) -> bool {
    &&& p.len() >= 2
    &&& p[0] == '{'
    &&& p.last() == '}'
    &&& forall|k: int| 0 < k < p.len() ==> (#[trigger] p[k]) != '{'
    &&& forall|k: int| 0 <= k < p.len() - 1 ==> (#[trigger] p[k]) != '}'
}

/// No placeholder lies across the start of another.
proof fn lemma_seam_before(a: Seq<char>, word: Seq<char>, b: Seq<char>, pat: Seq<char>)
    requires
        is_placeholder(word),
        is_placeholder(pat),
    ensures
        seam_is_clean(a, word + b, pat),
{
    let s = a + (word + b);
    assert forall|j: int| j < a.len() < j + pat.len() implies !#[trigger] occurs_at(s, pat, j) by {
        if occurs_at(s, pat, j) {
            lemma_occurs_chars(s, pat, j);
            assert(s[a.len() as int] == word[0]);
            assert(pat[a.len() - j] == '{');
        }
    }
}

/// No placeholder lies across the end of another.
proof fn lemma_seam_after(word: Seq<char>, b: Seq<char>, pat: Seq<char>)
    requires
        is_placeholder(word),
        is_placeholder(pat),
    ensures
        seam_is_clean(word, b, pat),
{
    let s = word + b;
    let n = word.len() - 1;
    assert forall|j: int| j < word.len() < j + pat.len() implies !#[trigger] occurs_at(
        s,
        pat,
        j,
    ) by {
        if occurs_at(s, pat, j) {
            lemma_occurs_chars(s, pat, j);
            assert(s[n] == '}');
            assert(pat[n - j] == '}');
        }
    }
}

proof fn lemma_slug_not_in_hash()
    ensures
        is_placeholder("{slug}"@),
        is_placeholder("{hash}"@),
        !has_text("{hash}"@, "{slug}"@),
{
    lemma_placeholders();
    let (hash, pat) = ("{hash}"@, "{slug}"@);
    assert(hash.last() == '}' && pat.last() == '}');
    if has_text(hash, pat) {
        let j = choose|j: int| occurs_at(hash, pat, j);
        lemma_occurs_chars(hash, pat, j);
        assert(pat[1] == 's');
        assert(hash[j + 1] == 's');
    }
}

/// A pattern that names the hash still does once its slug is expanded: it is
/// some text, the placeholder, and some more.
proof fn lemma_slug_keeps_hash(pattern: Seq<char>, slug: Seq<char>)
    requires
        has_text(pattern, "{hash}"@),
    ensures
        exists|x: Seq<char>, y: Seq<char>|
            replaced(pattern, "{slug}"@, slug) == #[trigger] (x + "{hash}"@ + y),
{
    lemma_slug_not_in_hash();
    let hash = "{hash}"@;
    let pat = "{slug}"@;
    let i = choose|i: int| occurs_at(pattern, hash, i);
    let (a, b) = (pattern.take(i), pattern.skip(i + hash.len()));
    assert(pattern =~= a + (hash + b));
    lemma_seam_before(a, hash, b, pat);
    lemma_replaced_concat(a, hash + b, pat, slug);
    lemma_seam_after(hash, b, pat);
    lemma_replaced_concat(hash, b, pat, slug);
    lemma_nothing_to_replace(hash, pat, slug);
    let (x, y) = (replaced(a, pat, slug), replaced(b, pat, slug));
    assert(x + (hash + y) =~= x + hash + y);
    assert(replaced(pattern, pat, slug) == x + hash + y);
}

/// Expanding the hash where it first stands leaves what is in front of it.
proof fn lemma_hash_expands(s: Seq<char>, hash: Seq<char>)
    requires
        has_text(s, "{hash}"@),
    ensures
        exists|y: Seq<char>|
            replaced(s, "{hash}"@, hash) == #[trigger] (s.take(
                crate::text::first_at(s, "{hash}"@, 0)->0,
            ) + (hash + y)),
        crate::text::first_at(s, "{hash}"@, 0) is Some,
        0 <= crate::text::first_at(s, "{hash}"@, 0)->0 <= s.len(),
{
    lemma_placeholders();
    let pat = "{hash}"@;
    lemma_first_at(s, pat, 0);
    let j = choose|j: int| occurs_at(s, pat, j);
    assert(occurs_at(s, pat, j));
    let i = crate::text::first_at(s, pat, 0)->0;
    let y = replaced(s.skip(i + 6), pat, hash);
    assert(s.take(i) + hash + y =~= s.take(i) + (hash + y));
    assert(replaced(s, pat, hash) == s.take(i) + (hash + y));
}

/// The extension's placeholder cannot lie across, or in, a hash.
proof fn lemma_ext_around_hash(a: Seq<char>, hash: Seq<char>, y: Seq<char>, ext: Seq<char>)
    requires
        hash.len() >= 2,
        forall|i: int| 0 <= i < hash.len() ==> is_hex_digit(#[trigger] hash[i]),
    ensures
        replaced(a + (hash + y), "{ext}"@, ext) == replaced(a, "{ext}"@, ext) + (hash + replaced(
            y,
            "{ext}"@,
            ext,
        )),
{
    lemma_placeholders();
    let pat = "{ext}"@;
    let s = a + (hash + y);
    assert forall|j: int| j < a.len() < j + pat.len() implies !#[trigger] occurs_at(s, pat, j) by {
        if occurs_at(s, pat, j) {
            lemma_occurs_chars(s, pat, j);
            let k = a.len() - j;
            assert(s[a.len() as int] == hash[0]);
            assert(pat[k] == hash[0]);
            if k == 1 {
                assert(s[a.len() as int + 1] == hash[1]);
                assert(pat[2] == hash[1]);
            }
        }
    }
    lemma_replaced_concat(a, hash + y, pat, ext);
    assert forall|j: int| j < hash.len() < j + pat.len() implies !#[trigger] occurs_at(
        hash + y,
        pat,
        j,
    ) by {
        if occurs_at(hash + y, pat, j) {
            lemma_occurs_chars(hash + y, pat, j);
            assert(pat[0] == '{');
            assert((hash + y)[j] == hash[j]);
        }
    }
    lemma_replaced_concat(hash, y, pat, ext);
    assert(!has_text(hash, pat)) by {
        if has_text(hash, pat) {
            let j = choose|j: int| occurs_at(hash, pat, j);
            lemma_occurs_chars(hash, pat, j);
            assert(pat[0] == '{');
        }
    }
    lemma_nothing_to_replace(hash, pat, ext);
}

/// How many `/` stand at the start of `s`.
spec fn slashes(s: Seq<char>) -> int
    decreases s.len(),
{
    if s.len() > 0 && s[0] == '/' {
        1 + slashes(s.drop_first())
    } else {
        0
    }
}

proof fn lemma_slashes(s: Seq<char>)
    ensures
        0 <= slashes(s) <= s.len(),
        forall|j: int| 0 <= j < slashes(s) ==> s[j] == '/',
        slashes(s) < s.len() ==> s[slashes(s)] != '/',
    decreases s.len(),
{
    if s.len() > 0 && s[0] == '/' {
        lemma_slashes(s.drop_first());
        assert forall|j: int| 0 <= j < slashes(s) implies s[j] == '/' by {
            if j > 0 {
                assert(s.drop_first()[j - 1] == '/');
            }
        }
    }
}

/// A hash that follows some text stands in the key at a place that only that
/// text decides.
proof fn lemma_trim_around_hash(a: Seq<char>, hash: Seq<char>, y: Seq<char>)
    requires
        hash.len() > 0,
        is_hex_digit(hash[0]),
    ensures
        trim_start_by(a + (hash + y), |c: char| c == '/') == a.skip(slashes(a)) + (hash + y),
        0 <= slashes(a) <= a.len(),
{
    lemma_slashes(a);
    let s = a + (hash + y);
    let n = slashes(a);
    assert(s[a.len() as int] == hash[0]);
    lemma_trim_start(s, |c: char| c == '/', n);
    assert(s.skip(n) =~= a.skip(n) + (hash + y));
}

/// A hexadecimal digest, as body images are addressed by.
pub open spec fn is_digest(s: Seq<char>) -> bool {
    s.len() == 64 && forall|i: int| 0 <= i < s.len() ==> is_hex_digit(#[trigger] s[i])
}

/// Under a pattern that was accepted for media, two images of one post have one
/// key only if they have one digest: they do not overwrite each other.
pub proof fn images_do_not_overwrite_each_other(
    pattern: Seq<char>,
    slug: Seq<char>,
    a: Seq<char>,
    b: Seq<char>,
    ext: Seq<char>,
)
    requires
        has_text(pattern, "{hash}"@),
        is_digest(a),
        is_digest(b),
        rendered(pattern, slug, a, ext) == rendered(pattern, slug, b, ext),
    ensures
        a == b,
{
    lemma_slug_keeps_hash(pattern, slug);
    let s = replaced(pattern, "{slug}"@, slug);
    let (x, y) = choose|x: Seq<char>, y: Seq<char>| s == #[trigger] (x + "{hash}"@ + y);
    assert(occurs_at(s, "{hash}"@, x.len() as int)) by {
        assert(s.subrange(x.len() as int, x.len() as int + "{hash}"@.len()) =~= "{hash}"@);
    }
    lemma_hash_expands(s, a);
    lemma_hash_expands(s, b);
    let p = s.take(crate::text::first_at(s, "{hash}"@, 0)->0);
    let ya = choose|y: Seq<char>| replaced(s, "{hash}"@, a) == #[trigger] (p + (a + y));
    let yb = choose|y: Seq<char>| replaced(s, "{hash}"@, b) == #[trigger] (p + (b + y));
    lemma_ext_around_hash(p, a, ya, ext);
    lemma_ext_around_hash(p, b, yb, ext);
    let q = replaced(p, "{ext}"@, ext);
    let (za, zb) = (replaced(ya, "{ext}"@, ext), replaced(yb, "{ext}"@, ext));
    lemma_trim_around_hash(q, a, za);
    lemma_trim_around_hash(q, b, zb);
    let lead = q.skip(slashes(q));
    let n = lead.len() as int;
    assert((lead + (a + za)).subrange(n, n + 64) =~= a);
    assert((lead + (b + zb)).subrange(n, n + 64) =~= b);
}

proof fn lemma_trimmed_within(s: Seq<char>, p: spec_fn(char) -> bool, pat: Seq<char>)
    ensures
        has_text(trim_start_by(s, p), pat) ==> has_text(s, pat),
        has_text(trim_end_by(s, p), pat) ==> has_text(s, pat),
    decreases s.len(),
{
    if s.len() > 0 {
        if p(s[0]) && has_text(trim_start_by(s, p), pat) {
            let d = s.drop_first();
            lemma_trimmed_within(d, p, pat);
            let i = choose|i: int| occurs_at(d, pat, i);
            assert(s.subrange(i + 1, i + 1 + pat.len()) =~= d.subrange(i, i + pat.len()));
            assert(occurs_at(s, pat, i + 1));
        }
        if p(s.last()) && has_text(trim_end_by(s, p), pat) {
            let d = s.drop_last();
            lemma_trimmed_within(d, p, pat);
            let i = choose|i: int| occurs_at(d, pat, i);
            assert(s.subrange(i, i + pat.len()) =~= d.subrange(i, i + pat.len()));
            assert(occurs_at(s, pat, i));
        }
    }
}

/// A pattern that was accepted for media names the hash.
pub proof fn accepted_media_patterns_name_the_hash(pattern: Seq<char>)
    requires
        pattern_fault(pattern, PatternKind::Media) is None,
    ensures
        has_text(pattern, "{hash}"@),
{
    let white = |c: char| crate::text::is_white_space(c);
    assert(has_text(trimmed(pattern), "{hash}"@));
    lemma_trimmed_within(trim_start_by(pattern, white), white, "{hash}"@);
    lemma_trimmed_within(pattern, white, "{hash}"@);
}

/// Under a pattern that names the hash, an image's key holds its digest: it is some
/// text, the digest, and some more.
pub proof fn a_key_holds_its_digest(
    pattern: Seq<char>,
    slug: Seq<char>,
    digest: Seq<char>,
    ext: Seq<char>,
) -> (r: (Seq<char>, Seq<char>))
    requires
        has_text(pattern, "{hash}"@),
        is_digest(digest),
    ensures
        rendered(pattern, slug, digest, ext) == r.0 + digest + r.1,
{
    lemma_slug_keeps_hash(pattern, slug);
    let s = replaced(pattern, "{slug}"@, slug);
    let (x, y) = choose|x: Seq<char>, y: Seq<char>| s == #[trigger] (x + "{hash}"@ + y);
    assert(occurs_at(s, "{hash}"@, x.len() as int)) by {
        assert(s.subrange(x.len() as int, x.len() as int + "{hash}"@.len()) =~= "{hash}"@);
    }
    lemma_hash_expands(s, digest);
    let p = s.take(crate::text::first_at(s, "{hash}"@, 0)->0);
    let rest = choose|y: Seq<char>|
        replaced(s, "{hash}"@, digest) == #[trigger] (p + (digest + y));
    lemma_ext_around_hash(p, digest, rest, ext);
    let q = replaced(p, "{ext}"@, ext);
    let z = replaced(rest, "{ext}"@, ext);
    lemma_trim_around_hash(q, digest, z);
    let lead = q.skip(slashes(q));
    assert(lead + (digest + z) =~= lead + digest + z);
    (lead, z)
}

/// Publishing an unchanged image again writes the same key.
pub proof fn publishing_again_writes_the_same_key(
    pattern: Seq<char>,
    slug: Seq<char>,
    a: Seq<u8>,
    b: Seq<u8>,
    ext: Seq<char>,
)
    requires
        sha256(a) == sha256(b),
    ensures
        media_key_of(pattern, slug, a, ext) == media_key_of(pattern, slug, b, ext),
{
}

/// A body's key names its post: two slugs have two keys.
pub proof fn body_keys_tell_posts_apart(a: Seq<char>, b: Seq<char>)
    requires
        body_key_of(a) == body_key_of(b),
    ensures
        a == b,
{
    reveal_strlit("posts/");
    reveal_strlit(".md");
    let (x, y) = (body_key_of(a), body_key_of(b));
    assert(x.len() == y.len());
    assert(x.subrange(6, 6 + a.len() as int) =~= a);
    assert(y.subrange(6, 6 + b.len() as int) =~= b);
}

/// Which patterns are accepted: those that name the slug, climb nowhere, and, for the
/// images of a body and only for them, name the hash.
pub proof fn which_patterns_are_accepted(pattern: Seq<char>)
    ensures
        pattern_fault(pattern, PatternKind::Media) is None <==> trimmed(pattern).len() > 0
            && !has_text(trimmed(pattern), ".."@) && has_text(trimmed(pattern), "{slug}"@)
            && has_text(trimmed(pattern), "{hash}"@),
        pattern_fault(pattern, PatternKind::Thumbnail) is None <==> trimmed(pattern).len() > 0
            && !has_text(trimmed(pattern), ".."@) && has_text(trimmed(pattern), "{slug}"@)
            && !has_text(trimmed(pattern), "{hash}"@),
{
}

/// A slug is safe just where it holds nothing but letters, digits, `-` and `_`, and
/// something.
pub proof fn which_slugs_are_safe(s: Seq<char>)
    ensures
        safe_slug(s) <==> s.len() > 0 && forall|i: int|
            #![trigger s[i]]
            0 <= i < s.len() ==> 'a' <= s[i] <= 'z' || 'A' <= s[i] <= 'Z' || '0' <= s[i] <= '9'
                || s[i] == '-' || s[i] == '_',
{
}

/// Replacing a placeholder behind text without a brace puts the value in its place.
proof fn lemma_expand(before: Seq<char>, pat: Seq<char>, after: Seq<char>, with: Seq<char>)
    requires
        is_placeholder(pat),
        !before.contains('{'),
    ensures
        replaced(before + pat + after, pat, with) == before + with + replaced(after, pat, with),
{
    let s = before + pat + after;
    let n = before.len() as int;
    assert(s.subrange(n, n + pat.len()) =~= pat);
    assert(occurs_at(s, pat, n));
    lemma_first_at(s, pat, 0);
    let i = crate::text::first_at(s, pat, 0)->0;
    if i < n {
        lemma_occurs_chars(s, pat, i);
        assert(s[i + 0] == pat[0]);
        assert(s[i] == before[i]);
        assert(before.contains(before[i]));
    }
    assert(s.take(n) =~= before);
    assert(s.skip(n + pat.len()) =~= after);
}

/// Text without a brace has no placeholder.
proof fn lemma_no_placeholder(s: Seq<char>, pat: Seq<char>, with: Seq<char>)
    requires
        is_placeholder(pat),
        !s.contains('{'),
    ensures
        replaced(s, pat, with) == s,
{
    assert(!has_text(s, pat)) by {
        if has_text(s, pat) {
            let i = choose|i: int| occurs_at(s, pat, i);
            lemma_occurs_chars(s, pat, i);
            assert(s[i + 0] == pat[0]);
            assert(s.contains(s[i]));
        }
    }
    lemma_nothing_to_replace(s, pat, with);
}

/// Replacing another placeholder than the one that comes first leaves that one alone.
proof fn lemma_pass_over(
    before: Seq<char>,
    word: Seq<char>,
    after: Seq<char>,
    pat: Seq<char>,
    with: Seq<char>,
)
    requires
        is_placeholder(word),
        is_placeholder(pat),
        !has_text(word, pat),
        !before.contains('{'),
    ensures
        replaced(before + word + after, pat, with) == before + word + replaced(after, pat, with),
{
    assert(before + word + after =~= before + (word + after));
    lemma_seam_before(before, word, after, pat);
    lemma_replaced_concat(before, word + after, pat, with);
    lemma_seam_after(word, after, pat);
    lemma_replaced_concat(word, after, pat, with);
    lemma_nothing_to_replace(word, pat, with);
    lemma_no_placeholder(before, pat, with);
    assert(before + (word + replaced(after, pat, with)) =~= before + word + replaced(
        after,
        pat,
        with,
    ));
}

proof fn lemma_words_apart()
    ensures
        is_placeholder("{slug}"@),
        is_placeholder("{hash}"@),
        is_placeholder("{ext}"@),
        !has_text("{hash}"@, "{slug}"@),
        !has_text("{ext}"@, "{slug}"@),
        !has_text("{ext}"@, "{hash}"@),
{
    lemma_placeholders();
    lemma_slug_not_in_hash();
    let ext = "{ext}"@;
    assert(ext.len() == 5 && "{slug}"@.len() == 6 && "{hash}"@.len() == 6);
    if has_text(ext, "{slug}"@) {
        let j = choose|j: int| occurs_at(ext, "{slug}"@, j);
        assert(j + 6 <= 5);
    }
    if has_text(ext, "{hash}"@) {
        let j = choose|j: int| occurs_at(ext, "{hash}"@, j);
        assert(j + 6 <= 5);
    }
}

/// A key is its pattern with the slug, the hash and the extension where the pattern
/// says, and the rest as it is written.
#[verifier::spinoff_prover]
pub proof fn a_key_is_its_pattern_filled_in(
    a: Seq<char>,
    b: Seq<char>,
    c: Seq<char>,
    d: Seq<char>,
    slug: Seq<char>,
    hash: Seq<char>,
    ext: Seq<char>,
)
    requires
        !a.contains('{') && !b.contains('{') && !c.contains('{') && !d.contains('{'),
        !slug.contains('{') && !hash.contains('{') && !ext.contains('{'),
    ensures
        expanded(
            a + "{slug}"@ + (b + "{hash}"@ + (c + "{ext}"@ + d)),
            slug,
            hash,
            ext,
        ) == a + slug + b + hash + c + ext + d,
        a.len() > 0 && a[0] != '/' ==> rendered(
            a + "{slug}"@ + (b + "{hash}"@ + (c + "{ext}"@ + d)),
            slug,
            hash,
            ext,
        ) == a + slug + b + hash + c + ext + d,
{
    lemma_words_apart();
    let (s, h, e) = ("{slug}"@, "{hash}"@, "{ext}"@);
    let inner = c + e + d;
    let tail = b + h + inner;
    let pattern = a + s + tail;
    lemma_expand(a, s, tail, slug);
    lemma_pass_over(b, h, inner, s, slug);
    lemma_pass_over(c, e, d, s, slug);
    lemma_no_placeholder(d, s, slug);
    let one = a + slug + tail;
    assert(replaced(pattern, s, slug) == one);
    let lead = a + slug + b;
    assert(!lead.contains('{')) by {
        if lead.contains('{') {
            let i = choose|i: int| 0 <= i < lead.len() && lead[i] == '{';
            if i < a.len() {
                assert(a.contains(a[i]));
            } else if i < a.len() + slug.len() {
                assert(slug.contains(slug[i - a.len()]));
            } else {
                assert(b.contains(b[i - a.len() - slug.len()]));
            }
        }
    }
    assert(one =~= lead + h + inner);
    lemma_expand(lead, h, inner, hash);
    lemma_pass_over(c, e, d, h, hash);
    lemma_no_placeholder(d, h, hash);
    let two = lead + hash + inner;
    assert(replaced(one, h, hash) == two);
    let front = lead + hash + c;
    assert(!front.contains('{')) by {
        if front.contains('{') {
            let i = choose|i: int| 0 <= i < front.len() && front[i] == '{';
            if i < lead.len() {
                assert(lead.contains(lead[i]));
            } else if i < lead.len() + hash.len() {
                assert(hash.contains(hash[i - lead.len()]));
            } else {
                assert(c.contains(c[i - lead.len() - hash.len()]));
            }
        }
    }
    assert(two =~= front + e + d);
    lemma_expand(front, e, d, ext);
    lemma_no_placeholder(d, e, ext);
    let out = a + slug + b + hash + c + ext + d;
    assert(front + ext + d =~= out);
    if a.len() > 0 && a[0] != '/' {
        assert(out[0] == a[0]);
        lemma_trim_start(out, |x: char| x == '/', 0);
        assert(out.skip(0) =~= out);
    }
}

/// An address is the origin, one slash and the key, however many slashes the origin
/// ends in.
pub proof fn an_address_has_one_slash(base: Seq<char>, slashes: Seq<char>, key: Seq<char>)
    requires
        base.len() > 0,
        base.last() != '/',
        forall|i: int| 0 <= i < slashes.len() ==> (#[trigger] slashes[i]) == '/',
    ensures
        public_url_of(base + slashes, key) == base + "/"@ + key,
{
    let full = base + slashes;
    let n = base.len() as int;
    assert forall|j: int| n <= j < full.len() implies full[j] == '/' by {
        assert(full[j] == slashes[j - n]);
    }
    assert(full[n - 1] == base.last());
    crate::text::lemma_trim_end(full, |c: char| c == '/', n);
    assert(full.take(n) =~= base);
}

}
