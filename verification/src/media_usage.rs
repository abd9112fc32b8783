//! Which posts still depend on a media object.
//!
//! A post never mentions a library key: an image is copied on its way into a
//! post, and again on its way to the blog. What survives both copies is the
//! bytes, so usage is matched by content: the digest in a published URL, and
//! the digest of a staged file, are what a library object is compared with.

use crate::db::Store;
use crate::digest::{hex_is_small, hex_of, sha256};
use crate::entities::post;
use crate::entities::post::PostRow;
use crate::media_keys::{
    a_key_holds_its_digest, content_digest, media_key_of, public_url_of,
};
use crate::table::{in_order, lemma_push_contains, rows_view, sort, Order};
use crate::text::{
    chars_of, comes_before, find_from, first_at, firsts, has_text, hex_digit, holds, is_before,
    is_hex_digit, is_white_space, lemma_first_at, lemma_first_skip, lemma_firsts_contains,
    lemma_order_total, lemma_order_transitive, lower, push_new, same, string_of, to_lower, trim_end_by, views,
    white_space,
};
use vstd::prelude::*;
use vstd::slice::slice_subrange;

verus! {

// ─── What a body refers to ──────────────────────────────────────────────────

/// A reference to a staged file ends before such a character.
pub open spec fn ends_reference(c: char) -> bool {
    c == ')' || c == ']' || c == '"' || c == '\'' || is_white_space(c)
}

/// How many characters of `s` come before one that ends a reference.
pub open spec fn reference_len(s: Seq<char>) -> int
    decreases s.len(),
{
    if s.len() == 0 || ends_reference(s[0]) {
        0
    } else {
        1 + reference_len(s.drop_first())
    }
}

/// Every name that follows `assets/` in `s`, in order, repeats included.
pub open spec fn mentioned(s: Seq<char>) -> Seq<Seq<char>>
    decreases s.len(),
{
    match first_at(s, "assets/"@, 0) {
        Some(i) => {
            if 0 <= i && i + "assets/"@.len() <= s.len() && "assets/"@.len() > 0 {
                let after = s.skip(i + "assets/"@.len());
                let n = reference_len(after);
                if 0 < n <= after.len() {
                    seq![after.take(n)] + mentioned(after.skip(n))
                } else {
                    mentioned(after)
                }
            } else {
                Seq::empty()
            }
        },
        None => Seq::empty(),
    }
}

proof fn lemma_reference_len(s: Seq<char>, n: int)
    requires
        0 <= n <= s.len(),
        forall|j: int| 0 <= j < n ==> !ends_reference(#[trigger] s[j]),
        n < s.len() ==> ends_reference(s[n]),
    ensures
        reference_len(s) == n,
    decreases n,
{
    if n > 0 {
        assert forall|j: int| 0 <= j < n - 1 implies !ends_reference(
            #[trigger] s.drop_first()[j],
        ) by {
            assert(s.drop_first()[j] == s[j + 1]);
        }
        lemma_reference_len(s.drop_first(), n - 1);
    }
}

/// Every distinct name that follows `assets/` in a body, in the order in which
/// they are first mentioned.
///
/// Loose on purpose: it is the same scan that publishing makes, and a stricter
/// one would report a post as unaffected by a deletion that publishing would
/// then go looking for.
pub fn asset_names(body: &str) -> (out: Vec<String>)
    ensures
        views(out@) == firsts(mentioned(body@)),
{
    let x: Vec<char> = chars_of(body);
    let word: Vec<char> = chars_of("assets/");
    let mut out: Vec<String> = Vec::new();
    let mut at: usize = 0;
    let ghost mut seen: Seq<Seq<char>> = Seq::empty();
    let len: usize = x.len();
    proof {
        reveal_strlit("assets/");
        assert(x@.skip(0) =~= x@);
        assert(views(out@) =~= firsts(seen));
        assert(seen + mentioned(x@) =~= mentioned(x@));
    }
    loop
        invariant
            at <= len,
            len == x@.len(),
            x@ == body@,
            word@ == "assets/"@,
            word@.len() == 7,
            views(out@) == firsts(seen),
            seen + mentioned(x@.skip(at as int)) == mentioned(body@),
        decreases len - at,
    {
        proof {
            lemma_first_at(x@, word@, at as int);
            lemma_first_skip(x@, word@, at as int);
        }
        match find_from(x.as_slice(), word.as_slice(), at) {
            None => {
                assert(seen + Seq::<Seq<char>>::empty() =~= seen);
                return out;
            },
            Some(pos) => {
                let start: usize = pos + word.len();
                let mut end: usize = start;
                while end < len && !(x[end] == ')' || x[end] == ']' || x[end] == '"' || x[end]
                    == '\'' || white_space(x[end]))
                    invariant
                        start <= end <= len,
                        len == x@.len(),
                        forall|j: int| start <= j < end ==> !ends_reference(#[trigger] x@[j]),
                    decreases len - end,
                {
                    end = end + 1;
                }
                proof {
                    let rest = x@.skip(at as int);
                    let after = x@.skip(start as int);
                    assert(rest.skip(pos - at + 7) =~= after);
                    assert forall|j: int| 0 <= j < end - start implies !ends_reference(
                        #[trigger] after[j],
                    ) by {
                        assert(after[j] == x@[start + j]);
                    }
                    lemma_reference_len(after, end - start);
                    assert(after.take(end - start) =~= x@.subrange(start as int, end as int));
                    assert(after.skip(end - start) =~= x@.skip(end as int));
                    assert(after.skip(0) =~= after);
                }
                if end > start {
                    let name: String = string_of(slice_subrange(x.as_slice(), start, end));
                    proof {
                        let more = seen.push(name@);
                        assert(more.drop_last() =~= seen);
                        assert(seen + (seq![name@] + mentioned(x@.skip(end as int))) =~= more
                            + mentioned(x@.skip(end as int)));
                        seen = more;
                    }
                    push_new(&mut out, name);
                }
                at = end;
            },
        }
    }
}

/// Sixty-four hexadecimal characters stand in `s` from `i` on.
pub open spec fn hex_window(s: Seq<char>, i: int) -> bool {
    0 <= i && i + 64 <= s.len() && forall|j: int| i <= j < i + 64 ==> is_hex_digit(#[trigger] s[j])
}

/// The sixty-four characters from `i` on, as a digest is written.
pub open spec fn window_at(s: Seq<char>, i: int) -> Seq<char> {
    lower(s.subrange(i, i + 64))
}

/// Every window of hexadecimal characters that ends by `n`, in order, repeats
/// included.
pub open spec fn windows_to(s: Seq<char>, n: int) -> Seq<Seq<char>>
    decreases n,
{
    if n < 64 {
        Seq::empty()
    } else if hex_window(s, n - 64) {
        windows_to(s, n - 1).push(window_at(s, n - 64))
    } else {
        windows_to(s, n - 1)
    }
}

/// Every distinct digest that a body could be naming, in the order in which
/// they first stand in it.
///
/// Any sixty-four hexadecimal characters in a row count, also where they are
/// part of a longer run: the layout of a key is configurable, and may put
/// something else hexadecimal next to the hash. A window counts only if some
/// object's bytes really hash to it.
pub fn published_digests(body: &str) -> (out: Vec<String>)
    ensures
        views(out@) == firsts(windows_to(body@, body@.len() as int)),
{
    let x: Vec<char> = chars_of(body);
    let mut out: Vec<String> = Vec::new();
    let mut run: usize = 0;
    let mut n: usize = 0;
    assert(views(out@) =~= firsts(windows_to(x@, 0)));
    while n < x.len()
        invariant
            n <= x@.len(),
            run <= n,
            forall|j: int| n - run <= j < n ==> is_hex_digit(#[trigger] x@[j]),
            run < n ==> !is_hex_digit(x@[n - run - 1]),
            views(out@) == firsts(windows_to(x@, n as int)),
        decreases x@.len() - n,
    {
        if hex_digit(x[n]) {
            run = run + 1;
        } else {
            run = 0;
        }
        n = n + 1;
        let ghost prior = windows_to(x@, n - 1);
        if run >= 64 {
            let window: String = to_lower(
                string_of(slice_subrange(x.as_slice(), n - 64, n)).as_str(),
            );
            proof {
                assert(hex_window(x@, n - 64));
                assert(window@ == window_at(x@, n - 64));
                assert(windows_to(x@, n as int).drop_last() =~= prior);
            }
            push_new(&mut out, window);
        } else {
            assert(!hex_window(x@, n - 64)) by {
                if hex_window(x@, n - 64) {
                    assert(!is_hex_digit(x@[n - run - 1]));
                }
            }
        }
    }
    out
}

/// The window at every place where one stands is among the digests.
pub proof fn every_window_is_found(s: Seq<char>, n: int, i: int)
    requires
        hex_window(s, i),
        i + 64 <= n <= s.len(),
    ensures
        firsts(windows_to(s, n)).contains(window_at(s, i)),
    decreases n,
{
    lemma_firsts_contains(windows_to(s, n));
    if i + 64 == n {
        lemma_push_contains(windows_to(s, n - 1), window_at(s, i));
    } else {
        every_window_is_found(s, n - 1, i);
        lemma_firsts_contains(windows_to(s, n - 1));
        if hex_window(s, n - 64) {
            lemma_push_contains(windows_to(s, n - 1), window_at(s, n - 64));
        }
    }
}

/// A digest is found however the key is laid out around it.
pub proof fn a_digest_is_found_in_any_layout(before: Seq<char>, digest: Seq<char>, after: Seq<char>)
    requires
        digest.len() == 64,
        forall|i: int| 0 <= i < 64 ==> is_hex_digit(#[trigger] digest[i]),
    ensures
        ({
            let s = before + digest + after;
            firsts(windows_to(s, s.len() as int)).contains(lower(digest))
        }),
{
    let s = before + digest + after;
    let i = before.len() as int;
    assert forall|j: int| i <= j < i + 64 implies is_hex_digit(#[trigger] s[j]) by {
        assert(s[j] == digest[j - i]);
    }
    assert(s.subrange(i, i + 64) =~= digest);
    every_window_is_found(s, s.len() as int, i);
}

/// An image is found again in what a publication writes: under every pattern that
/// names the hash, as those accepted for media do, the digest of its bytes is among
/// those that its published URL names, wherever in a body that stands. A SHA-256
/// digest has 32 bytes.
pub proof fn a_published_image_is_found(
    before: Seq<char>,
    base: Seq<char>,
    pattern: Seq<char>,
    slug: Seq<char>,
    bytes: Seq<u8>,
    ext: Seq<char>,
    after: Seq<char>,
)
    requires
        has_text(pattern, "{hash}"@),
    ensures
        sha256(bytes).len() == 32 ==> ({
            let body = before + public_url_of(base, media_key_of(pattern, slug, bytes, ext))
                + after;
            firsts(windows_to(body, body.len() as int)).contains(hex_of(sha256(bytes)))
        }),
{
    if sha256(bytes).len() == 32 {
        let digest = hex_of(sha256(bytes));
        hex_is_small(sha256(bytes));
        let (lead, rest) = a_key_holds_its_digest(pattern, slug, digest, ext);
        let key = media_key_of(pattern, slug, bytes, ext);
        let origin = trim_end_by(base, |c: char| c == '/') + "/"@;
        let body = before + public_url_of(base, key) + after;
        assert(body =~= (before + origin + lead) + digest + (rest + after));
        a_digest_is_found_in_any_layout(before + origin + lead, digest, rest + after);
    }
}

/// A name is one ordinary file name and nothing else.
pub open spec fn plain_name(name: Seq<char>) -> bool {
    &&& name.len() > 0
    &&& !name.contains('/')
    &&& !name.contains('\\')
    &&& !name.contains(':')
    &&& name != "."@
    &&& name != ".."@
}

/// One ordinary file name and nothing else: no separators, no traversal.
pub fn is_plain_name(name: &str) -> (r: bool)
    ensures
        r == plain_name(name@),
{
    let x: Vec<char> = chars_of(name);
    let mut i: usize = 0;
    while i < x.len()
        invariant
            i <= x@.len(),
            x@ == name@,
            forall|j: int|
                0 <= j < i ==> (#[trigger] x@[j]) != '/' && x@[j] != '\\' && x@[j] != ':',
        decreases x@.len() - i,
    {
        let c: char = x[i];
        if c == '/' || c == '\\' || c == ':' {
            assert(name@.contains(x@[i as int]));
            return false;
        }
        i = i + 1;
    }
    x.len() > 0 && !same(name, ".") && !same(name, "..")
}

/// The names in a body that may be read from the assets directory, in order.
pub open spec fn readable(names: Seq<Seq<char>>) -> Seq<Seq<char>>
    decreases names.len(),
{
    if names.len() == 0 {
        Seq::empty()
    } else if plain_name(names.last()) {
        readable(names.drop_last()).push(names.last())
    } else {
        readable(names.drop_last())
    }
}

/// The staged files that a body refers to and that may be read: names that
/// would reach outside the assets directory stop here.
pub fn assets_to_read(body: &str) -> (out: Vec<String>)
    ensures
        views(out@) == readable(firsts(mentioned(body@))),
{
    let names: Vec<String> = asset_names(body);
    let ghost all = views(names@);
    let mut out: Vec<String> = Vec::new();
    let mut i: usize = 0;
    assert(all.take(0) =~= Seq::<Seq<char>>::empty());
    assert(views(out@) =~= Seq::<Seq<char>>::empty());
    while i < names.len()
        invariant
            i <= names@.len(),
            all == views(names@),
            views(out@) == readable(all.take(i as int)),
        decreases names@.len() - i,
    {
        let ghost before = views(out@);
        assert(all.take(i + 1).drop_last() =~= all.take(i as int));
        assert(all.take(i + 1).last() == names@[i as int]@);
        if is_plain_name(names[i].as_str()) {
            out.push(names[i].clone());
            assert(views(out@) =~= before.push(names@[i as int]@));
        }
        i = i + 1;
    }
    assert(all.take(i as int) =~= all);
    out
}

/// Nothing that is read reaches outside the assets directory.
pub proof fn only_plain_names_are_read(names: Seq<Seq<char>>, i: int)
    requires
        0 <= i < readable(names).len(),
    ensures
        plain_name(readable(names)[i]),
    decreases names.len(),
{
    if names.len() > 0 {
        if i < readable(names.drop_last()).len() {
            only_plain_names_are_read(names.drop_last(), i);
        }
    }
}

/// The digests of the files that were read; one that was not read has none.
pub open spec fn digests_of(files: Seq<Option<Vec<u8>>>) -> Seq<Seq<char>>
    decreases files.len(),
{
    if files.len() == 0 {
        Seq::empty()
    } else {
        match files.last() {
            Some(bytes) => digests_of(files.drop_last()).push(hex_of(sha256(bytes@))),
            None => digests_of(files.drop_last()),
        }
    }
}

/// The digests that a body depends on: those that it names, and those of the
/// staged files that it refers to. `files` holds what was read of
/// [`assets_to_read`], with nothing for a file that could not be read.
pub fn digests_used_by(body: &str, files: &Vec<Option<Vec<u8>>>) -> (out: Vec<String>)
    ensures
        views(out@) == firsts(windows_to(body@, body@.len() as int) + digests_of(files@)),
{
    let mut out: Vec<String> = published_digests(body);
    let ghost base = windows_to(body@, body@.len() as int);
    let mut i: usize = 0;
    assert(files@.take(0) =~= Seq::<Option<Vec<u8>>>::empty());
    assert(base + digests_of(files@.take(0)) =~= base);
    while i < files.len()
        invariant
            i <= files@.len(),
            base == windows_to(body@, body@.len() as int),
            views(out@) == firsts(base + digests_of(files@.take(i as int))),
        decreases files@.len() - i,
    {
        let ghost so_far = base + digests_of(files@.take(i as int));
        assert(files@.take(i + 1).drop_last() =~= files@.take(i as int));
        assert(files@.take(i + 1).last() == files@[i as int]);
        match &files[i] {
            Some(bytes) => {
                let digest: String = content_digest(bytes.as_slice());
                proof {
                    let next = base + digests_of(files@.take(i + 1));
                    assert(next =~= so_far.push(digest@));
                    assert(next.drop_last() =~= so_far);
                }
                push_new(&mut out, digest);
            },
            None => {},
        }
        i = i + 1;
    }
    assert(files@.take(i as int) =~= files@);
    out
}

// ─── The survey ─────────────────────────────────────────────────────────────

/// Why a post could not be checked.
#[derive(Clone, Copy, Debug, PartialEq, Eq, Structural)]
pub enum Unchecked {
    /// Its Markdown is in the cloud and nowhere on this machine.
    BodyNotCached,
    /// Its cached Markdown is behind the cloud's.
    BodyStale,
}

/// A post that depends on a media object.
#[derive(Debug, PartialEq, Eq)]
pub struct UsingPost {
    pub id: i32,
    pub slug: String,
    pub title: String,
    /// Whether the post is in the trash. Still a reference: it can be restored.
    pub trashed: bool,
    /// Whether the post is live on the blog.
    pub published: bool,
}

pub struct UsingRow {
    pub id: i32,
    pub slug: Seq<char>,
    pub title: Seq<char>,
    pub trashed: bool,
    pub published: bool,
}

impl View for UsingPost {
    type V = UsingRow;

    open spec fn view(&self) -> UsingRow {
        UsingRow {
            id: self.id,
            slug: self.slug@,
            title: self.title@,
            trashed: self.trashed,
            published: self.published,
        }
    }
}

impl Clone for UsingPost {
    fn clone(&self) -> (r: Self)
        ensures
            r@ == self@,
    {
        UsingPost {
            id: self.id,
            slug: self.slug.clone(),
            title: self.title.clone(),
            trashed: self.trashed,
            published: self.published,
        }
    }
}

/// One media object and the posts that depend on it.
#[derive(Debug, PartialEq, Eq)]
pub struct MediaUsage {
    /// The object's key, such as `media/3f2b.avif`.
    pub key: String,
    pub posts: Vec<UsingPost>,
}

pub struct UsageRow {
    pub key: Seq<char>,
    pub posts: Seq<UsingRow>,
}

impl View for MediaUsage {
    type V = UsageRow;

    open spec fn view(&self) -> UsageRow {
        UsageRow { key: self.key@, posts: rows_view(self.posts@) }
    }
}

/// A post that could not be read, and so could not be matched with anything.
#[derive(Debug, PartialEq, Eq)]
pub struct UnreadPost {
    pub id: i32,
    pub title: String,
}

pub struct UnreadRow {
    pub id: i32,
    pub title: Seq<char>,
}

impl View for UnreadPost {
    type V = UnreadRow;

    open spec fn view(&self) -> UnreadRow {
        UnreadRow { id: self.id, title: self.title@ }
    }
}

/// What a survey found, and what it could not see.
#[derive(Debug, PartialEq, Eq)]
pub struct UsageReport {
    pub objects: Vec<MediaUsage>,
    /// While this is not empty, having no known users is not being unused.
    pub unread_posts: Vec<UnreadPost>,
}

/// An object of the local media library, and the digest of its bytes.
pub struct LibraryObject {
    pub key: String,
    pub digest: String,
}

pub struct ObjectRow {
    pub key: Seq<char>,
    pub digest: Seq<char>,
}

impl View for LibraryObject {
    type V = ObjectRow;

    open spec fn view(&self) -> ObjectRow {
        ObjectRow { key: self.key@, digest: self.digest@ }
    }
}

/// A library object of this name and these bytes.
pub fn library_object(name: &str, bytes: &[u8]) -> (r: LibraryObject)
    ensures
        r@ == (ObjectRow { key: "media/"@ + name@, digest: hex_of(sha256(bytes@)) }),
{
    LibraryObject { key: crate::text::plus("media/", name), digest: content_digest(bytes) }
}

/// A post, and the digests that it depends on; none where its Markdown is not
/// on this machine to be read.
pub struct ReadPost {
    pub post: post::Model,
    pub digests: Option<Vec<String>>,
}

pub struct ReadRow {
    pub post: PostRow,
    pub digests: Option<Seq<Seq<char>>>,
}

impl View for ReadPost {
    type V = ReadRow;

    open spec fn view(&self) -> ReadRow {
        ReadRow {
            post: self.post@,
            digests: match self.digests {
                Some(d) => Some(views(d@)),
                None => None,
            },
        }
    }
}

/// How a post is named among an object's users.
pub open spec fn using_row(post: PostRow, trashed: Set<i32>) -> UsingRow {
    UsingRow {
        id: post.id,
        slug: post.slug,
        title: post.title,
        trashed: trashed.contains(post.id),
        published: post.published,
    }
}

/// The posts that depend on this digest, in their order.
pub open spec fn users_of_digest(
    posts: Seq<ReadRow>,
    trashed: Set<i32>,
    digest: Seq<char>,
) -> Seq<UsingRow>
    decreases posts.len(),
{
    if posts.len() == 0 {
        Seq::empty()
    } else {
        let before = users_of_digest(posts.drop_last(), trashed, digest);
        if posts.last().digests matches Some(d) && d.contains(digest) {
            before.push(using_row(posts.last().post, trashed))
        } else {
            before
        }
    }
}

/// The posts that could not be read, in their order.
pub open spec fn unread(posts: Seq<ReadRow>) -> Seq<UnreadRow>
    decreases posts.len(),
{
    if posts.len() == 0 {
        Seq::empty()
    } else if posts.last().digests is None {
        unread(posts.drop_last()).push(
            UnreadRow { id: posts.last().post.id, title: posts.last().post.title },
        )
    } else {
        unread(posts.drop_last())
    }
}

/// What the survey says of one object.
pub open spec fn usage_of(object: ObjectRow, posts: Seq<ReadRow>, trashed: Set<i32>) -> UsageRow {
    UsageRow { key: object.key, posts: users_of_digest(posts, trashed, object.digest) }
}

/// Objects by key.
pub struct ByKey;

impl Order<MediaUsage> for ByKey {
    open spec fn before(a: UsageRow, b: UsageRow) -> bool {
        comes_before(a.key, b.key)
    }

    fn is_before(a: &MediaUsage, b: &MediaUsage) -> (r: bool) {
        is_before(a.key.as_str(), b.key.as_str())
    }

    proof fn lemma_order(a: UsageRow, b: UsageRow, c: UsageRow) {
        lemma_order_total(a.key, b.key);
        lemma_order_total(b.key, c.key);
        lemma_order_total(a.key, c.key);
        if comes_before(c.key, a.key) && comes_before(a.key, b.key) {
            lemma_order_transitive(c.key, a.key, b.key);
        }
    }
}

/// The posts that depend on a digest.
fn users_of_digest_exec(db: &Store, posts: &Vec<ReadPost>, digest: &str) -> (out: Vec<UsingPost>)
    requires
        db.wf(),
    ensures
        rows_view(out@) == users_of_digest(rows_view(posts@), db@.trash.dom(), digest@),
{
    let ghost all = rows_view(posts@);
    let mut out: Vec<UsingPost> = Vec::new();
    let mut i: usize = 0;
    assert(all.take(0) =~= Seq::<ReadRow>::empty());
    assert(rows_view(out@) =~= Seq::<UsingRow>::empty());
    while i < posts.len()
        invariant
            i <= posts@.len(),
            all == rows_view(posts@),
            db.wf(),
            rows_view(out@) == users_of_digest(all.take(i as int), db@.trash.dom(), digest@),
        decreases posts@.len() - i,
    {
        let read: &ReadPost = &posts[i];
        let ghost before = rows_view(out@);
        proof {
            assert(all.take(i + 1).drop_last() =~= all.take(i as int));
            assert(all.take(i + 1).last() == read@);
        }
        let uses: bool = match &read.digests {
            Some(d) => holds(d, digest),
            None => false,
        };
        if uses {
            let user = UsingPost {
                id: read.post.id,
                slug: read.post.slug.clone(),
                title: read.post.title.clone(),
                trashed: db.trash.has(&read.post.id),
                published: read.post.published,
            };
            let ghost v = user@;
            out.push(user);
            assert(rows_view(out@) =~= before.push(v));
        }
        i = i + 1;
    }
    assert(all.take(i as int) =~= all);
    out
}

/// Every media object of the local library with the posts that depend on it,
/// sorted by key. Objects without users are there, with none: that is the
/// answer most worth showing.
///
/// Posts in the trash count, and are marked: restoring one to a broken image
/// would be a poor trade.
pub fn survey(db: &Store, library: &Vec<LibraryObject>, posts: &Vec<ReadPost>) -> (r: UsageReport)
    requires
        db.wf(),
    ensures
        in_order::<MediaUsage, ByKey>(rows_view(r.objects@)),
        rows_view(r.objects@).to_multiset() == rows_view(library@).map_values(
            |o: ObjectRow| usage_of(o, rows_view(posts@), db@.trash.dom()),
        ).to_multiset(),
        rows_view(r.unread_posts@) == unread(rows_view(posts@)),
{
    let ghost all = rows_view(posts@);
    let ghost objs = rows_view(library@);
    let ghost f = |o: ObjectRow| usage_of(o, rows_view(posts@), db@.trash.dom());
    let mut objects: Vec<MediaUsage> = Vec::new();
    let mut i: usize = 0;
    while i < library.len()
        invariant
            i <= library@.len(),
            all == rows_view(posts@),
            objs == rows_view(library@),
            f == (|o: ObjectRow| usage_of(o, rows_view(posts@), db@.trash.dom())),
            db.wf(),
            rows_view(objects@) =~= objs.map_values(f).take(i as int),
        decreases library@.len() - i,
    {
        let object: &LibraryObject = &library[i];
        let ghost before = rows_view(objects@);
        let usage = MediaUsage {
            key: object.key.clone(),
            posts: users_of_digest_exec(db, posts, object.digest.as_str()),
        };
        let ghost v = usage@;
        assert(v == f(objs[i as int]));
        objects.push(usage);
        assert(rows_view(objects@) =~= before.push(v));
        i = i + 1;
    }
    assert(objs.map_values(f).take(i as int) =~= objs.map_values(f));
    let sorted: Vec<MediaUsage> = sort::<MediaUsage, ByKey>(objects);
    let mut unread_posts: Vec<UnreadPost> = Vec::new();
    let mut k: usize = 0;
    assert(all.take(0) =~= Seq::<ReadRow>::empty());
    assert(rows_view(unread_posts@) =~= Seq::<UnreadRow>::empty());
    while k < posts.len()
        invariant
            k <= posts@.len(),
            all == rows_view(posts@),
            rows_view(unread_posts@) == unread(all.take(k as int)),
        decreases posts@.len() - k,
    {
        let read: &ReadPost = &posts[k];
        let ghost before = rows_view(unread_posts@);
        proof {
            assert(all.take(k + 1).drop_last() =~= all.take(k as int));
            assert(all.take(k + 1).last() == read@);
        }
        if read.digests.is_none() {
            let post = UnreadPost { id: read.post.id, title: read.post.title.clone() };
            let ghost v = post@;
            unread_posts.push(post);
            assert(rows_view(unread_posts@) =~= before.push(v));
        }
        k = k + 1;
    }
    assert(all.take(k as int) =~= all);
    UsageReport { objects: sorted, unread_posts }
}

/// What the deletion guard knows of one object.
#[derive(Debug, PartialEq, Eq)]
pub struct DeletionCheck {
    pub users: Vec<UsingPost>,
    pub unread_posts: Vec<UnreadPost>,
    /// The object itself could not be hashed, so nothing was matched with it.
    pub unknown: bool,
}

impl DeletionCheck {
    /// The question was answered, and nothing refers to the object.
    pub open spec fn safe(&self) -> bool {
        !self.unknown && self.users@.len() == 0 && self.unread_posts@.len() == 0
    }

    /// Can this object be deleted without asking anybody?
    ///
    /// Only when the question was answered: nothing refers to it, every post
    /// could be read, and the object itself could be hashed.
    pub fn is_safe(&self) -> (r: bool)
        ensures
            r == self.safe(),
    {
        !self.unknown && self.users.len() == 0 && self.unread_posts.len() == 0
    }
}

/// The posts that depend on one object, for the check that guards a deletion.
/// An object that is not in the local library could not be hashed, and is
/// unknown rather than unused.
pub fn users_of(
    db: &Store,
    library: &Vec<LibraryObject>,
    posts: &Vec<ReadPost>,
    key: &str,
) -> (r: DeletionCheck)
    requires
        db.wf(),
    ensures
        r.unknown <==> !exists|i: int|
            0 <= i < library@.len() && (#[trigger] library@[i]).key@ == key@,
        r.unknown ==> r.users@.len() == 0,
        !r.unknown ==> exists|i: int|
            0 <= i < library@.len() && (#[trigger] library@[i]).key@ == key@ && rows_view(r.users@)
                == users_of_digest(rows_view(posts@), db@.trash.dom(), library@[i].digest@),
        rows_view(r.unread_posts@) == unread(rows_view(posts@)),
{
    let report: UsageReport = survey(db, library, posts);
    let ghost f = |o: ObjectRow| usage_of(o, rows_view(posts@), db@.trash.dom());
    let ghost mapped = rows_view(library@).map_values(f);
    let ghost shown = rows_view(report.objects@);
    let mut i: usize = 0;
    while i < report.objects.len()
        invariant
            i <= report.objects@.len(),
            shown == rows_view(report.objects@),
            mapped == rows_view(library@).map_values(f),
            f == (|o: ObjectRow| usage_of(o, rows_view(posts@), db@.trash.dom())),
            shown.to_multiset() == mapped.to_multiset(),
            rows_view(report.unread_posts@) == unread(rows_view(posts@)),
            forall|j: int| 0 <= j < i ==> (#[trigger] shown[j]).key != key@,
        decreases report.objects@.len() - i,
    {
        if same(report.objects[i].key.as_str(), key) {
            proof {
                let v = shown[i as int];
                assert(shown.contains(v));
                vstd::seq_lib::to_multiset_contains(shown, v);
                vstd::seq_lib::to_multiset_contains(mapped, v);
                let j = choose|j: int| 0 <= j < mapped.len() && mapped[j] == v;
                assert(mapped[j] == f(rows_view(library@)[j]));
                assert(library@[j].key@ == key@);
            }
            let mut users: Vec<UsingPost> = Vec::new();
            let mut k: usize = 0;
            let ghost wanted = rows_view(report.objects@[i as int].posts@);
            assert(rows_view(users@) =~= wanted.take(0));
            while k < report.objects[i].posts.len()
                invariant
                    i < report.objects@.len(),
                    k <= report.objects@[i as int].posts@.len(),
                    wanted == rows_view(report.objects@[i as int].posts@),
                    rows_view(users@) == wanted.take(k as int),
                decreases report.objects@[i as int].posts@.len() - k,
            {
                let ghost before = rows_view(users@);
                users.push(report.objects[i].posts[k].clone());
                assert(rows_view(users@) =~= before.push(wanted[k as int]));
                k = k + 1;
                assert(rows_view(users@) =~= wanted.take(k as int));
            }
            assert(wanted.take(k as int) =~= wanted);
            return DeletionCheck { users, unread_posts: report.unread_posts, unknown: false };
        }
        i = i + 1;
    }
    proof {
        assert forall|j: int| 0 <= j < library@.len() implies (#[trigger] library@[j]).key@
            != key@ by {
            let v = mapped[j];
            assert(v == f(rows_view(library@)[j]));
            assert(mapped.contains(v));
            vstd::seq_lib::to_multiset_contains(mapped, v);
            vstd::seq_lib::to_multiset_contains(shown, v);
            let p = choose|p: int| 0 <= p < shown.len() && shown[p] == v;
            assert(shown[p].key != key@);
        }
    }
    DeletionCheck { users: Vec::new(), unread_posts: report.unread_posts, unknown: true }
}

/// An object's users are the posts that were read and depend on it, live or not, in
/// the trash or not: one entry for each, in their order, that says what the post is.
pub proof fn every_user_is_listed(posts: Seq<ReadRow>, trashed: Set<i32>, digest: Seq<char>)
    ensures
        users_of_digest(posts, trashed, digest) == posts.filter(
            |p: ReadRow| p.digests is Some && p.digests->0.contains(digest),
        ).map_values(
            |p: ReadRow|
                UsingRow {
                    id: p.post.id,
                    slug: p.post.slug,
                    title: p.post.title,
                    trashed: trashed.contains(p.post.id),
                    published: p.post.published,
                },
        ),
        forall|i: int|
            #![trigger posts[i]]
            0 <= i < posts.len() && posts[i].digests is Some && posts[i].digests->0.contains(digest)
                ==> users_of_digest(posts, trashed, digest).contains(
                UsingRow {
                    id: posts[i].post.id,
                    slug: posts[i].post.slug,
                    title: posts[i].post.title,
                    trashed: trashed.contains(posts[i].post.id),
                    published: posts[i].post.published,
                },
            ),
    decreases posts.len(),
{
    reveal(Seq::filter);
    let uses = |p: ReadRow| p.digests is Some && p.digests->0.contains(digest);
    let named = |p: ReadRow|
        UsingRow {
            id: p.post.id,
            slug: p.post.slug,
            title: p.post.title,
            trashed: trashed.contains(p.post.id),
            published: p.post.published,
        };
    let out = users_of_digest(posts, trashed, digest);
    if posts.len() > 0 {
        let rest = posts.drop_last();
        every_user_is_listed(rest, trashed, digest);
        let before = users_of_digest(rest, trashed, digest);
        if uses(posts.last()) {
            assert(posts.filter(uses).map_values(named) =~= rest.filter(uses).map_values(
                named,
            ).push(named(posts.last())));
            assert(out[before.len() as int] == named(posts.last()));
        }
        assert forall|i: int|
            #![trigger posts[i]]
            0 <= i < posts.len() && uses(posts[i]) implies out.contains(named(posts[i])) by {
            if i < rest.len() {
                assert(rest[i] == posts[i]);
                assert(before.contains(named(rest[i])));
                let k = choose|k: int| 0 <= k < before.len() && before[k] == named(rest[i]);
                assert(out[k] == before[k]);
            } else {
                assert(out[before.len() as int] == named(posts[i]));
            }
        }
    } else {
        assert(posts.filter(uses).map_values(named) =~= Seq::<UsingRow>::empty());
    }
}

/// A post that could not be read is always reported, and no other is: one entry for
/// each, in their order.
pub proof fn every_unread_post_is_reported(posts: Seq<ReadRow>)
    ensures
        unread(posts) == posts.filter(|p: ReadRow| p.digests is None).map_values(
            |p: ReadRow| UnreadRow { id: p.post.id, title: p.post.title },
        ),
        unread(posts).len() == 0 <==> (forall|i: int|
            0 <= i < posts.len() ==> (#[trigger] posts[i]).digests is Some),
    decreases posts.len(),
{
    reveal(Seq::filter);
    let lost = |p: ReadRow| p.digests is None;
    let named = |p: ReadRow| UnreadRow { id: p.post.id, title: p.post.title };
    if posts.len() > 0 {
        let rest = posts.drop_last();
        every_unread_post_is_reported(rest);
        assert forall|i: int| 0 <= i < rest.len() implies rest[i] == #[trigger] posts[i] by {}
        if lost(posts.last()) {
            assert(posts.filter(lost).map_values(named) =~= rest.filter(lost).map_values(
                named,
            ).push(named(posts.last())));
            assert(posts[posts.len() - 1].digests is None);
        } else if unread(rest).len() == 0 {
            assert forall|i: int| 0 <= i < posts.len() implies (#[trigger] posts[i]).digests
                is Some by {
                if i < rest.len() {
                    assert(rest[i].digests is Some);
                }
            }
        } else {
            let j = choose|j: int| 0 <= j < rest.len() && (#[trigger] rest[j]).digests is None;
            assert(posts[j].digests is None);
        }
    } else {
        assert(posts.filter(lost).map_values(named) =~= Seq::<UnreadRow>::empty());
    }
}

/// An object is called safe to delete only where every post was read and none of them
/// depends on it.
pub proof fn a_safe_deletion_breaks_no_post(
    check: DeletionCheck,
    posts: Seq<ReadRow>,
    trashed: Set<i32>,
    digest: Seq<char>,
    i: int,
)
    requires
        check.safe(),
        rows_view(check.users@) == users_of_digest(posts, trashed, digest),
        rows_view(check.unread_posts@) == unread(posts),
        0 <= i < posts.len(),
    ensures
        !check.unknown,
        posts[i].digests is Some,
        !posts[i].digests->0.contains(digest),
{
    every_user_is_listed(posts, trashed, digest);
    every_unread_post_is_reported(posts);
    assert(posts[i] == posts[i]);
    assert(unread(posts).len() == 0);
}

/// A staged file that was read counts with the digest of its bytes, and one that was
/// not counts for nothing.
pub proof fn every_staged_file_counts(files: Seq<Option<Vec<u8>>>)
    ensures
        digests_of(files) == files.filter(|f: Option<Vec<u8>>| f is Some).map_values(
            |f: Option<Vec<u8>>| hex_of(sha256(f->0@)),
        ),
    decreases files.len(),
{
    reveal(Seq::filter);
    let there = |f: Option<Vec<u8>>| f is Some;
    let digest = |f: Option<Vec<u8>>| hex_of(sha256(f->0@));
    if files.len() > 0 {
        let rest = files.drop_last();
        every_staged_file_counts(rest);
        if files.last() is Some {
            assert(files.filter(there).map_values(digest) =~= rest.filter(there).map_values(
                digest,
            ).push(digest(files.last())));
        }
    } else {
        assert(files.filter(there).map_values(digest) =~= Seq::<Seq<char>>::empty());
    }
}

/// What a body depends on: the digest of each staged file that was read, and each
/// digest that it names, and nothing else, none of them twice.
pub proof fn a_body_depends_on_what_it_shows(
    body: Seq<char>,
    files: Seq<Option<Vec<u8>>>,
    digest: Seq<char>,
)
    ensures
        ({
            let used = firsts(windows_to(body, body.len() as int) + digests_of(files));
            &&& used.contains(digest) <==> {
                ||| exists|i: int| #[trigger] hex_window(body, i) && window_at(body, i) == digest
                ||| exists|i: int|
                    0 <= i < files.len() && (#[trigger] files[i]) is Some && hex_of(
                        sha256(files[i]->0@),
                    ) == digest
            }
            &&& used.no_duplicates()
        }),
{
    let named = windows_to(body, body.len() as int);
    let staged = digests_of(files);
    lemma_firsts_contains(named + staged);
    lemma_windows(body, body.len() as int, digest);
    lemma_digests_of(files, digest);
    let all = named + staged;
    if all.contains(digest) {
        let i = choose|i: int| 0 <= i < all.len() && all[i] == digest;
        if i < named.len() {
            assert(named.contains(named[i]));
        } else {
            assert(staged.contains(staged[i - named.len()]));
        }
    }
    if named.contains(digest) {
        let i = choose|i: int| 0 <= i < named.len() && named[i] == digest;
        assert(all[i] == digest);
    }
    if staged.contains(digest) {
        let i = choose|i: int| 0 <= i < staged.len() && staged[i] == digest;
        assert(all[named.len() + i] == digest);
    }
}

proof fn lemma_windows(s: Seq<char>, n: int, digest: Seq<char>)
    requires
        0 <= n <= s.len(),
    ensures
        windows_to(s, n).contains(digest) <==> exists|i: int|
            #[trigger] hex_window(s, i) && i + 64 <= n && window_at(s, i) == digest,
    decreases n,
{
    if n >= 64 {
        lemma_windows(s, n - 1, digest);
        if hex_window(s, n - 64) {
            lemma_push_contains(windows_to(s, n - 1), window_at(s, n - 64));
        }
    }
}

proof fn lemma_digests_of(files: Seq<Option<Vec<u8>>>, digest: Seq<char>)
    ensures
        digests_of(files).contains(digest) <==> exists|i: int|
            0 <= i < files.len() && (#[trigger] files[i]) is Some && hex_of(sha256(files[i]->0@))
                == digest,
    decreases files.len(),
{
    if files.len() > 0 {
        let rest = files.drop_last();
        lemma_digests_of(rest, digest);
        if let Some(bytes) = files.last() {
            lemma_push_contains(digests_of(rest), hex_of(sha256(bytes@)));
        }
        if digests_of(rest).contains(digest) {
            let i = choose|i: int|
                0 <= i < rest.len() && (#[trigger] rest[i]) is Some && hex_of(
                    sha256(rest[i]->0@),
                ) == digest;
            assert(files[i] == rest[i]);
        }
        if exists|i: int|
            0 <= i < files.len() && (#[trigger] files[i]) is Some && hex_of(sha256(files[i]->0@))
                == digest {
            let i = choose|i: int|
                0 <= i < files.len() && (#[trigger] files[i]) is Some && hex_of(
                    sha256(files[i]->0@),
                ) == digest;
            if i < rest.len() {
                assert(rest[i] == files[i]);
            }
        }
    }
}

/// The staged files that are read are the plain names among those mentioned, all of
/// them, in their order.
pub proof fn every_plain_name_is_read(names: Seq<Seq<char>>)
    ensures
        readable(names) == names.filter(
            |n: Seq<char>|
                n.len() > 0 && !n.contains('/') && !n.contains('\\') && !n.contains(':') && n
                    != "."@ && n != ".."@,
        ),
    decreases names.len(),
{
    reveal(Seq::filter);
    if names.len() > 0 {
        every_plain_name_is_read(names.drop_last());
    }
}

/// Where a reference ends: at a closing bracket, a quotation mark or white space, and
/// nowhere else.
pub proof fn where_a_reference_ends(c: char)
    ensures
        ends_reference(c) <==> c == ')' || c == ']' || c == '"' || c == '\'' || is_white_space(c),
{
}

/// The survey says of an object who uses it, under the object's own key, by key; and a
/// deletion is safe just where the object is known, nobody uses it, and every post was
/// read.
pub proof fn a_survey_speaks_of_every_object(
    object: ObjectRow,
    posts: Seq<ReadRow>,
    trashed: Set<i32>,
    check: DeletionCheck,
)
    ensures
        usage_of(object, posts, trashed).key == object.key,
        usage_of(object, posts, trashed).posts == users_of_digest(posts, trashed, object.digest),
        check.safe() <==> !check.unknown && check.users@.len() == 0 && check.unread_posts@.len()
            == 0,
{
}

}
