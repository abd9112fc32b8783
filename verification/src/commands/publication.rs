//! What publishing a post uploads.
//!
//! The local images that a body refers to go up first, so that the body never
//! points at something that is not there yet. Each reference is rewritten to the
//! image's public address, which makes the published Markdown self-contained.

use crate::cloudflare::CloudflareConfig;
use crate::commands::posts::refuse_if_trashed;
use crate::db::Store;
use crate::entities::post;
use crate::error::{AppError, AppResult};
use crate::media_keys::{
    body_key, body_key_of, media_key, media_key_of, public_url, public_url_of,
};
use crate::media_usage::{asset_names, mentioned};
use crate::table::rows_view;
use crate::text::{
    chars_of, firsts, lower, plus, replace, replaced, same, string_of, to_lower, trim_end_by,
    trim_end_char, views,
};
use vstd::prelude::*;

verus! {

// ─── File names ─────────────────────────────────────────────────────────────

/// The name starts with a letter and a colon: on some systems joining it onto a
/// directory discards the directory.
pub open spec fn has_drive(name: Seq<char>) -> bool {
    name.len() >= 2 && name[1] == ':' && ('a' <= name[0] <= 'z' || 'A' <= name[0] <= 'Z')
}

/// One ordinary file name, and nothing else.
pub open spec fn safe_file_name(name: Seq<char>) -> bool {
    &&& name.len() > 0
    &&& !name.contains('/')
    &&& !name.contains('\\')
    &&& name != "."@
    &&& name != ".."@
    &&& !has_drive(name)
}

/// Whether a name is one ordinary file name, and nothing else: no separators, no
/// way up, no drive. The rule is the same everywhere, because names travel between
/// machines in keys and in Markdown.
pub fn is_safe_file_name(name: &str) -> (r: bool)
    ensures
        r == safe_file_name(name@),
{
    let x: Vec<char> = chars_of(name);
    let mut i: usize = 0;
    while i < x.len()
        invariant
            i <= x@.len(),
            x@ == name@,
            forall|j: int| 0 <= j < i ==> (#[trigger] x@[j]) != '/' && x@[j] != '\\',
        decreases x@.len() - i,
    {
        let c: char = x[i];
        if c == '/' || c == '\\' {
            assert(name@.contains(x@[i as int]));
            return false;
        }
        i = i + 1;
    }
    if x.len() >= 2 && x[1] == ':' {
        let c: char = x[0];
        if ('a' <= c && c <= 'z') || ('A' <= c && c <= 'Z') {
            return false;
        }
    }
    x.len() > 0 && !same(name, ".") && !same(name, "..")
}

/// What stands behind the last dot of a name, or all of it where there is none.
pub open spec fn extension_of(name: Seq<char>) -> Seq<char>
    decreases name.len(),
{
    if name.len() == 0 || name.last() == '.' {
        Seq::empty()
    } else {
        extension_of(name.drop_last()).push(name.last())
    }
}

/// What stands behind the last dot of a name, in small letters.
pub fn lower_extension(name: &str) -> (out: String)
    ensures
        out@ == lower(extension_of(name@)),
{
    let x: Vec<char> = chars_of(name);
    let mut i: usize = x.len();
    let ghost mut tail: Seq<char> = Seq::empty();
    proof {
        assert(x@.take(i as int) =~= x@);
        assert(extension_of(x@) + tail =~= extension_of(x@));
    }
    while i > 0 && x[i - 1] != '.'
        invariant
            i <= x@.len(),
            x@ == name@,
            tail == x@.skip(i as int),
            extension_of(x@) == extension_of(x@.take(i as int)) + tail,
        decreases i,
    {
        i = i - 1;
        proof {
            let upto = x@.take(i + 1);
            assert(upto.drop_last() =~= x@.take(i as int));
            assert(upto.last() == x@[i as int]);
            let before = extension_of(x@.take(i as int));
            assert(x@.skip(i as int) =~= seq![x@[i as int]] + tail);
            assert(before.push(x@[i as int]) + tail =~= before + x@.skip(i as int));
            tail = x@.skip(i as int);
        }
    }
    let n: usize = x.len();
    proof {
        assert(extension_of(x@.take(i as int)) =~= Seq::empty());
        assert(extension_of(x@) =~= tail);
    }
    let ext: String = string_of(vstd::slice::slice_subrange(x.as_slice(), i, n));
    assert(ext@ =~= x@.skip(i as int));
    to_lower(ext.as_str())
}

/// The type to send with a file of this extension.
pub open spec fn content_type_of(ext: Seq<char>) -> Seq<char> {
    if ext == "png"@ {
        "image/png"@
    } else if ext == "jpg"@ || ext == "jpeg"@ {
        "image/jpeg"@
    } else if ext == "gif"@ {
        "image/gif"@
    } else if ext == "webp"@ {
        "image/webp"@
    } else if ext == "avif"@ {
        "image/avif"@
    } else if ext == "svg"@ {
        "image/svg+xml"@
    } else if ext == "bmp"@ {
        "image/bmp"@
    } else if ext == "ico"@ {
        "image/x-icon"@
    } else if ext == "mp4"@ {
        "video/mp4"@
    } else if ext == "webm"@ {
        "video/webm"@
    } else if ext == "mov"@ {
        "video/quicktime"@
    } else {
        "application/octet-stream"@
    }
}

/// The type to send with a file of this extension, in small letters.
pub fn content_type_for(ext: &str) -> (out: &'static str)
    ensures
        out@ == content_type_of(ext@),
{
    if same(ext, "png") {
        "image/png"
    } else if same(ext, "jpg") || same(ext, "jpeg") {
        "image/jpeg"
    } else if same(ext, "gif") {
        "image/gif"
    } else if same(ext, "webp") {
        "image/webp"
    } else if same(ext, "avif") {
        "image/avif"
    } else if same(ext, "svg") {
        "image/svg+xml"
    } else if same(ext, "bmp") {
        "image/bmp"
    } else if same(ext, "ico") {
        "image/x-icon"
    } else if same(ext, "mp4") {
        "video/mp4"
    } else if same(ext, "webm") {
        "video/webm"
    } else if same(ext, "mov") {
        "video/quicktime"
    } else {
        "application/octet-stream"
    }
}

// ─── References ─────────────────────────────────────────────────────────────

/// A reference to a staged file.
pub open spec fn reference_to(name: Seq<char>) -> Seq<char> {
    "assets/"@ + name
}

/// The references to staged files in a body, each once, in order. Loose on
/// purpose: it is reading the file that is guarded, not the scan.
pub fn extract_asset_refs(body: &str) -> (out: Vec<String>)
    ensures
        views(out@) == firsts(mentioned(body@)).map_values(|n: Seq<char>| reference_to(n)),
{
    let names: Vec<String> = asset_names(body);
    let ghost all = views(names@);
    let mut out: Vec<String> = Vec::new();
    let mut i: usize = 0;
    while i < names.len()
        invariant
            i <= names@.len(),
            all == views(names@),
            out@.len() == i,
            forall|j: int| 0 <= j < i ==> (#[trigger] out@[j])@ == reference_to(all[j]),
        decreases names@.len() - i,
    {
        out.push(plus("assets/", names[i].as_str()));
        i = i + 1;
    }
    assert(views(out@) =~= all.map_values(|n: Seq<char>| reference_to(n)));
    out
}

/// The file that a reference names, where it is one that may be published: a plain
/// file name, which is all that the editor ever writes.
pub open spec fn file_of(reference: Seq<char>) -> Option<Seq<char>> {
    if "assets/"@.is_prefix_of(reference) && safe_file_name(
        reference.skip("assets/"@.len() as int),
    ) {
        Some(reference.skip("assets/"@.len() as int))
    } else {
        None
    }
}

/// The file in the assets directory that a reference names, where it is one that
/// may be published. A body may have been written by a client, and publishing
/// uploads what it refers to, so anything but a plain file name reads nothing.
pub fn staged_file(reference: &str) -> (r: Option<String>)
    ensures
        match r {
            Some(n) => file_of(reference@) == Some(n@),
            None => file_of(reference@) is None,
        },
{
    match crate::text::strip_prefix(reference, "assets/") {
        Some(name) => {
            assert(reference@.skip("assets/"@.len() as int) =~= name@);
            if is_safe_file_name(name) {
                Some(name.to_owned())
            } else {
                None
            }
        },
        None => None,
    }
}

// ─── A publication ──────────────────────────────────────────────────────────

/// One image to upload.
pub struct Upload {
    pub key: String,
    pub bytes: Vec<u8>,
    pub content_type: &'static str,
}

/// What an [`Upload`] says.
pub struct UploadRow {
    pub key: Seq<char>,
    pub bytes: Seq<u8>,
    pub content_type: Seq<char>,
}

impl View for Upload {
    type V = UploadRow;

    open spec fn view(&self) -> UploadRow {
        UploadRow { key: self.key@, bytes: self.bytes@, content_type: self.content_type@ }
    }
}

/// What publishing a post uploads: the images, in order, and then the body.
pub struct Publication {
    pub uploads: Vec<Upload>,
    pub body: String,
    pub body_key: String,
}

/// The image that a reference names, under the key it gets.
pub open spec fn upload_of(
    pattern: Seq<char>,
    slug: Seq<char>,
    name: Seq<char>,
    bytes: Seq<u8>,
) -> UploadRow {
    let ext = lower(extension_of(name));
    UploadRow {
        key: media_key_of(pattern, slug, bytes, ext),
        bytes,
        content_type: content_type_of(ext),
    }
}

/// The file behind a reference, where it may be published and could be read.
pub open spec fn usable(reference: Seq<char>, file: Option<Vec<u8>>) -> bool {
    file_of(reference) is Some && file is Some
}

/// The images that go up for these references, given what was read of each.
pub open spec fn uploads_for(
    pattern: Seq<char>,
    slug: Seq<char>,
    refs: Seq<Seq<char>>,
    files: Seq<Option<Vec<u8>>>,
) -> Seq<UploadRow>
    decreases refs.len(),
{
    if refs.len() == 0 {
        Seq::empty()
    } else {
        let before = uploads_for(pattern, slug, refs.drop_last(), files);
        let file = files[refs.len() - 1];
        if usable(refs.last(), file) {
            before.push(upload_of(pattern, slug, file_of(refs.last())->0, file->0@))
        } else {
            before
        }
    }
}

/// The body with each of these references that can be published rewritten to its
/// public address.
pub open spec fn rewritten(
    body: Seq<char>,
    base: Seq<char>,
    pattern: Seq<char>,
    slug: Seq<char>,
    refs: Seq<Seq<char>>,
    files: Seq<Option<Vec<u8>>>,
) -> Seq<char>
    decreases refs.len(),
{
    if refs.len() == 0 {
        body
    } else {
        let before = rewritten(body, base, pattern, slug, refs.drop_last(), files);
        let file = files[refs.len() - 1];
        if usable(refs.last(), file) {
            let up = upload_of(pattern, slug, file_of(refs.last())->0, file->0@);
            replaced(before, refs.last(), public_url_of(base, up.key))
        } else {
            before
        }
    }
}

/// Whether a post may be pushed, and under which public address its images go. A
/// post in the trash is refused, and without an address no link could be written.
pub fn push_base(db: &Store, post: &post::Model, config: &CloudflareConfig) -> (r: AppResult<
    String,
>)
    requires
        db.wf(),
    ensures
        ({
            let base = trim_end_by(config.r2_public_url@, |c: char| c == '/');
            match r {
                Ok(b) => !db@.trash.contains_key(post.id) && base.len() > 0 && b@ == base,
                Err(e) => if db@.trash.contains_key(post.id) {
                    e matches AppError::PostInTrash(s) && s@ == post.slug@
                } else {
                    base.len() == 0 && e is NoPublicUrl
                },
            }
        }),
{
    match refuse_if_trashed(db, post) {
        Err(e) => {
            return Err(e);
        },
        Ok(_) => {},
    }
    let base: &str = trim_end_char(config.r2_public_url.as_str(), '/');
    if base.is_empty() {
        return Err(AppError::NoPublicUrl);
    }
    Ok(base.to_owned())
}

/// What publishing a post uploads. `files` holds what was read for each of
/// [`extract_asset_refs`], with nothing for one that could not be: that one is
/// published as it stands, which is a dead link and not a post that cannot be
/// published.
pub fn publication(
    pattern: &str,
    base: &str,
    slug: &str,
    body: &str,
    files: Vec<Option<Vec<u8>>>,
) -> (p: Publication)
    requires
        files@.len() == firsts(mentioned(body@)).len(),
    ensures
        ({
            let refs = firsts(mentioned(body@)).map_values(|n: Seq<char>| reference_to(n));
            &&& rows_view(p.uploads@) == uploads_for(pattern@, slug@, refs, files@)
            &&& p.body@ == rewritten(body@, base@, pattern@, slug@, refs, files@)
            &&& p.body_key@ == body_key_of(slug@)
        }),
{
    let refs: Vec<String> = extract_asset_refs(body);
    let ghost all = views(refs@);
    let mut uploads: Vec<Upload> = Vec::new();
    let mut published: String = body.to_owned();
    let mut i: usize = 0;
    proof {
        assert(all.len() == refs@.len());
        assert(all.take(0) =~= Seq::empty());
        assert(rows_view(uploads@) =~= Seq::empty());
    }
    while i < refs.len()
        invariant
            i <= refs@.len(),
            all == views(refs@),
            files@.len() == refs@.len(),
            rows_view(uploads@) == uploads_for(pattern@, slug@, all.take(i as int), files@),
            published@ == rewritten(
                body@,
                base@,
                pattern@,
                slug@,
                all.take(i as int),
                files@,
            ),
        decreases refs@.len() - i,
    {
        let ghost done = rows_view(uploads@);
        proof {
            assert(all.take(i + 1).drop_last() =~= all.take(i as int));
            assert(all.take(i + 1).last() == refs@[i as int]@);
        }
        match staged_file(refs[i].as_str()) {
            Some(name) => match &files[i] {
                Some(bytes) => {
                    let ext: String = lower_extension(name.as_str());
                    let key: String = media_key(pattern, slug, bytes.as_slice(), ext.as_str());
                    let url: String = public_url(base, key.as_str());
                    published = replace(published.as_str(), refs[i].as_str(), url.as_str());
                    let up = Upload {
                        key,
                        bytes: bytes.clone(),
                        content_type: content_type_for(ext.as_str()),
                    };
                    let ghost v = up@;
                    uploads.push(up);
                    assert(rows_view(uploads@) =~= done.push(v));
                },
                None => {},
            },
            None => {},
        }
        i = i + 1;
    }
    assert(all.take(i as int) =~= all);
    Publication { uploads, body: published, body_key: body_key(slug) }
}

// ─── Laws ───────────────────────────────────────────────────────────────────

/// Nothing is uploaded for a reference that is not a plain file name, whatever was
/// read for it, and such a reference stays in the body as it is.
pub proof fn references_that_escape_upload_nothing(
    body: Seq<char>,
    base: Seq<char>,
    pattern: Seq<char>,
    slug: Seq<char>,
    refs: Seq<Seq<char>>,
    files: Seq<Option<Vec<u8>>>,
)
    requires
        forall|i: int| 0 <= i < refs.len() ==> file_of(#[trigger] refs[i]) is None,
    ensures
        uploads_for(pattern, slug, refs, files).len() == 0,
        rewritten(body, base, pattern, slug, refs, files) == body,
    decreases refs.len(),
{
    if refs.len() > 0 {
        assert(file_of(refs[refs.len() - 1]) is None);
        references_that_escape_upload_nothing(
            body,
            base,
            pattern,
            slug,
            refs.drop_last(),
            files,
        );
    }
}

/// A reference with a separator or a way up in it names no file that may be
/// published.
pub proof fn a_way_out_is_no_file_name(name: Seq<char>)
    requires
        name.contains('/') || name.contains('\\') || name == ".."@ || has_drive(name),
    ensures
        file_of(reference_to(name)) is None,
{
    let r = reference_to(name);
    assert(r.skip("assets/"@.len() as int) =~= name);
}

// ─── What goes up ───────────────────────────────────────────────────────────

/// The places of the references whose images go up: those that name a plain file
/// which could be read.
pub open spec fn published_places(refs: Seq<Seq<char>>, files: Seq<Option<Vec<u8>>>) -> Seq<int> {
    Seq::new(refs.len(), |i: int| i).filter(
        |i: int| file_of(refs[i]) is Some && files[i] is Some,
    )
}

/// Every image that a body refers to goes up, whichever place it stands at: for each
/// reference to a plain file that could be read there is an upload of that file's
/// bytes, under the key that those bytes have, with the type that its name says.
/// There are as many uploads as such references, in their order, and no others.
pub proof fn every_image_goes_up(
    pattern: Seq<char>,
    slug: Seq<char>,
    refs: Seq<Seq<char>>,
    files: Seq<Option<Vec<u8>>>,
)
    requires
        refs.len() <= files.len(),
    ensures
        ({
            let places = published_places(refs, files);
            let ups = uploads_for(pattern, slug, refs, files);
            &&& ups.len() == places.len()
            &&& forall|k: int|
                0 <= k < ups.len() ==> {
                    let name = file_of(refs[places[k]])->0;
                    let bytes = files[places[k]]->0@;
                    let ext = lower(extension_of(name));
                    &&& (#[trigger] ups[k]).bytes == bytes
                    &&& ups[k].key == media_key_of(pattern, slug, bytes, ext)
                    &&& ups[k].content_type == content_type_of(ext)
                }
            &&& forall|i: int|
                #![trigger refs[i]]
                0 <= i < refs.len() && file_of(refs[i]) is Some && files[i] is Some ==> exists|
                    k: int,
                |
                    0 <= k < ups.len() && (#[trigger] ups[k]).bytes == files[i]->0@ && ups[k].key
                        == media_key_of(
                        pattern,
                        slug,
                        files[i]->0@,
                        lower(extension_of(file_of(refs[i])->0)),
                    )
        }),
    decreases refs.len(),
{
    let p = |i: int| file_of(refs[i]) is Some && files[i] is Some;
    let all = Seq::new(refs.len(), |i: int| i);
    let places = published_places(refs, files);
    let ups = uploads_for(pattern, slug, refs, files);
    reveal(Seq::filter);
    if refs.len() > 0 {
        let rest = refs.drop_last();
        let n = rest.len() as int;
        every_image_goes_up(pattern, slug, rest, files);
        let q = |i: int| file_of(rest[i]) is Some && files[i] is Some;
        let few = Seq::new(rest.len(), |i: int| i);
        assert(all.drop_last() =~= few);
        lemma_filter_alike(few, p, q);
        let before = published_places(rest, files);
        assert(all.drop_last().filter(p) == before);
        assert(all.last() == n);
        let done = uploads_for(pattern, slug, rest, files);
        lemma_filtered_within(few, q);
        assert forall|k: int| 0 <= k < done.len() implies #[trigger] ups[k] == done[k] && places[k]
            == before[k] && 0 <= places[k] < n && refs[places[k]] == rest[before[k]] by {
            assert(few.contains(before[k]));
        }
        if p(n) {
            assert(places == before.push(n));
            assert(ups.last() == ups[done.len() as int]);
        } else {
            assert(places == before);
        }
        assert forall|i: int|
            #![trigger refs[i]]
            0 <= i < refs.len() && file_of(refs[i]) is Some && files[i] is Some implies exists|
                k: int,
            |
                0 <= k < ups.len() && (#[trigger] ups[k]).bytes == files[i]->0@ && ups[k].key
                    == media_key_of(
                    pattern,
                    slug,
                    files[i]->0@,
                    lower(extension_of(file_of(refs[i])->0)),
                ) by {
            if i < n {
                assert(rest[i] == refs[i]);
                let k = choose|k: int|
                    0 <= k < done.len() && (#[trigger] done[k]).bytes == files[i]->0@
                        && done[k].key == media_key_of(
                        pattern,
                        slug,
                        files[i]->0@,
                        lower(extension_of(file_of(rest[i])->0)),
                    );
                assert(ups[k] == done[k]);
            } else {
                assert(p(n));
                assert(ups[done.len() as int].bytes == files[i]->0@);
            }
        }
    } else {
        assert(all =~= Seq::<int>::empty());
    }
}

proof fn lemma_filter_alike(s: Seq<int>, p: spec_fn(int) -> bool, q: spec_fn(int) -> bool)
    requires
        forall|k: int| 0 <= k < s.len() ==> p(#[trigger] s[k]) == q(s[k]),
    ensures
        s.filter(p) == s.filter(q),
    decreases s.len(),
{
    reveal(Seq::filter);
    if s.len() > 0 {
        lemma_filter_alike(s.drop_last(), p, q);
        assert(p(s[s.len() - 1]) == q(s[s.len() - 1]));
    }
}

proof fn lemma_filtered_within(s: Seq<int>, p: spec_fn(int) -> bool)
    ensures
        forall|k: int| 0 <= k < s.filter(p).len() ==> s.contains(#[trigger] s.filter(p)[k]) && p(
            s.filter(p)[k],
        ),
    decreases s.len(),
{
    reveal(Seq::filter);
    if s.len() > 0 {
        let d = s.drop_last();
        lemma_filtered_within(d, p);
        assert forall|k: int| 0 <= k < s.filter(p).len() implies s.contains(
            #[trigger] s.filter(p)[k],
        ) && p(s.filter(p)[k]) by {
            if k < d.filter(p).len() {
                let v = d.filter(p)[k];
                assert(d.contains(v));
                let j = choose|j: int| 0 <= j < d.len() && d[j] == v;
                assert(s[j] == v);
            } else {
                assert(s[s.len() - 1] == s.last());
            }
        }
    }
}

/// The extension of a name is what stands behind its last dot.
pub proof fn an_extension_follows_the_last_dot(stem: Seq<char>, ext: Seq<char>)
    requires
        !ext.contains('.'),
    ensures
        extension_of(stem + "."@ + ext) == ext,
        extension_of(ext) == ext,
    decreases ext.len(),
{
    reveal_strlit(".");
    let name = stem + "."@ + ext;
    if ext.len() > 0 {
        let d = ext.drop_last();
        assert forall|i: int| 0 <= i < d.len() implies d[i] != '.' by {
            assert(d[i] == ext[i]);
            assert(ext.contains(ext[i]));
        }
        assert(ext.contains(ext[ext.len() - 1]));
        an_extension_follows_the_last_dot(stem, d);
        assert(name.drop_last() =~= stem + "."@ + d);
        assert(name.last() == ext.last());
        assert(d.push(ext.last()) =~= ext);
    } else {
        assert(name.last() == '.');
    }
}

/// Which references name a file that may be published: `assets/` and one ordinary file
/// name, whatever letters that has, and none that has a separator or a drive, or leads
/// up.
pub proof fn plain_references_name_files(name: Seq<char>, reference: Seq<char>)
    ensures
        file_of("assets/"@ + name) is Some <==> name.len() > 0 && !name.contains('/')
            && !name.contains('\\') && name != "."@ && name != ".."@ && !(name.len() >= 2
            && name[1] == ':' && ('a' <= name[0] <= 'z' || 'A' <= name[0] <= 'Z')),
        file_of("assets/"@ + name) is Some ==> file_of("assets/"@ + name) == Some(name),
        file_of(reference) matches Some(n) ==> reference == "assets/"@ + n,
        reference_to(name) == "assets/"@ + name,
{
    reveal_strlit("assets/");
    let full = "assets/"@ + name;
    assert(full.skip(7) =~= name);
    assert("assets/"@.is_prefix_of(full)) by {
        assert(full.subrange(0, 7) =~= "assets/"@);
    }
    if let Some(n) = file_of(reference) {
        assert(reference =~= "assets/"@ + n) by {
            assert(reference.subrange(0, 7) =~= "assets/"@);
            assert(reference =~= reference.subrange(0, 7) + reference.skip(7));
        }
    }
}

/// An image is sent as an image of its kind, a film as a film, and anything else as
/// bytes.
pub proof fn every_kind_of_file_has_its_type(ext: Seq<char>)
    ensures
        ext == "png"@ || ext == "gif"@ || ext == "webp"@ || ext == "avif"@ || ext == "bmp"@
            ==> content_type_of(ext) == "image/"@ + ext,
        ext == "jpg"@ || ext == "jpeg"@ ==> content_type_of(ext) == "image/jpeg"@,
        ext == "svg"@ ==> content_type_of(ext) == "image/svg+xml"@,
        ext == "ico"@ ==> content_type_of(ext) == "image/x-icon"@,
        ext == "mp4"@ || ext == "webm"@ ==> content_type_of(ext) == "video/"@ + ext,
        ext == "mov"@ ==> content_type_of(ext) == "video/quicktime"@,
        !crate::imaging::media_extension(ext) ==> content_type_of(ext)
            == "application/octet-stream"@,
{
    reveal_strlit("png");
    reveal_strlit("jpg");
    reveal_strlit("jpeg");
    reveal_strlit("gif");
    reveal_strlit("webp");
    reveal_strlit("avif");
    reveal_strlit("svg");
    reveal_strlit("bmp");
    reveal_strlit("ico");
    reveal_strlit("mp4");
    reveal_strlit("webm");
    reveal_strlit("mov");
    reveal_strlit("image/");
    reveal_strlit("video/");
    reveal_strlit("image/png");
    reveal_strlit("image/gif");
    reveal_strlit("image/webp");
    reveal_strlit("image/avif");
    reveal_strlit("image/bmp");
    reveal_strlit("video/mp4");
    reveal_strlit("video/webm");
    assert("image/"@ + "png"@ =~= "image/png"@);
    assert("image/"@ + "gif"@ =~= "image/gif"@);
    assert("image/"@ + "webp"@ =~= "image/webp"@);
    assert("image/"@ + "avif"@ =~= "image/avif"@);
    assert("image/"@ + "bmp"@ =~= "image/bmp"@);
    assert("video/"@ + "mp4"@ =~= "video/mp4"@);
    assert("video/"@ + "webm"@ =~= "video/webm"@);
    let (a, b, c, d) = ("png"@, "jpg"@, "jpeg"@, "gif"@);
    let (e, f, g, h) = ("webp"@, "avif"@, "svg"@, "bmp"@);
    let (i, j, k, l) = ("ico"@, "mp4"@, "webm"@, "mov"@);
    assert(a[0] == 'p' && b[0] == 'j' && c[0] == 'j' && d[0] == 'g');
    assert(e[0] == 'w' && f[0] == 'a' && g[0] == 's' && h[0] == 'b');
    assert(i[0] == 'i' && j[0] == 'm' && k[0] == 'w' && l[0] == 'm');
    assert(e[3] == 'p' && k[3] == 'm' && j[1] == 'p' && l[1] == 'o');
}

}
