//! The media library: objects under `media/` in the bucket, cached here for
//! display.

use crate::cloudflare::{R2Object, R2ObjectRow};
use crate::commands::publication::{
    content_type_for, content_type_of, extension_of, is_safe_file_name, lower_extension,
    safe_file_name,
};
use crate::error::{AppError, AppResult};
use crate::imaging::{
    avif_of, convertible, decodable, file_name_of, is_id, is_new_name, lower_ext, media_ext,
    media_extension, new_file_name, stored_bytes, stored_ext, stored_extension,
};
use crate::ids::is_id_char;
use crate::media_usage::DeletionCheck;
use crate::table::rows_view;
use crate::text::{lower, plus, strip_prefix};
use vstd::prelude::*;

verus! {

/// An object of the media library.
#[derive(Debug, PartialEq, Eq)]
pub struct MediaItem {
    /// Its key, which is also where it is cached.
    pub key: String,
    /// The key's last segment.
    pub name: String,
    /// Its size in bytes.
    pub size: u64,
}

/// What a [`MediaItem`] says.
pub struct MediaItemRow {
    pub key: Seq<char>,
    pub name: Seq<char>,
    pub size: u64,
}

impl View for MediaItem {
    type V = MediaItemRow;

    open spec fn view(&self) -> MediaItemRow {
        MediaItemRow { key: self.key@, name: self.name@, size: self.size }
    }
}

/// The key of a file in the library.
pub open spec fn media_path(name: Seq<char>) -> Seq<char> {
    "media/"@ + name
}

/// The item for a file of `size` bytes that is uploaded as `name`.
pub fn uploaded_item(name: String, size: u64) -> (item: MediaItem)
    ensures
        item@ == (MediaItemRow { key: media_path(name@), name: name@, size }),
{
    MediaItem { key: plus("media/", name.as_str()), name, size }
}

/// A file to upload into the library.
pub struct MediaUpload {
    pub item: MediaItem,
    pub bytes: Vec<u8>,
    pub content_type: &'static str,
}

/// What uploading a file into the library takes. `ext` is that of its path, where
/// it is text. A JPG or PNG becomes AVIF, and the size is that of what is stored.
pub fn upload_media(ext: Option<&str>, bytes: Vec<u8>) -> (r: AppResult<MediaUpload>)
    ensures
        match r {
            Ok(u) => lower_ext(ext) matches Some(e) && {
                &&& media_extension(e)
                &&& if convertible(e) {
                    avif_of(bytes@, u.bytes@)
                } else {
                    u.bytes == bytes
                }
                &&& is_new_name(u.item@.name, stored_extension(e))
                &&& u.item@.key == media_path(u.item@.name)
                &&& u.item@.size == u.bytes@.len()
                &&& u.content_type@ == content_type_of(stored_extension(e))
            },
            Err(e) => match lower_ext(ext) {
                Some(x) => if media_extension(x) {
                    &&& convertible(x)
                    &&& e matches AppError::Image { context, source } && context@ == if decodable(
                        bytes@,
                    ) {
                        "AVIF encoding failed"@
                    } else {
                        "Cannot decode image"@
                    }
                } else {
                    e is UnsupportedMedia
                },
                None => e is UnsupportedMedia,
            },
        },
{
    let ext: String = match media_ext(ext) {
        Ok(e) => e,
        Err(e) => {
            return Err(e);
        },
    };
    let stored: Vec<u8> = match stored_bytes(ext.as_str(), bytes) {
        Ok(b) => b,
        Err(e) => {
            return Err(e);
        },
    };
    let name: String = new_file_name(stored_ext(ext.as_str()));
    let content_type: &'static str = content_type_for(stored_ext(ext.as_str()));
    let item: MediaItem = uploaded_item(name, stored.len() as u64);
    Ok(MediaUpload { item, bytes: stored, content_type })
}

/// The name of the cached file for a key, where the key is one of the library with
/// a plain file name.
pub open spec fn cached_name(key: Seq<char>) -> Option<Seq<char>> {
    if "media/"@.is_prefix_of(key) && safe_file_name(key.skip("media/"@.len() as int)) {
        Some(key.skip("media/"@.len() as int))
    } else {
        None
    }
}

/// The name of the cached file for a key, where there is one. The bucket is written
/// by others too, so a key is not something that this app decided the shape of.
pub fn cache_name(key: &str) -> (r: Option<String>)
    ensures
        match r {
            Some(n) => cached_name(key@) == Some(n@),
            None => cached_name(key@) is None,
        },
{
    match strip_prefix(key, "media/") {
        Some(name) => {
            assert(key@.skip("media/"@.len() as int) =~= name@);
            if is_safe_file_name(name) {
                Some(name.to_owned())
            } else {
                None
            }
        },
        None => None,
    }
}

/// A library object that is being staged for a post.
pub struct Staging {
    /// Its name in the library.
    pub name: String,
    /// Its extension, in small letters.
    pub ext: String,
}

/// Starts copying a library object into the local assets. It travels from there as
/// a dropped image does, so the blog never has to know of the library.
pub fn stage_media_from_library(key: &str) -> (r: AppResult<Staging>)
    ensures
        match r {
            Ok(s) => {
                &&& cached_name(key@) == Some(s.name@)
                &&& s.ext@ == lower(extension_of(s.name@))
                &&& s.ext@.len() > 0
            },
            Err(e) => match cached_name(key@) {
                None => e matches AppError::NotAMediaKey(k) && k@ == key@,
                Some(name) => lower(extension_of(name)).len() == 0 && (
                e matches AppError::MediaKeyHasNoExtension(k) && k@ == key@),
            },
        },
{
    let name: String = match cache_name(key) {
        Some(n) => n,
        None => {
            return Err(AppError::NotAMediaKey(key.to_owned()));
        },
    };
    let ext: String = lower_extension(name.as_str());
    if ext.as_str().is_empty() {
        return Err(AppError::MediaKeyHasNoExtension(key.to_owned()));
    }
    Ok(Staging { name, ext })
}

/// The bytes of a library object, from the cache or else from the bucket.
pub fn library_bytes(key: &str, found: Option<Vec<u8>>) -> (r: AppResult<Vec<u8>>)
    ensures
        match found {
            Some(bytes) => r == Ok::<Vec<u8>, AppError>(bytes),
            None => r matches Err(AppError::MediaNotFound(k)) && k@ == key@,
        },
{
    match found {
        Some(bytes) => Ok(bytes),
        None => Err(AppError::MediaNotFound(key.to_owned())),
    }
}

/// The objects of the bucket that are items of the library, in order.
pub open spec fn library_items(objects: Seq<R2ObjectRow>) -> Seq<MediaItemRow>
    decreases objects.len(),
{
    if objects.len() == 0 {
        Seq::empty()
    } else {
        let before = library_items(objects.drop_last());
        match cached_name(objects.last().key) {
            Some(name) => before.push(
                MediaItemRow { key: objects.last().key, name, size: objects.last().size },
            ),
            None => before,
        }
    }
}

/// The items of the library among the objects of the bucket. An object whose key
/// could not be cached under is passed over: one with a way up in it would be
/// written outside the cache.
pub fn list_media(objects: &Vec<R2Object>) -> (out: Vec<MediaItem>)
    ensures
        rows_view(out@) == library_items(rows_view(objects@)),
{
    let ghost all = rows_view(objects@);
    let mut out: Vec<MediaItem> = Vec::new();
    let mut i: usize = 0;
    proof {
        assert(all.take(0) =~= Seq::empty());
        assert(rows_view(out@) =~= Seq::empty());
    }
    while i < objects.len()
        invariant
            i <= objects@.len(),
            all == rows_view(objects@),
            rows_view(out@) == library_items(all.take(i as int)),
        decreases objects@.len() - i,
    {
        let ghost before = rows_view(out@);
        proof {
            assert(all.take(i + 1).drop_last() =~= all.take(i as int));
            assert(all.take(i + 1).last() == objects@[i as int]@);
        }
        match cache_name(objects[i].key.as_str()) {
            Some(name) => {
                let item = MediaItem {
                    key: objects[i].key.clone(),
                    name,
                    size: objects[i].size,
                };
                let ghost v = item@;
                out.push(item);
                assert(rows_view(out@) =~= before.push(v));
            },
            None => {},
        }
        i = i + 1;
    }
    assert(all.take(i as int) =~= all);
    out
}

/// Whether a library object may be deleted. `check` is what a look at the posts
/// found, and is not asked for where the warning has been answered.
pub fn delete_media(key: &str, check: &DeletionCheck, force: bool) -> (r: AppResult<()>)
    ensures
        match r {
            Ok(_) => force || check.safe(),
            Err(e) => {
                &&& !force && !check.safe()
                &&& e matches AppError::MediaInUse { key: k, posts, unchecked_posts } && k@
                    == key@ && posts == check.users@.len() && unchecked_posts
                    == check.unread_posts@.len()
            },
        },
{
    if !force && !check.is_safe() {
        return Err(
            AppError::MediaInUse {
                key: key.to_owned(),
                posts: check.users.len(),
                unchecked_posts: check.unread_posts.len(),
            },
        );
    }
    Ok(())
}

/// A file that the library names itself is one that it can cache and stage again.
pub proof fn what_is_uploaded_can_be_listed(name: Seq<char>, ext: Seq<char>)
    requires
        is_new_name(name, ext),
        !ext.contains('/'),
        !ext.contains('\\'),
    ensures
        cached_name(media_path(name)) == Some(name),
{
    let id = choose|id: Seq<char>| #[trigger] is_id(id) && name == file_name_of(id, ext);
    let key = media_path(name);
    assert(key.skip("media/"@.len() as int) =~= name);
    reveal_strlit(".");
    reveal_strlit("..");
    assert(name.len() >= 37);
    assert forall|i: int| 0 <= i < name.len() implies name[i] != '/' && name[i] != '\\' by {
        if i < 36 {
            assert(name[i] == id[i]);
            assert(is_id_char(id[i]));
        } else if i > 36 {
            assert(name[i] == ext[i - 37]);
        }
    }
    assert(name[1] == id[1] && is_id_char(id[1]));
}

/// The library shows every object of the bucket that has a plain name under `media/`,
/// in the bucket's order, with its key and its size, and nothing else.
pub proof fn every_library_object_is_shown(objects: Seq<R2ObjectRow>)
    ensures
        library_items(objects) == objects.filter(
            |o: R2ObjectRow| cached_name(o.key) is Some,
        ).map_values(
            |o: R2ObjectRow|
                MediaItemRow { key: o.key, name: o.key.skip(6), size: o.size },
        ),
    decreases objects.len(),
{
    reveal(Seq::filter);
    reveal_strlit("media/");
    let shown = |o: R2ObjectRow| cached_name(o.key) is Some;
    let item = |o: R2ObjectRow| MediaItemRow { key: o.key, name: o.key.skip(6), size: o.size };
    if objects.len() > 0 {
        let rest = objects.drop_last();
        every_library_object_is_shown(rest);
        if shown(objects.last()) {
            assert(objects.filter(shown).map_values(item) =~= rest.filter(shown).map_values(
                item,
            ).push(item(objects.last())));
        }
    } else {
        assert(objects.filter(shown).map_values(item) =~= Seq::<MediaItemRow>::empty());
    }
}

/// A key of the library is `media/` and a plain file name; any other key is none.
pub proof fn library_keys_are_plain(name: Seq<char>, key: Seq<char>)
    ensures
        name.len() > 0 && !name.contains('/') && !name.contains('\\') && name != "."@ && name
            != ".."@ && !(name.len() >= 2 && name[1] == ':' && ('a' <= name[0] <= 'z' || 'A'
            <= name[0] <= 'Z')) ==> cached_name("media/"@ + name) == Some(name),
        cached_name(key) matches Some(n) ==> key == "media/"@ + n && n.len() > 0 && !n.contains(
            '/',
        ) && !n.contains('\\') && n != ".."@,
{
    reveal_strlit("media/");
    let full = "media/"@ + name;
    assert(full.skip(6) =~= name);
    assert("media/"@.is_prefix_of(full)) by {
        assert(full.subrange(0, 6) =~= "media/"@);
    }
    if let Some(n) = cached_name(key) {
        assert(key =~= "media/"@ + n) by {
            assert(key.subrange(0, 6) =~= "media/"@);
            assert(key =~= key.subrange(0, 6) + key.skip(6));
        }
    }
}

}
