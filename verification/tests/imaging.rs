//! Images on their way in.

use blog_cms::cloudflare::CloudflareConfig;
use blog_cms::commands::media::{
    delete_media, library_bytes, list_media, stage_media_from_library, upload_media,
};
use blog_cms::commands::publication::{
    content_type_for, extract_asset_refs, is_safe_file_name, lower_extension, publication,
    push_base, staged_file,
};
use blog_cms::auth::save_credentials;
use blog_cms::cloudflare::R2Object;
use blog_cms::db::side_tables::trash_set;
use blog_cms::db::{post_create, Store};
use blog_cms::entities::post;
use blog_cms::error::AppError;
use blog_cms::imaging::{
    is_convertible, set_post_thumbnail, stage_image, stored_bytes, stored_ext, to_avif,
    CONVERTIBLE,
};
use blog_cms::media_usage::{DeletionCheck, UnreadPost};

fn a_png() -> Vec<u8> {
    let mut png = Vec::new();
    let src = image::RgbImage::from_fn(64, 32, |x, y| {
        image::Rgb([(x * 4) as u8, (y * 8) as u8, 128])
    });
    image::DynamicImage::ImageRgb8(src)
        .write_to(&mut std::io::Cursor::new(&mut png), image::ImageFormat::Png)
        .expect("encode source png");
    png
}

#[test]
fn png_round_trips_to_avif() {
    let avif = to_avif(&a_png()).expect("convert to avif");

    // AVIF is an ISO-BMFF file: the `ftyp` box sits at offset 4.
    assert_eq!(&avif[4..8], b"ftyp", "output is not an ISO-BMFF container");
    assert!(avif.len() > 0);
}

#[test]
fn only_jpg_and_png_convert() {
    assert!(is_convertible("png"));
    assert!(is_convertible("jpg"));
    assert!(is_convertible("jpeg"));
    for keep in ["webp", "avif", "gif", "svg", "mp4"] {
        assert!(!is_convertible(keep), "{keep} should be stored unchanged");
    }
    assert_eq!(stored_ext("jpg"), "avif");
    assert_eq!(stored_ext("gif"), "gif");
    assert!(CONVERTIBLE.iter().all(|e| is_convertible(e)));
}

#[test]
fn what_is_no_image_is_not_converted() {
    match to_avif(b"not an image") {
        Err(AppError::Image { context, .. }) => assert_eq!(context, "Cannot decode image"),
        other => panic!("expected a decoding error, got {other:?}"),
    }
    assert_eq!(stored_bytes("gif", b"gif bytes".to_vec()).unwrap(), b"gif bytes");
    assert!(stored_bytes("png", b"gif bytes".to_vec()).is_err());
}

#[test]
fn a_dropped_image_gets_a_name_of_its_own() {
    let copy = stage_image("/tmp/Photo.JPG", Some("JPG"), Some("Photo.JPG")).unwrap();
    assert!(copy.convert);
    assert!(copy.file_name.ends_with(".avif"));
    assert_eq!(copy.file_name.len(), 36 + 5);
    assert_eq!(copy.image.rel, format!("assets/{}", copy.file_name));
    assert_eq!(copy.image.name, "Photo.JPG");
    assert!(is_safe_file_name(&copy.file_name));

    let copy = stage_image("/tmp/a.svg", Some("svg"), None).unwrap();
    assert!(!copy.convert);
    assert_eq!(copy.image.name, "image");

    for ext in [Some("exe"), Some("mp4"), None] {
        match stage_image("/tmp/x", ext, None) {
            Err(e) => assert_eq!(e, AppError::UnsupportedImage("/tmp/x".into())),
            Ok(_) => panic!("{ext:?} was accepted"),
        }
    }
}

fn config() -> CloudflareConfig {
    save_credentials("acct", "token", "bucket", "db", "https://cdn.example.com/")
}

#[test]
fn a_thumbnail_is_an_avif_under_the_slug() {
    let c = config();
    let t = set_post_thumbnail("my-post", Some("PNG"), a_png(), Some(&c)).unwrap();
    assert_eq!(t.key, "posts/my-post/thumbnail.avif");
    assert_eq!(&t.bytes[4..8], b"ftyp");
    let t = set_post_thumbnail("my-post", Some("avif"), b"kept".to_vec(), Some(&c)).unwrap();
    assert_eq!(t.bytes, b"kept");

    let e = |slug: &str, ext: Option<&str>, c: Option<&CloudflareConfig>| {
        match set_post_thumbnail(slug, ext, b"x".to_vec(), c) {
            Err(e) => e,
            Ok(_) => panic!("the thumbnail should have been refused"),
        }
    };
    assert_eq!(e("../x", Some("avif"), Some(&c)), AppError::InvalidSlug("../x".into()));
    assert_eq!(e("p", Some("gif"), Some(&c)), AppError::UnsupportedThumbnail);
    assert_eq!(e("p", None, Some(&c)), AppError::UnsupportedThumbnail);
    assert_eq!(e("p", Some("avif"), None), AppError::NotConfigured);
    assert!(matches!(e("p", Some("png"), None), AppError::Image { .. }));
}

#[test]
fn an_upload_reports_what_is_stored() {
    let up = upload_media(Some("mp4"), b"video".to_vec()).unwrap();
    assert_eq!(up.bytes, b"video");
    assert_eq!(up.item.size, 5);
    assert_eq!(up.content_type, "video/mp4");
    assert_eq!(up.item.key, format!("media/{}", up.item.name));
    let up = upload_media(Some("png"), a_png()).unwrap();
    assert!(up.item.name.ends_with(".avif"));
    assert_eq!(up.content_type, "image/avif");
    assert_eq!(up.item.size, up.bytes.len() as u64);
    match upload_media(Some("exe"), vec![]) {
        Err(e) => assert_eq!(e, AppError::UnsupportedMedia),
        Ok(_) => panic!("a program was accepted"),
    }
}

#[test]
fn only_plain_file_names_are_safe() {
    assert!(is_safe_file_name("3f2b8c.avif"));
    assert!(is_safe_file_name("a picture.png"));
    assert!(is_safe_file_name(".hidden.png"));

    assert!(!is_safe_file_name(""));
    assert!(!is_safe_file_name("."));
    assert!(!is_safe_file_name(".."));
    assert!(!is_safe_file_name("../secret.env"));
    assert!(!is_safe_file_name("nested/name.png"));
    assert!(!is_safe_file_name("nested\\name.png"));
    assert!(!is_safe_file_name("/etc/passwd"));
}

#[test]
fn drive_relative_names_are_rejected() {
    assert!(!is_safe_file_name("C:secret.env"));
}

#[test]
fn traversal_attempts_survive_extraction() {
    let body = "![ok](assets/ok.png) ![bad](assets/../../secret.env)";
    assert_eq!(
        extract_asset_refs(body),
        vec!["assets/ok.png", "assets/../../secret.env"]
    );
}

#[test]
fn references_that_escape_name_no_file() {
    assert_eq!(staged_file("assets/staged.avif").as_deref(), Some("staged.avif"));
    for escape in [
        "assets/../secret.env",
        "assets/../../secret.env",
        "assets/..\\secret.env",
        "assets/./../secret.env",
        "assets//../secret.env",
        "assets/",
        "elsewhere/x.png",
    ] {
        assert_eq!(staged_file(escape), None, "`{escape}` names a file outside");
    }
}

#[test]
fn a_publication_uploads_images_before_the_body_that_names_them() {
    let body = "![a](assets/a.PNG) ![b](assets/../up.png) ![gone](assets/gone.gif) assets/a.PNG";
    let files = vec![Some(b"abc".to_vec()), Some(b"secret".to_vec()), None];
    let p = publication("posts/{slug}/{hash}.{ext}", "https://cdn.x", "my-post", body, files);
    assert_eq!(p.uploads.len(), 1);
    let key = "posts/my-post/ba7816bf8f01cfea414140de5dae2223b00361a396177a9cb410ff61f20015ad.png";
    assert_eq!(p.uploads[0].key, key);
    assert_eq!(p.uploads[0].content_type, "image/png");
    assert_eq!(p.uploads[0].bytes, b"abc");
    assert_eq!(
        p.body,
        format!(
            "![a](https://cdn.x/{key}) ![b](assets/../up.png) ![gone](assets/gone.gif) \
             https://cdn.x/{key}"
        )
    );
    assert_eq!(p.body_key, "posts/my-post.md");
}

#[test]
fn a_push_needs_an_address_and_a_post_that_is_not_thrown_away() {
    let mut db = Store::new();
    let p = post_create(
        &mut db,
        post::Model {
            id: 0,
            slug: "p".into(),
            title: "P".into(),
            excerpt: None,
            tags: None,
            published: false,
            published_at: None,
            series_id: None,
            series_order: None,
            created_at: 0,
            updated_at: 0,
        },
    )
    .unwrap();
    let mut c = config();
    assert_eq!(push_base(&db, &p, &c).unwrap(), "https://cdn.example.com");
    c.r2_public_url = "//".into();
    assert_eq!(push_base(&db, &p, &c).unwrap_err(), AppError::NoPublicUrl);
    trash_set(&mut db, p.id, 1);
    assert_eq!(push_base(&db, &p, &c).unwrap_err(), AppError::PostInTrash("p".into()));
}

#[test]
fn a_file_is_sent_with_its_type() {
    for (ext, ty) in [
        ("png", "image/png"),
        ("jpg", "image/jpeg"),
        ("jpeg", "image/jpeg"),
        ("gif", "image/gif"),
        ("webp", "image/webp"),
        ("avif", "image/avif"),
        ("svg", "image/svg+xml"),
        ("bmp", "image/bmp"),
        ("ico", "image/x-icon"),
        ("mp4", "video/mp4"),
        ("webm", "video/webm"),
        ("mov", "video/quicktime"),
        ("zip", "application/octet-stream"),
    ] {
        assert_eq!(content_type_for(ext), ty);
    }
    assert_eq!(lower_extension("a.b.PNG"), "png");
    assert_eq!(lower_extension("README"), "readme");
    assert_eq!(lower_extension("dot."), "");
}

#[test]
fn the_library_passes_over_keys_it_cannot_cache() {
    let object = |key: &str| R2Object { key: key.into(), size: 3 };
    let objects = vec![
        object("media/"),
        object("media/a.png"),
        object("media/../../evil.js"),
        object("media/2026/pic.png"),
        object("posts/a.md"),
    ];
    let items = list_media(&objects);
    assert_eq!(items.len(), 1);
    assert_eq!(items[0].key, "media/a.png");
    assert_eq!(items[0].name, "a.png");
    assert_eq!(items[0].size, 3);
}

#[test]
fn a_library_object_is_staged_by_its_key() {
    let s = stage_media_from_library("media/Pic.PNG").unwrap();
    assert_eq!(s.name, "Pic.PNG");
    assert_eq!(s.ext, "png");
    let refused = |key: &str| match stage_media_from_library(key) {
        Err(e) => e,
        Ok(_) => panic!("{key} was staged"),
    };
    assert_eq!(refused("posts/x.png"), AppError::NotAMediaKey("posts/x.png".into()));
    assert_eq!(refused("media/a/b.png"), AppError::NotAMediaKey("media/a/b.png".into()));
    assert_eq!(refused("media/x."), AppError::MediaKeyHasNoExtension("media/x.".into()));
    assert_eq!(library_bytes("media/x", Some(vec![1])).unwrap(), vec![1]);
    assert_eq!(
        library_bytes("media/x", None).unwrap_err(),
        AppError::MediaNotFound("media/x".into())
    );
}

#[test]
fn a_deletion_that_is_not_known_to_be_safe_is_refused() {
    let safe = DeletionCheck { users: vec![], unread_posts: vec![], unknown: false };
    assert!(delete_media("media/x.png", &safe, false).is_ok());
    let blind = DeletionCheck {
        users: vec![],
        unread_posts: vec![UnreadPost { id: 1, title: "P".into() }],
        unknown: false,
    };
    assert_eq!(
        delete_media("media/x.png", &blind, false).unwrap_err(),
        AppError::MediaInUse { key: "media/x.png".into(), posts: 0, unchecked_posts: 1 }
    );
    assert!(delete_media("media/x.png", &blind, true).is_ok());
}
