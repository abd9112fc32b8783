//! Signing in: the credentials that are held, kept and shown.
//!
//! The API token goes to the system's keychain, and everything else to a file. A
//! keychain that refuses the token has it kept in the file instead.

use crate::cloudflare::{CloudflareConfig, ConfigRow};
use crate::error::{AppError, AppResult};
use crate::media_keys::{
    pattern_fault, validate_pattern, PatternKind, DEFAULT_MEDIA_PATTERN,
    DEFAULT_THUMBNAIL_PATTERN,
};
use crate::text::{is_blank, opt_view, starts_with, trim, trim_end_by, trim_end_char, trimmed};
use vstd::prelude::*;

verus! {

/// Under what the token is filed in the keychain.
pub const KEYRING_SERVICE: &'static str = "blog-cms-app";

/// For whom the token is filed in the keychain.
pub const KEYRING_USER: &'static str = "cloudflare-api-token";

// ─── The session ────────────────────────────────────────────────────────────

/// The credentials that are in use, where somebody is signed in.
pub struct Session {
    pub creds: Option<CloudflareConfig>,
}

/// The view of credentials that may not be there.
pub open spec fn config_row(c: Option<CloudflareConfig>) -> Option<ConfigRow> {
    match c {
        Some(x) => Some(x@),
        None => None,
    }
}

/// Whether the app is signed in, and as whom.
#[derive(Debug, PartialEq, Eq)]
pub struct SessionStatus {
    pub authenticated: bool,
    pub configured: bool,
    pub account_id: Option<String>,
}

/// The credentials without the token, for display.
#[derive(Debug, PartialEq, Eq)]
pub struct PublicCreds {
    pub account_id: String,
    pub r2_bucket: String,
    pub d1_database_id: String,
    pub r2_public_url: String,
    pub thumbnail_key_pattern: String,
    pub media_key_pattern: String,
    pub web_analytics_site_tag: String,
}

/// What [`PublicCreds`] say.
pub struct PublicRow {
    pub account_id: Seq<char>,
    pub r2_bucket: Seq<char>,
    pub d1_database_id: Seq<char>,
    pub r2_public_url: Seq<char>,
    pub thumbnail_key_pattern: Seq<char>,
    pub media_key_pattern: Seq<char>,
    pub web_analytics_site_tag: Seq<char>,
}

impl View for PublicCreds {
    type V = PublicRow;

    open spec fn view(&self) -> PublicRow {
        PublicRow {
            account_id: self.account_id@,
            r2_bucket: self.r2_bucket@,
            d1_database_id: self.d1_database_id@,
            r2_public_url: self.r2_public_url@,
            thumbnail_key_pattern: self.thumbnail_key_pattern@,
            media_key_pattern: self.media_key_pattern@,
            web_analytics_site_tag: self.web_analytics_site_tag@,
        }
    }
}

/// Credentials without their token.
pub open spec fn without_token(c: ConfigRow) -> PublicRow {
    PublicRow {
        account_id: c.account_id,
        r2_bucket: c.r2_bucket,
        d1_database_id: c.d1_database_id,
        r2_public_url: c.r2_public_url,
        thumbnail_key_pattern: c.thumbnail_key_pattern,
        media_key_pattern: c.media_key_pattern,
        web_analytics_site_tag: c.web_analytics_site_tag,
    }
}

impl Session {
    /// Nobody is signed in.
    pub fn new() -> (s: Session)
        ensures
            s.creds is None,
    {
        Session { creds: None }
    }

    /// The credentials in use, or the error that there are none.
    pub fn cf(&self) -> (r: AppResult<CloudflareConfig>)
        ensures
            match r {
                Ok(c) => config_row(self.creds) == Some(c@),
                Err(e) => self.creds is None && e is NotConfigured,
            },
    {
        match get_creds(self) {
            Some(c) => Ok(c),
            None => Err(AppError::NotConfigured),
        }
    }

    /// The credentials to show: never the token.
    pub fn get_credentials(&self) -> (r: Option<PublicCreds>)
        ensures
            match r {
                Some(p) => self.creds matches Some(c) && p@ == without_token(c@),
                None => self.creds is None,
            },
    {
        match &self.creds {
            Some(c) => Some(
                PublicCreds {
                    account_id: c.account_id.clone(),
                    r2_bucket: c.r2_bucket.clone(),
                    d1_database_id: c.d1_database_id.clone(),
                    r2_public_url: c.r2_public_url.clone(),
                    thumbnail_key_pattern: c.thumbnail_key_pattern.clone(),
                    media_key_pattern: c.media_key_pattern.clone(),
                    web_analytics_site_tag: c.web_analytics_site_tag.clone(),
                },
            ),
            None => None,
        }
    }

    /// A session means that credentials are configured. Whether the token is any
    /// good shows when it is used.
    pub fn session_status(&self) -> (r: SessionStatus)
        ensures
            r.authenticated == self.creds is Some,
            r.configured == self.creds is Some,
            opt_view(r.account_id) == match self.creds {
                Some(c) => Some(c.account_id@),
                None => None,
            },
    {
        match &self.creds {
            Some(c) => SessionStatus {
                authenticated: true,
                configured: true,
                account_id: Some(c.account_id.clone()),
            },
            None => SessionStatus { authenticated: false, configured: false, account_id: None },
        }
    }
}

/// Replaces the credentials, at startup and on signing in or out.
pub fn set_creds(session: &mut Session, config: Option<CloudflareConfig>)
    ensures
        final(session).creds == config,
{
    session.creds = config;
}

/// The credentials in use.
pub fn get_creds(session: &Session) -> (r: Option<CloudflareConfig>)
    ensures
        config_row(r) == config_row(session.creds),
{
    match &session.creds {
        Some(c) => Some(c.clone()),
        None => None,
    }
}

// ─── What is kept ───────────────────────────────────────────────────────────

/// The credentials file. The token is in it only where no keychain took it.
#[derive(Debug, PartialEq, Eq)]
pub struct StoredCreds {
    pub account_id: String,
    pub r2_bucket: String,
    pub d1_database_id: String,
    /// Empty in a file from before it was kept.
    pub r2_public_url: String,
    /// Empty in a file from before the layout could be chosen.
    pub thumbnail_key_pattern: String,
    /// Empty in a file from before the layout could be chosen.
    pub media_key_pattern: String,
    /// Empty where no site was chosen.
    pub web_analytics_site_tag: String,
    pub api_token: Option<String>,
}

/// What [`StoredCreds`] say.
pub struct StoredRow {
    pub account_id: Seq<char>,
    pub r2_bucket: Seq<char>,
    pub d1_database_id: Seq<char>,
    pub r2_public_url: Seq<char>,
    pub thumbnail_key_pattern: Seq<char>,
    pub media_key_pattern: Seq<char>,
    pub web_analytics_site_tag: Seq<char>,
    pub api_token: Option<Seq<char>>,
}

impl View for StoredCreds {
    type V = StoredRow;

    open spec fn view(&self) -> StoredRow {
        StoredRow {
            account_id: self.account_id@,
            r2_bucket: self.r2_bucket@,
            d1_database_id: self.d1_database_id@,
            r2_public_url: self.r2_public_url@,
            thumbnail_key_pattern: self.thumbnail_key_pattern@,
            media_key_pattern: self.media_key_pattern@,
            web_analytics_site_tag: self.web_analytics_site_tag@,
            api_token: opt_view(self.api_token),
        }
    }
}

/// A kept value, or the default where it is blank.
pub open spec fn kept_or(stored: Seq<char>, default: Seq<char>) -> Seq<char> {
    if trimmed(stored).len() == 0 {
        default
    } else {
        stored
    }
}

/// A kept value, or the default where the file is from before there was one.
pub fn or_default(stored: String, default: &str) -> (out: String)
    ensures
        out@ == kept_or(stored@, default@),
{
    if is_blank(stored.as_str()) {
        default.to_owned()
    } else {
        stored
    }
}

/// The credentials that a file and a keychain make.
pub open spec fn loaded(stored: StoredRow, token: Seq<char>) -> ConfigRow {
    ConfigRow {
        account_id: stored.account_id,
        api_token: token,
        r2_bucket: stored.r2_bucket,
        d1_database_id: stored.d1_database_id,
        r2_public_url: stored.r2_public_url,
        thumbnail_key_pattern: kept_or(stored.thumbnail_key_pattern, DEFAULT_THUMBNAIL_PATTERN@),
        media_key_pattern: kept_or(stored.media_key_pattern, DEFAULT_MEDIA_PATTERN@),
        web_analytics_site_tag: stored.web_analytics_site_tag,
    }
}

/// The token to use: the keychain's, or else the file's.
pub open spec fn token_of(in_keychain: Option<Seq<char>>, in_file: Option<Seq<char>>) -> Option<
    Seq<char>,
> {
    match in_keychain {
        Some(t) => Some(t),
        None => in_file,
    }
}

/// The credentials out of what was kept, or nothing where no token can be found.
pub fn load_from_disk(stored: StoredCreds, in_keychain: Option<String>) -> (r: Option<CloudflareConfig>)
    ensures
        config_row(r) == match token_of(opt_view(in_keychain), opt_view(stored.api_token)) {
            Some(token) => Some(loaded(stored@, token)),
            None => None,
        },
{
    let token: Option<String> = match in_keychain {
        Some(t) => Some(t),
        None => stored.api_token,
    };
    match token {
        Some(api_token) => Some(
            CloudflareConfig {
                account_id: stored.account_id,
                api_token,
                r2_bucket: stored.r2_bucket,
                d1_database_id: stored.d1_database_id,
                r2_public_url: stored.r2_public_url,
                thumbnail_key_pattern: or_default(
                    stored.thumbnail_key_pattern,
                    DEFAULT_THUMBNAIL_PATTERN,
                ),
                media_key_pattern: or_default(stored.media_key_pattern, DEFAULT_MEDIA_PATTERN),
                web_analytics_site_tag: stored.web_analytics_site_tag,
            },
        ),
        None => None,
    }
}

/// What is written to the file: with the token only where the keychain does not
/// have it.
pub open spec fn to_store(c: ConfigRow, in_keychain: bool) -> StoredRow {
    StoredRow {
        account_id: c.account_id,
        r2_bucket: c.r2_bucket,
        d1_database_id: c.d1_database_id,
        r2_public_url: c.r2_public_url,
        thumbnail_key_pattern: c.thumbnail_key_pattern,
        media_key_pattern: c.media_key_pattern,
        web_analytics_site_tag: c.web_analytics_site_tag,
        api_token: if in_keychain {
            None
        } else {
            Some(c.api_token)
        },
    }
}

/// What to write to the file, given whether the keychain took the token.
pub fn save_to_disk(config: &CloudflareConfig, in_keychain: bool) -> (r: StoredCreds)
    ensures
        r@ == to_store(config@, in_keychain),
{
    StoredCreds {
        account_id: config.account_id.clone(),
        r2_bucket: config.r2_bucket.clone(),
        d1_database_id: config.d1_database_id.clone(),
        r2_public_url: config.r2_public_url.clone(),
        thumbnail_key_pattern: config.thumbnail_key_pattern.clone(),
        media_key_pattern: config.media_key_pattern.clone(),
        web_analytics_site_tag: config.web_analytics_site_tag.clone(),
        api_token: if in_keychain {
            None
        } else {
            Some(config.api_token.clone())
        },
    }
}

// ─── Signing in and settings ────────────────────────────────────────────────

/// A public origin as it is kept: a slash at its end would double up with the one
/// before a key.
pub open spec fn origin_of(url: Seq<char>) -> Seq<char> {
    trim_end_by(trimmed(url), |c: char| c == '/')
}

/// The credentials that signing in makes, without the space that sneaks in when
/// values are pasted.
pub fn save_credentials(
    account_id: &str,
    api_token: &str,
    r2_bucket: &str,
    d1_database_id: &str,
    r2_public_url: &str,
) -> (c: CloudflareConfig)
    ensures
        c@ == (ConfigRow {
            account_id: trimmed(account_id@),
            api_token: trimmed(api_token@),
            r2_bucket: trimmed(r2_bucket@),
            d1_database_id: trimmed(d1_database_id@),
            r2_public_url: origin_of(r2_public_url@),
            thumbnail_key_pattern: DEFAULT_THUMBNAIL_PATTERN@,
            media_key_pattern: DEFAULT_MEDIA_PATTERN@,
            web_analytics_site_tag: Seq::empty(),
        }),
{
    let none: String = String::new();
    assert(none@ =~= Seq::empty());
    CloudflareConfig {
        account_id: trim(account_id).to_owned(),
        api_token: trim(api_token).to_owned(),
        r2_bucket: trim(r2_bucket).to_owned(),
        d1_database_id: trim(d1_database_id).to_owned(),
        r2_public_url: trim_end_char(trim(r2_public_url), '/').to_owned(),
        thumbnail_key_pattern: DEFAULT_THUMBNAIL_PATTERN.to_owned(),
        media_key_pattern: DEFAULT_MEDIA_PATTERN.to_owned(),
        web_analytics_site_tag: none,
    }
}

/// The credentials with these settings.
pub open spec fn with_settings(
    c: ConfigRow,
    public_url: Seq<char>,
    thumbnail: Seq<char>,
    media: Seq<char>,
    site_tag: Option<Seq<char>>,
) -> ConfigRow {
    ConfigRow {
        r2_public_url: origin_of(public_url),
        thumbnail_key_pattern: trimmed(thumbnail),
        media_key_pattern: trimmed(media),
        web_analytics_site_tag: match site_tag {
            Some(tag) => trimmed(tag),
            None => c.web_analytics_site_tag,
        },
        ..c
    }
}

impl Session {
    /// The credentials in use with new settings; the account and the token stay. A
    /// bad layout is refused here: it would not fail when a post is published, it
    /// would put objects under keys where the blog does not look. No site tag
    /// leaves the one chosen.
    pub fn save_settings(
        &self,
        r2_public_url: &str,
        thumbnail_key_pattern: &str,
        media_key_pattern: &str,
        web_analytics_site_tag: Option<String>,
    ) -> (r: AppResult<CloudflareConfig>)
        ensures
            ({
                let url = origin_of(r2_public_url@);
                let bad_url = url.len() > 0 && !"http://"@.is_prefix_of(url)
                    && !"https://"@.is_prefix_of(url);
                let thumbnail = trimmed(thumbnail_key_pattern@);
                let media = trimmed(media_key_pattern@);
                match r {
                    Ok(c) => {
                        &&& self.creds matches Some(was) && c@ == with_settings(
                            was@,
                            r2_public_url@,
                            thumbnail_key_pattern@,
                            media_key_pattern@,
                            opt_view(web_analytics_site_tag),
                        )
                        &&& !bad_url
                        &&& pattern_fault(thumbnail, PatternKind::Thumbnail) is None
                        &&& pattern_fault(media, PatternKind::Media) is None
                    },
                    Err(e) => if self.creds is None {
                        e is NotConfigured
                    } else if bad_url {
                        e is InvalidPublicUrl
                    } else if pattern_fault(thumbnail, PatternKind::Thumbnail) is Some {
                        e matches AppError::InvalidPattern(why) && Some(why@) == pattern_fault(
                            thumbnail,
                            PatternKind::Thumbnail,
                        )
                    } else {
                        e matches AppError::InvalidPattern(why) && Some(why@) == pattern_fault(
                            media,
                            PatternKind::Media,
                        )
                    },
                }
            }),
    {
        let mut config: CloudflareConfig = match self.cf() {
            Ok(c) => c,
            Err(e) => {
                return Err(e);
            },
        };
        let url: &str = trim_end_char(trim(r2_public_url), '/');
        if !url.is_empty() && !starts_with(url, "http://") && !starts_with(url, "https://") {
            return Err(AppError::InvalidPublicUrl);
        }
        let thumbnail: &str = trim(thumbnail_key_pattern);
        let media: &str = trim(media_key_pattern);
        match validate_pattern(thumbnail, PatternKind::Thumbnail) {
            Err(e) => {
                return Err(e);
            },
            Ok(_) => {},
        }
        match validate_pattern(media, PatternKind::Media) {
            Err(e) => {
                return Err(e);
            },
            Ok(_) => {},
        }
        config.r2_public_url = url.to_owned();
        config.thumbnail_key_pattern = thumbnail.to_owned();
        config.media_key_pattern = media.to_owned();
        match web_analytics_site_tag {
            Some(tag) => {
                config.web_analytics_site_tag = trim(tag.as_str()).to_owned();
            },
            None => {},
        }
        Ok(config)
    }
}

// ─── Laws ───────────────────────────────────────────────────────────────────

/// What is kept loads as it was, wherever the token went, where the layouts are
/// not blank.
pub proof fn what_is_kept_loads_again(c: ConfigRow, in_keychain: bool)
    requires
        trimmed(c.thumbnail_key_pattern).len() > 0,
        trimmed(c.media_key_pattern).len() > 0,
    ensures
        ({
            let kept = to_store(c, in_keychain);
            let held = if in_keychain {
                Some(c.api_token)
            } else {
                None
            };
            &&& token_of(held, kept.api_token) == Some(c.api_token)
            &&& loaded(kept, c.api_token) == c
        }),
{
}

/// A token that the keychain took is not in the file.
pub proof fn a_token_in_the_keychain_is_not_in_the_file(c: ConfigRow)
    ensures
        to_store(c, true).api_token is None,
{
}

/// Settings are kept as they were typed, without the space round them and without a
/// slash at the end of the address; the account, the bucket, the database and the
/// token stay, and so does the site where none was given.
pub proof fn settings_change_what_was_set(
    c: ConfigRow,
    url: Seq<char>,
    thumbnail: Seq<char>,
    media: Seq<char>,
    site_tag: Option<Seq<char>>,
)
    ensures
        ({
            let after = with_settings(c, url, thumbnail, media, site_tag);
            &&& after.account_id == c.account_id
            &&& after.api_token == c.api_token
            &&& after.r2_bucket == c.r2_bucket
            &&& after.d1_database_id == c.d1_database_id
            &&& after.r2_public_url == trim_end_by(trimmed(url), |x: char| x == '/')
            &&& after.thumbnail_key_pattern == trimmed(thumbnail)
            &&& after.media_key_pattern == trimmed(media)
            &&& site_tag matches Some(tag) ==> after.web_analytics_site_tag == trimmed(tag)
            &&& site_tag is None ==> after.web_analytics_site_tag == c.web_analytics_site_tag
        }),
{
}

/// What is shown of credentials is all but the token; what is loaded is what was kept,
/// with the default layout where one is blank.
pub proof fn credentials_are_shown_and_loaded(c: ConfigRow, stored: StoredRow, token: Seq<char>)
    ensures
        without_token(c).account_id == c.account_id,
        without_token(c).r2_bucket == c.r2_bucket,
        without_token(c).d1_database_id == c.d1_database_id,
        without_token(c).r2_public_url == c.r2_public_url,
        without_token(c).thumbnail_key_pattern == c.thumbnail_key_pattern,
        without_token(c).media_key_pattern == c.media_key_pattern,
        without_token(c).web_analytics_site_tag == c.web_analytics_site_tag,
        loaded(stored, token).api_token == token,
        loaded(stored, token).account_id == stored.account_id,
        loaded(stored, token).r2_bucket == stored.r2_bucket,
        loaded(stored, token).d1_database_id == stored.d1_database_id,
        loaded(stored, token).r2_public_url == stored.r2_public_url,
        loaded(stored, token).web_analytics_site_tag == stored.web_analytics_site_tag,
        trimmed(stored.media_key_pattern).len() == 0 ==> loaded(stored, token).media_key_pattern
            == "posts/{slug}/{hash}.{ext}"@,
        trimmed(stored.thumbnail_key_pattern).len() == 0 ==> loaded(
            stored,
            token,
        ).thumbnail_key_pattern == "posts/{slug}/thumbnail.{ext}"@,
        trimmed(stored.media_key_pattern).len() > 0 ==> loaded(stored, token).media_key_pattern
            == stored.media_key_pattern,
        trimmed(stored.thumbnail_key_pattern).len() > 0 ==> loaded(
            stored,
            token,
        ).thumbnail_key_pattern == stored.thumbnail_key_pattern,
        token_of(Some(token), stored.api_token) == Some(token),
        token_of(None, stored.api_token) == stored.api_token,
{
}

}
