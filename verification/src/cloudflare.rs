//! The cloud account: its credentials, and what the answers of its object store
//! mean.
//!
//! The requests themselves are made outside this library, which says where they
//! go and takes the status and the text that came back.

use crate::analytics::{is_success, Status};
use crate::d1::{first_error, require_success};
use crate::error::{AppError, AppResult};
use crate::media_keys::{DEFAULT_MEDIA_PATTERN, DEFAULT_THUMBNAIL_PATTERN};
use crate::table::rows_view;
use crate::text::{opt_view, same_opt};
use vstd::prelude::*;
use vstd::string::StringExecFns;
use vstd::utf8::{decode_utf8, valid_utf8};

verus! {

// ─── Credentials ────────────────────────────────────────────────────────────

/// The credentials of the account, and what goes with them.
#[derive(Debug, PartialEq, Eq)]
pub struct CloudflareConfig {
    pub account_id: String,
    pub api_token: String,
    pub r2_bucket: String,
    pub d1_database_id: String,
    /// The public origin that the bucket is served from: the base of image links
    /// in published Markdown. Empty for credentials from before it was kept.
    pub r2_public_url: String,
    /// Key layout of a post's thumbnail.
    pub thumbnail_key_pattern: String,
    /// Key layout of images used in a post's body.
    pub media_key_pattern: String,
    /// The site whose readership is shown, empty where none was chosen.
    pub web_analytics_site_tag: String,
}

/// What a [`CloudflareConfig`] says.
pub struct ConfigRow {
    pub account_id: Seq<char>,
    pub api_token: Seq<char>,
    pub r2_bucket: Seq<char>,
    pub d1_database_id: Seq<char>,
    pub r2_public_url: Seq<char>,
    pub thumbnail_key_pattern: Seq<char>,
    pub media_key_pattern: Seq<char>,
    pub web_analytics_site_tag: Seq<char>,
}

impl View for CloudflareConfig {
    type V = ConfigRow;

    open spec fn view(&self) -> ConfigRow {
        ConfigRow {
            account_id: self.account_id@,
            api_token: self.api_token@,
            r2_bucket: self.r2_bucket@,
            d1_database_id: self.d1_database_id@,
            r2_public_url: self.r2_public_url@,
            thumbnail_key_pattern: self.thumbnail_key_pattern@,
            media_key_pattern: self.media_key_pattern@,
            web_analytics_site_tag: self.web_analytics_site_tag@,
        }
    }
}

impl Clone for CloudflareConfig {
    fn clone(&self) -> (r: Self)
        ensures
            r@ == self@,
    {
        CloudflareConfig {
            account_id: self.account_id.clone(),
            api_token: self.api_token.clone(),
            r2_bucket: self.r2_bucket.clone(),
            d1_database_id: self.d1_database_id.clone(),
            r2_public_url: self.r2_public_url.clone(),
            thumbnail_key_pattern: self.thumbnail_key_pattern.clone(),
            media_key_pattern: self.media_key_pattern.clone(),
            web_analytics_site_tag: self.web_analytics_site_tag.clone(),
        }
    }
}

/// The environment variables that credentials can be taken from, each where it is
/// set.
pub struct EnvVars {
    /// `CF_ACCOUNT_ID`
    pub account_id: Option<String>,
    /// `CF_API_TOKEN`
    pub api_token: Option<String>,
    /// `CF_R2_BUCKET`
    pub r2_bucket: Option<String>,
    /// `CF_D1_DATABASE_ID`
    pub d1_database_id: Option<String>,
    /// `CF_R2_PUBLIC_URL`
    pub r2_public_url: Option<String>,
    /// `CF_THUMBNAIL_KEY_PATTERN`
    pub thumbnail_key_pattern: Option<String>,
    /// `CF_MEDIA_KEY_PATTERN`
    pub media_key_pattern: Option<String>,
}

/// The first variable that has to be set and is not.
pub open spec fn first_missing(vars: EnvVars) -> Option<Seq<char>> {
    if vars.account_id is None {
        Some("CF_ACCOUNT_ID"@)
    } else if vars.api_token is None {
        Some("CF_API_TOKEN"@)
    } else if vars.r2_bucket is None {
        Some("CF_R2_BUCKET"@)
    } else if vars.d1_database_id is None {
        Some("CF_D1_DATABASE_ID"@)
    } else if vars.r2_public_url is None {
        Some("CF_R2_PUBLIC_URL"@)
    } else {
        None
    }
}

/// A text that may not be there, or another in its place.
pub open spec fn or_text(s: Option<String>, otherwise: Seq<char>) -> Seq<char> {
    match s {
        Some(t) => t@,
        None => otherwise,
    }
}

fn need(var: Option<String>, name: &'static str) -> (r: AppResult<String>)
    ensures
        match r {
            Ok(v) => var == Some(v),
            Err(e) => var is None && (e matches AppError::MissingEnv(n) && n == name),
        },
{
    match var {
        Some(v) => Ok(v),
        None => Err(AppError::MissingEnv(name)),
    }
}

impl CloudflareConfig {
    /// Credentials from the environment. The key layouts have defaults.
    pub fn from_env(vars: EnvVars) -> (r: AppResult<Self>)
        ensures
            match r {
                Ok(c) => {
                    &&& first_missing(vars) is None
                    &&& c@ == (ConfigRow {
                        account_id: or_text(vars.account_id, Seq::empty()),
                        api_token: or_text(vars.api_token, Seq::empty()),
                        r2_bucket: or_text(vars.r2_bucket, Seq::empty()),
                        d1_database_id: or_text(vars.d1_database_id, Seq::empty()),
                        r2_public_url: or_text(vars.r2_public_url, Seq::empty()),
                        thumbnail_key_pattern: or_text(
                            vars.thumbnail_key_pattern,
                            DEFAULT_THUMBNAIL_PATTERN@,
                        ),
                        media_key_pattern: or_text(
                            vars.media_key_pattern,
                            DEFAULT_MEDIA_PATTERN@,
                        ),
                        web_analytics_site_tag: Seq::empty(),
                    })
                },
                Err(e) => e matches AppError::MissingEnv(n) && first_missing(vars) == Some(n@),
            },
    {
        let account_id: String = match need(vars.account_id, "CF_ACCOUNT_ID") {
            Ok(v) => v,
            Err(e) => {
                return Err(e);
            },
        };
        let api_token: String = match need(vars.api_token, "CF_API_TOKEN") {
            Ok(v) => v,
            Err(e) => {
                return Err(e);
            },
        };
        let r2_bucket: String = match need(vars.r2_bucket, "CF_R2_BUCKET") {
            Ok(v) => v,
            Err(e) => {
                return Err(e);
            },
        };
        let d1_database_id: String = match need(vars.d1_database_id, "CF_D1_DATABASE_ID") {
            Ok(v) => v,
            Err(e) => {
                return Err(e);
            },
        };
        let r2_public_url: String = match need(vars.r2_public_url, "CF_R2_PUBLIC_URL") {
            Ok(v) => v,
            Err(e) => {
                return Err(e);
            },
        };
        let none: String = String::new();
        assert(none@ =~= Seq::empty());
        Ok(
            CloudflareConfig {
                account_id,
                api_token,
                r2_bucket,
                d1_database_id,
                r2_public_url,
                thumbnail_key_pattern: match vars.thumbnail_key_pattern {
                    Some(p) => p,
                    None => DEFAULT_THUMBNAIL_PATTERN.to_owned(),
                },
                media_key_pattern: match vars.media_key_pattern {
                    Some(p) => p,
                    None => DEFAULT_MEDIA_PATTERN.to_owned(),
                },
                web_analytics_site_tag: none,
            },
        )
    }
}

// ─── Where requests go ──────────────────────────────────────────────────────

/// The base of every request to an account.
pub open spec fn account_url(account_id: Seq<char>) -> Seq<char> {
    "https://api.cloudflare.com/client/v4/accounts/"@ + account_id
}

/// Where the objects of the bucket are listed.
pub open spec fn objects_url(c: ConfigRow) -> Seq<char> {
    account_url(c.account_id) + "/r2/buckets/"@ + c.r2_bucket + "/objects"@
}

/// Where the objects of the bucket are listed.
pub fn r2_list_url(config: &CloudflareConfig) -> (out: String)
    ensures
        out@ == objects_url(config@),
{
    let mut out: String = "https://api.cloudflare.com/client/v4/accounts/".to_owned();
    out.append(config.account_id.as_str());
    out.append("/r2/buckets/");
    out.append(config.r2_bucket.as_str());
    out.append("/objects");
    out
}

/// Where the object with this key is.
pub fn r2_object_url(config: &CloudflareConfig, key: &str) -> (out: String)
    ensures
        out@ == objects_url(config@) + "/"@ + key@,
{
    let mut out: String = r2_list_url(config);
    out.append("/");
    out.append(key);
    out
}

/// Where the database takes queries.
pub fn d1_query_url(config: &CloudflareConfig) -> (out: String)
    ensures
        out@ == account_url(config.account_id@) + "/d1/database/"@ + config.d1_database_id@
            + "/query"@,
{
    let mut out: String = "https://api.cloudflare.com/client/v4/accounts/".to_owned();
    out.append(config.account_id.as_str());
    out.append("/d1/database/");
    out.append(config.d1_database_id.as_str());
    out.append("/query");
    out
}

/// What goes into a request's `Authorization` header.
pub fn authorization(config: &CloudflareConfig) -> (out: String)
    ensures
        out@ == "Bearer "@ + config.api_token@,
{
    let mut out: String = "Bearer ".to_owned();
    out.append(config.api_token.as_str());
    out
}

// ─── What answers mean ──────────────────────────────────────────────────────

/// `e` carries a refused request's status and body.
pub open spec fn is_status_error(
    e: AppError,
    service: Seq<char>,
    op: Seq<char>,
    status: Status,
    body: Seq<char>,
) -> bool {
    e matches AppError::Cloudflare { service: s, op: o, status: t, body: b } && s@ == service && o@
        == op && t@ == status.text@ && b@ == body
}

fn require_ok(service: &'static str, op: &'static str, status: Status, body: String) -> (r:
    AppResult<()>)
    ensures
        match r {
            Ok(_) => is_success(status.code),
            Err(e) => !is_success(status.code) && is_status_error(
                e,
                service@,
                op@,
                status,
                body@,
            ),
        },
{
    if 200 <= status.code && status.code < 300 {
        Ok(())
    } else {
        Err(AppError::Cloudflare { service, op, status: status.text, body })
    }
}

/// The answer to an upload.
pub fn uploaded(status: Status, body: String) -> (r: AppResult<()>)
    ensures
        match r {
            Ok(_) => is_success(status.code),
            Err(e) => !is_success(status.code) && is_status_error(
                e,
                "R2"@,
                "upload"@,
                status,
                body@,
            ),
        },
{
    require_ok("R2", "upload", status, body)
}

/// The answer to a download: whether there is an object. `body` is read only
/// where the request was refused.
pub fn downloaded(status: Status, body: String) -> (r: AppResult<bool>)
    ensures
        match r {
            Ok(found) => if status.code == 404 {
                !found
            } else {
                found && is_success(status.code)
            },
            Err(e) => status.code != 404 && !is_success(status.code) && is_status_error(
                e,
                "R2"@,
                "download"@,
                status,
                body@,
            ),
        },
{
    if status.code == 404 {
        return Ok(false);
    }
    match require_ok("R2", "download", status, body) {
        Ok(_) => Ok(true),
        Err(e) => Err(e),
    }
}

/// The answer to a deletion. An object that is not there is deleted.
pub fn deleted(status: Status, body: String) -> (r: AppResult<()>)
    ensures
        match r {
            Ok(_) => status.code == 404 || is_success(status.code),
            Err(e) => status.code != 404 && !is_success(status.code) && is_status_error(
                e,
                "R2"@,
                "delete"@,
                status,
                body@,
            ),
        },
{
    if status.code == 404 {
        return Ok(());
    }
    require_ok("R2", "delete", status, body)
}

/// The status of a listing's answer.
pub fn listed(status: Status, body: String) -> (r: AppResult<()>)
    ensures
        match r {
            Ok(_) => is_success(status.code),
            Err(e) => !is_success(status.code) && is_status_error(
                e,
                "R2"@,
                "list"@,
                status,
                body@,
            ),
        },
{
    require_ok("R2", "list", status, body)
}

/// The status of a query's answer.
pub fn queried(status: Status, body: String) -> (r: AppResult<()>)
    ensures
        match r {
            Ok(_) => is_success(status.code),
            Err(e) => !is_success(status.code) && is_status_error(
                e,
                "D1"@,
                "HTTP"@,
                status,
                body@,
            ),
        },
{
    require_ok("D1", "HTTP", status, body)
}

/// `String::from_utf8`: the text that the bytes encode, or a description of what is
/// wrong with them where they are not UTF-8. What the description says is not
/// stated.
#[verifier::external_body]
fn utf8_text(bytes: Vec<u8>) -> (r: Result<String, String>)
    ensures
        r is Ok <==> valid_utf8(bytes@),
        r is Ok ==> r->Ok_0@ == decode_utf8(bytes@),
{
    String::from_utf8(bytes).map_err(|e| e.to_string())
}

/// An object as text. One that is not UTF-8 is an error.
pub fn object_text(bytes: Vec<u8>) -> (r: AppResult<String>)
    ensures
        match r {
            Ok(s) => valid_utf8(bytes@) && s@ == decode_utf8(bytes@),
            Err(e) => !valid_utf8(bytes@) && e is NotUtf8,
        },
{
    match utf8_text(bytes) {
        Ok(s) => Ok(s),
        Err(why) => Err(AppError::NotUtf8(why)),
    }
}

// ─── Listing ────────────────────────────────────────────────────────────────

/// An object of the bucket.
#[derive(Debug, PartialEq, Eq)]
pub struct R2Object {
    pub key: String,
    pub size: u64,
}

/// What an [`R2Object`] says.
pub struct R2ObjectRow {
    pub key: Seq<char>,
    pub size: u64,
}

impl View for R2Object {
    type V = R2ObjectRow;

    open spec fn view(&self) -> R2ObjectRow {
        R2ObjectRow { key: self.key@, size: self.size }
    }
}

/// One page of a listing.
pub struct Page {
    pub success: bool,
    pub errors: Vec<String>,
    pub objects: Vec<R2Object>,
    /// Where the next page starts.
    pub cursor: Option<String>,
    /// Whether the page stopped early because it was full.
    pub is_truncated: bool,
}

/// A listing that is under way.
pub struct Listing {
    pub objects: Vec<R2Object>,
    /// Where the page that is asked for starts: nothing for the first.
    pub cursor: Option<String>,
}

/// What a page leads to.
pub enum ListStep {
    /// Another page has to be fetched.
    More(Listing),
    /// The listing is complete, or there is nothing further to ask for.
    Done(Vec<R2Object>),
}

/// Whether another page has to be fetched: the page was cut short, and says where
/// to go on, and that is not where it started. A cursor that has not moved would
/// fetch the same page for ever.
pub open spec fn goes_on(asked: Option<Seq<char>>, page: Page) -> bool {
    page.is_truncated && (opt_view(page.cursor) matches Some(next) && next.len() > 0 && asked
        != Some(next))
}

/// The start of a listing.
pub fn list_r2() -> (l: Listing)
    ensures
        l.objects@.len() == 0,
        l.cursor is None,
{
    Listing { objects: Vec::new(), cursor: None }
}

impl Listing {
    /// Takes a page. A listing is complete only when its last page is in: one that
    /// stopped at the first would read as nothing more being there.
    pub fn accept(self, page: Page) -> (r: AppResult<ListStep>)
        ensures
            match r {
                Ok(step) => {
                    let all = rows_view(self.objects@) + rows_view(page.objects@);
                    &&& page.success
                    &&& match step {
                        ListStep::More(l) => {
                            &&& goes_on(opt_view(self.cursor), page)
                            &&& rows_view(l.objects@) == all
                            &&& opt_view(l.cursor) == opt_view(page.cursor)
                        },
                        ListStep::Done(objects) => {
                            &&& !goes_on(opt_view(self.cursor), page)
                            &&& rows_view(objects@) == all
                        },
                    }
                },
                Err(e) => {
                    &&& !page.success
                    &&& e matches AppError::CloudflareApi { service, op, message } && service@
                        == "R2"@ && op@ == "list"@ && message@ == first_error(
                        page.errors@,
                        "unknown R2 error"@,
                    )
                },
            },
    {
        match require_success("R2", "list", page.success, &page.errors, "unknown R2 error") {
            Err(e) => {
                return Err(e);
            },
            Ok(_) => {},
        }
        let mut objects: Vec<R2Object> = self.objects;
        let mut more: Vec<R2Object> = page.objects;
        let ghost all = rows_view(objects@) + rows_view(more@);
        objects.append(&mut more);
        assert(rows_view(objects@) =~= all);
        if !page.is_truncated {
            return Ok(ListStep::Done(objects));
        }
        if same_opt(&page.cursor, &self.cursor) {
            return Ok(ListStep::Done(objects));
        }
        match page.cursor {
            Some(next) => {
                if next.as_str().is_empty() {
                    Ok(ListStep::Done(objects))
                } else {
                    Ok(ListStep::More(Listing { objects, cursor: Some(next) }))
                }
            },
            None => Ok(ListStep::Done(objects)),
        }
    }
}

/// The environment signs in where all five variables are set, and not otherwise. A
/// listing goes on just where a page was cut short and names another place to go on at.
pub proof fn when_to_sign_in_and_go_on(vars: EnvVars, asked: Option<Seq<char>>, page: Page)
    ensures
        first_missing(vars) is None <==> vars.account_id is Some && vars.api_token is Some
            && vars.r2_bucket is Some && vars.d1_database_id is Some && vars.r2_public_url is Some,
        goes_on(asked, page) <==> page.is_truncated && page.cursor is Some
            && page.cursor->0@.len() > 0 && asked != Some(page.cursor->0@),
{
}

}
