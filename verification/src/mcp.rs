//! The endpoint that lets an assistant read the posts, draft and edit, while
//! publishing waits for somebody's approval.
//!
//! It listens on this machine alone, and every request has to carry a token, so
//! that other software cannot use it by knowing the port. [`server`] is what the
//! tools do, and [`publish`] is the approval.

use crate::commands::save::{save_post, save_started, save_origin, Save};
use crate::db::side_tables::trash_get;
use crate::db::{post_get, Store};
use crate::entities::post;
use crate::error::{AppError, AppResult};
use crate::ids::{is_simple_id, new_simple_id};
use crate::json::{tags_from_json, tags_in};
use crate::mcp::publish::{is_final, settle, settled, PublishRequest, Queue};
use crate::text::{decimal, decimal_of, join, joined, opt_view, strip_prefix};
use vstd::prelude::*;
use vstd::string::StringExecFns;
use vstd::utf8::encode_utf8;

pub mod publish;
pub mod server;

verus! {

/// The port until somebody changes it.
pub const DEFAULT_PORT: u16 = 4127;

/// Where the endpoint is mounted.
pub const ENDPOINT_PATH: &'static str = "/mcp";

/// What the frontend is told whenever the requests change.
pub const PUBLISH_EVENT: &'static str = "mcp://publish-requests-changed";

/// Under what the token is filed in the keychain.
pub const KEYRING_SERVICE: &'static str = "blog-cms-app";

/// For whom the token is filed in the keychain.
pub const KEYRING_USER: &'static str = "mcp-bearer-token";

// ─── Settings ───────────────────────────────────────────────────────────────

/// The settings file. The token is in it only where no keychain took it.
#[derive(Debug, PartialEq, Eq)]
pub struct StoredMcp {
    pub enabled: bool,
    pub port: Option<u16>,
    pub token: Option<String>,
}

/// What is in force before anything was kept.
pub fn no_settings() -> (s: StoredMcp)
    ensures
        !s.enabled,
        s.port is None,
        s.token is None,
{
    StoredMcp { enabled: false, port: None, token: None }
}

/// The token that is in force: the keychain's, or else the file's.
pub open spec fn token_in_force(in_keychain: Option<String>, stored: StoredMcp) -> Option<
    Seq<char>,
> {
    match in_keychain {
        Some(t) => Some(t@),
        None => opt_view(stored.token),
    }
}

/// The token, if one was ever issued. None is issued here: looking at the settings
/// must not create one.
pub fn load_token(in_keychain: Option<String>, stored: &StoredMcp) -> (r: Option<String>)
    ensures
        opt_view(r) == token_in_force(in_keychain, *stored),
{
    match in_keychain {
        Some(t) => Some(t),
        None => crate::text::copy_opt(&stored.token),
    }
}

/// A new token. Which one comes is chance.
pub fn new_token() -> (t: String)
    ensures
        is_simple_id(t@),
{
    new_simple_id()
}

/// The settings with a token that was issued: in the file only where the keychain
/// did not take it.
pub fn with_token(stored: StoredMcp, token: &str, in_keychain: bool) -> (s: StoredMcp)
    ensures
        s.enabled == stored.enabled,
        s.port == stored.port,
        opt_view(s.token) == if in_keychain {
            None
        } else {
            Some(token@)
        },
{
    StoredMcp {
        enabled: stored.enabled,
        port: stored.port,
        token: if in_keychain {
            None
        } else {
            Some(token.to_owned())
        },
    }
}

/// The settings without a token, as they are kept before a new one is issued.
pub fn without_token(stored: StoredMcp) -> (s: StoredMcp)
    ensures
        s.enabled == stored.enabled,
        s.port == stored.port,
        s.token is None,
{
    StoredMcp { enabled: stored.enabled, port: stored.port, token: None }
}

/// The settings with the endpoint on or off and its port. A port that needs rights
/// to listen on is refused.
pub fn mcp_configure(stored: StoredMcp, enabled: bool, port: u16) -> (r: AppResult<StoredMcp>)
    ensures
        match r {
            Ok(s) => {
                &&& port >= 1024
                &&& s.enabled == enabled
                &&& s.port == Some(port)
                &&& s.token == stored.token
            },
            Err(e) => port < 1024 && e is PortTooLow,
        },
{
    if port < 1024 {
        return Err(AppError::PortTooLow);
    }
    Ok(StoredMcp { enabled, port: Some(port), token: stored.token })
}

/// The port in the settings.
pub open spec fn port_of(stored: StoredMcp) -> u16 {
    match stored.port {
        Some(p) => p,
        None => DEFAULT_PORT,
    }
}

/// The port to listen on at launch, where the endpoint was left on.
pub fn launch_port(stored: &StoredMcp) -> (r: Option<u16>)
    ensures
        r == if stored.enabled {
            Some(port_of(*stored))
        } else {
            None
        },
{
    if stored.enabled {
        Some(settings_port(stored))
    } else {
        None
    }
}

/// The port in the settings.
pub fn settings_port(stored: &StoredMcp) -> (p: u16)
    ensures
        p == port_of(*stored),
{
    match stored.port {
        Some(p) => p,
        None => DEFAULT_PORT,
    }
}

/// What the settings screen shows.
#[derive(Debug, PartialEq, Eq)]
pub struct McpStatus {
    /// Whether the endpoint should run.
    pub enabled: bool,
    /// Whether it listens right now.
    pub running: bool,
    pub port: u16,
    /// What to paste into a client.
    pub endpoint: String,
    /// The token that clients have to send, once one was issued.
    pub token: Option<String>,
}

/// The address of an endpoint on this port.
pub open spec fn endpoint_of(port: u16) -> Seq<char> {
    "http://127.0.0.1:"@ + decimal_of(port as nat) + ENDPOINT_PATH@
}

/// What the settings screen shows. The port is the one that is listened on, where
/// there is one.
pub fn mcp_status(stored: &StoredMcp, running: Option<u16>, token: Option<String>) -> (s: McpStatus)
    ensures
        s.enabled == stored.enabled,
        s.running == running is Some,
        s.port == match running {
            Some(p) => p,
            None => port_of(*stored),
        },
        s.endpoint@ == endpoint_of(s.port),
        s.token == token,
{
    let port: u16 = match running {
        Some(p) => p,
        None => settings_port(stored),
    };
    let mut endpoint: String = "http://127.0.0.1:".to_owned();
    endpoint.append(decimal(port as u128).as_str());
    endpoint.append(ENDPOINT_PATH);
    McpStatus { enabled: stored.enabled, running: running.is_some(), port, endpoint, token }
}

// ─── The token ──────────────────────────────────────────────────────────────

proof fn lemma_differences(acc: u8, x: u8, y: u8)
    ensures
        (acc | (x ^ y)) == 0 <==> acc == 0 && x == y,
{
    assert((acc | (x ^ y)) == 0 <==> acc == 0 && x == y) by (bit_vector);
}

proof fn lemma_same_bytes(a: Seq<char>, b: Seq<char>)
    ensures
        encode_utf8(a) == encode_utf8(b) <==> a == b,
{
    broadcast use vstd::utf8::encode_utf8_decode_utf8;

    assert(vstd::utf8::decode_utf8(encode_utf8(a)) == a);
    assert(vstd::utf8::decode_utf8(encode_utf8(b)) == b);
}

/// Whether the secret presented is the one expected, without stopping at the first
/// byte that differs. An expected secret that is empty matches nothing: it must not
/// let in a request that sent none.
pub fn secret_eq(presented: &str, expected: &str) -> (r: bool)
    ensures
        r == (expected@.len() > 0 && presented@ == expected@),
{
    let a: &[u8] = presented.as_bytes();
    let b: &[u8] = expected.as_bytes();
    proof {
        lemma_same_bytes(presented@, expected@);
        lemma_same_bytes(Seq::empty(), expected@);
        assert(encode_utf8(Seq::empty()) =~= Seq::empty());
    }
    if b.len() == 0 {
        assert(encode_utf8(expected@) =~= Seq::empty());
        assert(expected@.len() == 0);
        return false;
    }
    if a.len() != b.len() {
        return false;
    }
    let mut differences: u8 = 0;
    let mut i: usize = 0;
    let n: usize = b.len();
    while i < n
        invariant
            i <= n,
            n == a@.len(),
            n == b@.len(),
            differences == 0 <==> forall|j: int| 0 <= j < i ==> a@[j] == b@[j],
        decreases n - i,
    {
        proof {
            lemma_differences(differences, a@[i as int], b@[i as int]);
        }
        differences = differences | (a[i] ^ b[i]);
        i = i + 1;
    }
    proof {
        if differences == 0 {
            assert(a@ =~= b@);
        }
        if expected@.len() == 0 {
            assert(expected@ =~= Seq::empty());
        }
    }
    differences == 0
}

/// What a request's header presents.
pub open spec fn presented_of(header: Option<&str>) -> Seq<char> {
    match header {
        Some(h) => if "Bearer "@.is_prefix_of(h@) {
            h@.skip("Bearer "@.len() as int)
        } else {
            Seq::empty()
        },
        None => Seq::empty(),
    }
}

/// Whether a request with this `Authorization` header may pass.
pub fn is_authorized(header: Option<&str>, expected: &str) -> (r: bool)
    ensures
        r == (expected@.len() > 0 && presented_of(header) == expected@),
{
    match header {
        Some(h) => match strip_prefix(h, "Bearer ") {
            Some(presented) => {
                assert(h@.skip("Bearer "@.len() as int) =~= presented@);
                secret_eq(presented, expected)
            },
            None => false,
        },
        None => false,
    }
}

/// Only a header that carries the token passes: the word, a space and the token,
/// and nothing else.
pub proof fn only_the_token_passes(header: Option<&str>, expected: Seq<char>)
    requires
        expected.len() > 0,
    ensures
        presented_of(header) == expected <==> (header matches Some(h) && h@ == "Bearer "@
            + expected),
{
    match header {
        Some(h) => {
            let n = "Bearer "@.len() as int;
            if "Bearer "@.is_prefix_of(h@) {
                assert(h@ =~= "Bearer "@ + h@.skip(n));
            }
            if h@ == "Bearer "@ + expected {
                assert(h@.skip(n) =~= expected);
            }
        },
        None => {},
    }
}

// ─── Approval ───────────────────────────────────────────────────────────────

/// The post that an approved request is for, as it stands now: somebody approves
/// it as it is, and not as it was when the request was made.
pub fn approved_post(db: &Store, request: &PublishRequest) -> (r: AppResult<post::Model>)
    requires
        db.wf(),
    ensures
        match r {
            Ok(p) => db@.active(request.post_id) && p@ == db@.posts[request.post_id],
            Err(e) => if db@.posts.contains_key(request.post_id) {
                &&& db@.trash.contains_key(request.post_id)
                &&& e matches AppError::PostInTrash(s) && s@ == db@.posts[request.post_id].slug
            } else {
                e == AppError::PostVanished(request.post_id)
            },
        },
{
    match post_get(db, request.post_id) {
        Some(post) => {
            if trash_get(db, post.id).is_some() {
                return Err(AppError::PostInTrash(post.slug));
            }
            Ok(post)
        },
        None => Err(AppError::PostVanished(request.post_id)),
    }
}

/// Starts the save that carries an approved request out: the one that the Publish
/// button makes, with the post's own title and tags.
pub fn begin_approved(db: &Store, post: post::Model, body: String, now: i64) -> (r: AppResult<Save>)
    requires
        db.wf(),
    ensures
        save_started(
            db@,
            Some(post.id),
            post.title@,
            joined(tags_in(post@.tags), ","@),
            body@,
            true,
            save_origin(true),
            now,
            r,
        ),
{
    let tags: String = join(&tags_from_json(&post.tags), ",");
    save_post(db, Some(post.id), post.title, tags.as_str(), body, true, now)
}

/// The failure of an approved request, as it is recorded.
pub open spec fn recorded_failure(outcome: AppResult<()>) -> Option<Seq<char>> {
    match outcome {
        Ok(_) => None,
        Err(e) => Some(e.text()),
    }
}

/// Records how an approved request turned out. The failure is kept as text, which
/// is what clients read. A request that was decided comes back as it stands.
pub fn settle_approved(queue: &mut Queue, request_id: &str, outcome: AppResult<()>) -> (r: AppResult<
    PublishRequest,
>)
    requires
        old(queue).wf(),
    ensures
        final(queue).wf(),
        match r {
            Ok(q) => {
                &&& old(queue)@.contains_key(request_id@)
                &&& q@ == settled(old(queue)@[request_id@], recorded_failure(outcome))
                &&& final(queue)@ == old(queue)@.insert(request_id@, q@)
                &&& is_final(old(queue)@[request_id@].state) ==> final(queue)@ == old(queue)@
            },
            Err(e) => {
                &&& !old(queue)@.contains_key(request_id@)
                &&& e matches AppError::PublishRequestVanished(id) && id@ == request_id@
                &&& final(queue)@ == old(queue)@
            },
        },
{
    let told: Result<(), String> = match outcome {
        Ok(_) => Ok(()),
        Err(e) => Err(e.message()),
    };
    match settle(queue, request_id, told) {
        Some(q) => Ok(q),
        None => Err(AppError::PublishRequestVanished(request_id.to_owned())),
    }
}

/// The keychain's token is the one in force, and the file's only without it; the port
/// is the one that was set, or the usual one; a failure is recorded with what it says.
pub proof fn what_is_in_force(in_keychain: String, stored: StoredMcp, e: AppError)
    ensures
        token_in_force(Some(in_keychain), stored) == Some(in_keychain@),
        token_in_force(None, stored) == opt_view(stored.token),
        stored.port matches Some(p) ==> port_of(stored) == p,
        stored.port is None ==> port_of(stored) == 4127,
        recorded_failure(Ok(())) is None,
        recorded_failure(Err(e)) == Some(e.text()),
{
}

}
