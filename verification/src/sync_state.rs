//! Whether a post's local content matches what readers are actually served.
//!
//! Publication (draft or published) is an editorial decision; this is a fact
//! about bytes. It is decided by fingerprint and not by timestamp: a save that
//! changed nothing must not claim that there are edits waiting.

use crate::digest::{hex_digest, hex_of, sha256};
use crate::entities::post;
use crate::entities::post::PostRow;
use crate::entities::post_stage;
use crate::entities::post_stage::StageRow;
use crate::entities::post_sync;
use crate::entities::post_sync::SyncRow;
use crate::text::same;
use vstd::bytes::{spec_u64_to_le_bytes, u64_to_le_bytes};
use vstd::prelude::*;
use vstd::utf8::{decode_utf8, encode_utf8};

verus! {

/// Where a post's local content stands relative to the cloud.
#[derive(Clone, Copy, Debug, PartialEq, Eq, Structural)]
pub enum SyncState {
    /// What is here is what is live, or nothing here has been touched.
    Clean,
    /// Edited since the last push; readers get the previous version.
    Modified,
    /// The cloud moved on and this machine has not. Safe to take.
    RemoteAhead,
    /// Both sides changed. Nothing is applied until somebody picks a side.
    Conflict,
    /// The last push failed, so the local edits are not live.
    SyncFailed,
}

// ─── The fingerprint ────────────────────────────────────────────────────────

/// One field of the fingerprint's input: its length in bytes, then its bytes.
pub open spec fn field_bytes(field: Seq<char>) -> Seq<u8> {
    spec_u64_to_le_bytes(encode_utf8(field).len() as u64) + encode_utf8(field)
}

pub open spec fn or_empty(s: Option<Seq<char>>) -> Seq<char> {
    match s {
        Some(t) => t,
        None => Seq::empty(),
    }
}

pub open spec fn flag_text(published: bool) -> Seq<char> {
    if published {
        "1"@
    } else {
        "0"@
    }
}

/// What the fingerprint is taken of: everything a reader would notice.
pub open spec fn content_of(post: PostRow, body: Seq<char>) -> Seq<u8> {
    field_bytes(post.title) + (field_bytes(or_empty(post.excerpt)) + (field_bytes(
        or_empty(post.tags),
    ) + (field_bytes(flag_text(post.published)) + field_bytes(body))))
}

/// The fingerprint of a post and its body.
pub open spec fn fingerprint(post: PostRow, body: Seq<char>) -> Seq<char> {
    hex_of(sha256(content_of(post, body)))
}

/// Appends one length-prefixed field.
fn push_field(out: &mut Vec<u8>, field: &str)
    ensures
        final(out)@ == old(out)@ + field_bytes(field@),
{
    let ghost before = out@;
    let bytes: &[u8] = field.as_bytes();
    let mut size: Vec<u8> = u64_to_le_bytes(bytes.len() as u64);
    out.append(&mut size);
    let mut i: usize = 0;
    while i < bytes.len()
        invariant
            i <= bytes@.len(),
            bytes@ == encode_utf8(field@),
            out@ == before + spec_u64_to_le_bytes(bytes@.len() as u64) + bytes@.take(i as int),
        decreases bytes@.len() - i,
    {
        out.push(bytes[i]);
        i = i + 1;
        assert(bytes@.take(i as int) =~= bytes@.take(i - 1).push(bytes@[i - 1]));
    }
    assert(bytes@.take(i as int) =~= bytes@);
    assert(out@ =~= before + field_bytes(field@));
}

/// What the fingerprint of a post is taken of.
///
/// Ids and timestamps are left out: they move without changing what is served.
/// `published` is in, because unpublishing changes what a reader gets. Each
/// field is preceded by its length, so that text sliding from one field to the
/// next cannot go unnoticed.
pub fn content_bytes(post: &post::Model, body: &str) -> (out: Vec<u8>)
    ensures
        out@ == content_of(post@, body@),
{
    let mut out: Vec<u8> = Vec::new();
    push_field(&mut out, post.title.as_str());
    match &post.excerpt {
        Some(e) => push_field(&mut out, e.as_str()),
        None => {
            let empty: String = String::new();
            push_field(&mut out, empty.as_str());
        },
    }
    match &post.tags {
        Some(t) => push_field(&mut out, t.as_str()),
        None => {
            let empty: String = String::new();
            push_field(&mut out, empty.as_str());
        },
    }
    push_field(
        &mut out,
        if post.published {
            "1"
        } else {
            "0"
        },
    );
    push_field(&mut out, body);
    assert(out@ =~= content_of(post@, body@));
    out
}

/// Everything a reader would notice, as one fingerprint.
pub fn content_hash(post: &post::Model, body: &str) -> (out: String)
    ensures
        out@ == fingerprint(post@, body@),
{
    hex_digest(content_bytes(post, body).as_slice())
}

// ─── The state ──────────────────────────────────────────────────────────────

/// There is something on this machine that the cloud has not accepted.
pub open spec fn has_local_change(sync: SyncRow) -> bool {
    sync.synced_hash != Some(sync.local_hash)
}

/// The cloud's copy is not the one that this machine has accounted for.
pub open spec fn has_remote_change(sync: SyncRow) -> bool {
    match (sync.remote_updated_at, sync.remote_seen_at) {
        (Some(baseline), Some(seen)) => baseline != seen,
        _ => false,
    }
}

/// The state that a post's stage and sync rows stand for.
pub open spec fn state_of(stage: Option<StageRow>, sync: Option<SyncRow>) -> SyncState {
    if stage matches Some(s) && s.stage == post_stage::SYNC_FAILED@ {
        SyncState::SyncFailed
    } else {
        match sync {
            Some(row) => match (has_local_change(row), has_remote_change(row)) {
                (true, true) => SyncState::Conflict,
                (true, false) => SyncState::Modified,
                (false, true) => SyncState::RemoteAhead,
                (false, false) => SyncState::Clean,
            },
            None => SyncState::Clean,
        }
    }
}

/// Is there something here that the cloud has not accepted?
pub fn local_changed(sync: &post_sync::Model) -> (r: bool)
    ensures
        r == has_local_change(sync@),
{
    match &sync.synced_hash {
        Some(h) => !same(h.as_str(), sync.local_hash.as_str()),
        None => true,
    }
}

/// Has the cloud's copy moved since this machine last accounted for it?
///
/// A first look has no baseline to compare with, and is not a change.
pub fn remote_changed(sync: &post_sync::Model) -> (r: bool)
    ensures
        r == has_remote_change(sync@),
{
    match (sync.remote_updated_at, sync.remote_seen_at) {
        (Some(baseline), Some(seen)) => baseline != seen,
        _ => false,
    }
}

/// What the optional stage row says.
pub open spec fn stage_row(stage: Option<&post_stage::Model>) -> Option<StageRow> {
    match stage {
        Some(s) => Some(s@),
        None => None,
    }
}

/// What the optional sync row says.
pub open spec fn sync_row(sync: Option<&post_sync::Model>) -> Option<SyncRow> {
    match sync {
        Some(s) => Some(s@),
        None => None,
    }
}

/// A post's sync state, read off its stage and sync rows.
///
/// A failed push outranks everything: it is the one state that needs action.
/// A post with no sync row reads clean, because every path that changes
/// content writes one.
pub fn derive(stage: Option<&post_stage::Model>, sync: Option<&post_sync::Model>) -> (r: SyncState)
    ensures
        r == state_of(stage_row(stage), sync_row(sync)),
{
    if let Some(s) = stage {
        if same(s.stage.as_str(), post_stage::SYNC_FAILED) {
            return SyncState::SyncFailed;
        }
    }
    match sync {
        Some(row) => {
            let here: bool = local_changed(row);
            let there: bool = remote_changed(row);
            if here && there {
                SyncState::Conflict
            } else if here {
                SyncState::Modified
            } else if there {
                SyncState::RemoteAhead
            } else {
                SyncState::Clean
            }
        },
        None => SyncState::Clean,
    }
}

// ─── Laws ───────────────────────────────────────────────────────────────────

/// What a reader would notice is the same in both.
pub open spec fn reads_the_same(
    a: PostRow,
    body_a: Seq<char>,
    b: PostRow,
    body_b: Seq<char>,
) -> bool {
    &&& a.title == b.title
    &&& or_empty(a.excerpt) == or_empty(b.excerpt)
    &&& or_empty(a.tags) == or_empty(b.tags)
    &&& a.published == b.published
    &&& body_a == body_b
}

/// The text's length in bytes can be written down in 64 bits.
pub open spec fn measurable(s: Seq<char>) -> bool {
    encode_utf8(s).len() <= u64::MAX
}

pub open spec fn content_measurable(post: PostRow, body: Seq<char>) -> bool {
    measurable(post.title) && measurable(or_empty(post.excerpt)) && measurable(or_empty(post.tags))
        && measurable(body)
}

/// A text is determined by its encoding.
proof fn lemma_encoding_injective(a: Seq<char>, b: Seq<char>)
    requires
        encode_utf8(a) == encode_utf8(b),
    ensures
        a == b,
{
    broadcast use vstd::utf8::encode_utf8_decode_utf8;

    assert(decode_utf8(encode_utf8(a)) == a);
    assert(decode_utf8(encode_utf8(b)) == b);
}

/// A length-prefixed field can be told from what follows it.
proof fn lemma_field_prefix(a: Seq<char>, rest_a: Seq<u8>, b: Seq<char>, rest_b: Seq<u8>)
    requires
        measurable(a),
        measurable(b),
        field_bytes(a) + rest_a == field_bytes(b) + rest_b,
    ensures
        a == b,
        rest_a == rest_b,
{
    vstd::bytes::lemma_auto_spec_u64_to_from_le_bytes();
    let (ea, eb) = (encode_utf8(a), encode_utf8(b));
    let (na, nb) = (ea.len() as u64, eb.len() as u64);
    let (x, y) = (field_bytes(a) + rest_a, field_bytes(b) + rest_b);
    assert(x.take(8) =~= spec_u64_to_le_bytes(na));
    assert(y.take(8) =~= spec_u64_to_le_bytes(nb));
    assert(na == nb);
    let n = ea.len() as int;
    assert(x.subrange(8, 8 + n) =~= ea);
    assert(y.subrange(8, 8 + n) =~= eb);
    lemma_encoding_injective(a, b);
    assert(x.skip(8 + n) =~= rest_a);
    assert(y.skip(8 + n) =~= rest_b);
}

/// The fingerprint is taken of equal bytes exactly when a reader would notice
/// no difference: nothing else enters it, nothing is left out of it, and text
/// sliding from one field into the next is a difference.
pub proof fn content_is_what_a_reader_notices(
    a: PostRow,
    body_a: Seq<char>,
    b: PostRow,
    body_b: Seq<char>,
)
    requires
        content_measurable(a, body_a),
        content_measurable(b, body_b),
    ensures
        content_of(a, body_a) == content_of(b, body_b) <==> reads_the_same(a, body_a, b, body_b),
{
    if content_of(a, body_a) == content_of(b, body_b) {
        let (e1, e2) = (field_bytes(or_empty(a.excerpt)), field_bytes(or_empty(b.excerpt)));
        let (g1, g2) = (field_bytes(or_empty(a.tags)), field_bytes(or_empty(b.tags)));
        let (f1, f2) = (
            field_bytes(flag_text(a.published)),
            field_bytes(flag_text(b.published)),
        );
        let (b1, b2) = (field_bytes(body_a), field_bytes(body_b));
        lemma_field_prefix(a.title, e1 + (g1 + (f1 + b1)), b.title, e2 + (g2 + (f2 + b2)));
        lemma_field_prefix(or_empty(a.excerpt), g1 + (f1 + b1), or_empty(b.excerpt), g2 + (f2 + b2));
        lemma_field_prefix(or_empty(a.tags), f1 + b1, or_empty(b.tags), f2 + b2);
        lemma_flags_measurable();
        lemma_field_prefix(flag_text(a.published), b1, flag_text(b.published), b2);
        assert(b1 + Seq::<u8>::empty() =~= b1);
        assert(b2 + Seq::<u8>::empty() =~= b2);
        lemma_field_prefix(body_a, Seq::<u8>::empty(), body_b, Seq::<u8>::empty());
    }
}

proof fn lemma_flags_measurable()
    ensures
        measurable("0"@),
        measurable("1"@),
        "0"@ != "1"@,
{
    reveal_strlit("0");
    reveal_strlit("1");
    vstd::utf8::is_ascii_chars_encode_utf8("0"@);
    vstd::utf8::is_ascii_chars_encode_utf8("1"@);
    assert("0"@[0] == '0');
    assert("1"@[0] == '1');
}

/// A save that changes nothing a reader would notice leaves the fingerprint as
/// it was, whatever it does to ids and timestamps.
pub proof fn unnoticed_changes_keep_the_fingerprint(a: PostRow, b: PostRow, body: Seq<char>)
    requires
        reads_the_same(a, body, b, body),
    ensures
        fingerprint(a, body) == fingerprint(b, body),
{
}

/// A failed push outranks the comparison of the two sides, whatever it says.
pub proof fn a_failed_push_outranks(stage: StageRow, sync: Option<SyncRow>)
    requires
        stage.stage == post_stage::SYNC_FAILED@,
    ensures
        state_of(Some(stage), sync) == SyncState::SyncFailed,
{
}

/// The state of a post whose last push did not fail, read off its record: it was
/// edited where the two fingerprints differ, the cloud moved where the version last
/// seen is not the one accounted for, and both together are a conflict. Neither the
/// stage nor anything else has a say.
pub proof fn the_state_is_read_off_the_record(stage: Option<StageRow>, row: SyncRow)
    requires
        stage matches Some(s) ==> s.stage != "sync_failed"@,
    ensures
        ({
            let edited_here = row.synced_hash != Some(row.local_hash);
            let moved_there = row.remote_updated_at is Some && row.remote_seen_at is Some
                && row.remote_updated_at != row.remote_seen_at;
            &&& state_of(stage, Some(row)) == SyncState::Conflict <==> edited_here && moved_there
            &&& state_of(stage, Some(row)) == SyncState::Modified <==> edited_here && !moved_there
            &&& state_of(stage, Some(row)) == SyncState::RemoteAhead <==> !edited_here
                && moved_there
            &&& state_of(stage, Some(row)) == SyncState::Clean <==> !edited_here && !moved_there
            &&& state_of(stage, None) == SyncState::Clean
        }),
{
}

/// What a reader would notice, in so many words.
pub proof fn what_a_reader_notices(a: PostRow, body_a: Seq<char>, b: PostRow, body_b: Seq<char>)
    ensures
        reads_the_same(a, body_a, b, body_b) ==> a.title == b.title && a.published == b.published
            && body_a == body_b,
        reads_the_same(a, body_a, b, body_b) && a.excerpt is Some && b.excerpt is Some
            ==> a.excerpt == b.excerpt,
        reads_the_same(a, body_a, b, body_b) && a.tags is Some && b.tags is Some ==> a.tags
            == b.tags,
        a.title == b.title && a.excerpt == b.excerpt && a.tags == b.tags && a.published
            == b.published && body_a == body_b ==> reads_the_same(a, body_a, b, body_b),
{
}

}
