//! The approval of publications that an MCP client asks for.
//!
//! A client may ask for a post to go live, and nothing is uploaded until somebody
//! approves that in the app: a request is only a record of intent. Requests are
//! kept in memory alone. One that nobody approved should not outlive the session
//! in which somebody was looking at it.

use crate::calendar::now_ts;
use crate::error::{AppError, AppResult};
use crate::ids::{is_simple_id, new_simple_id};
use crate::table::{
    in_order, lemma_rearranged_lists, lists, rows_view, selected, sort, Order, Row, Table,
};
use crate::text::{
    comes_before, copy_opt, is_before, is_blank, lemma_order_total, lemma_order_transitive,
    opt_view, same, trimmed,
};
use vstd::prelude::*;

verus! {

/// Where a request stands. A request that was rejected, or that was carried out or
/// failed, stays as it is.
#[derive(Debug, Clone, Copy, PartialEq, Eq, Structural)]
pub enum PublishState {
    /// Waiting for somebody to approve or reject it.
    AwaitingApproval,
    /// Approved, and being carried out.
    Publishing,
    /// Declined. The post stays as it was.
    Rejected,
    /// Approved, and carried out.
    Published,
    /// Approved, but it could not be carried out.
    Failed,
}

impl PublishState {
    /// The state's name, as a message gives it.
    pub open spec fn name_of(self) -> Seq<char> {
        match self {
            PublishState::AwaitingApproval => "AwaitingApproval"@,
            PublishState::Publishing => "Publishing"@,
            PublishState::Rejected => "Rejected"@,
            PublishState::Published => "Published"@,
            PublishState::Failed => "Failed"@,
        }
    }

    /// The state's name, as a message gives it.
    pub fn name(&self) -> (r: &'static str)
        ensures
            r@ == self.name_of(),
    {
        match self {
            PublishState::AwaitingApproval => "AwaitingApproval",
            PublishState::Publishing => "Publishing",
            PublishState::Rejected => "Rejected",
            PublishState::Published => "Published",
            PublishState::Failed => "Failed",
        }
    }

    /// The state's name, as clients read it.
    pub open spec fn wire_name_of(self) -> Seq<char> {
        match self {
            PublishState::AwaitingApproval => "awaiting_approval"@,
            PublishState::Publishing => "publishing"@,
            PublishState::Rejected => "rejected"@,
            PublishState::Published => "published"@,
            PublishState::Failed => "failed"@,
        }
    }

    /// The state's name, as clients read it.
    pub fn wire_name(&self) -> (r: &'static str)
        ensures
            r@ == self.wire_name_of(),
    {
        match self {
            PublishState::AwaitingApproval => "awaiting_approval",
            PublishState::Publishing => "publishing",
            PublishState::Rejected => "rejected",
            PublishState::Published => "published",
            PublishState::Failed => "failed",
        }
    }
}

/// One request to publish a post.
#[derive(Debug, PartialEq, Eq)]
pub struct PublishRequest {
    /// What the client asks after it by.
    pub id: String,
    pub post_id: i32,
    /// As the post was when the request was made.
    pub slug: String,
    /// As the post was when the request was made.
    pub title: String,
    /// Why the client asks for it.
    pub reason: Option<String>,
    pub requested_at: i64,
    pub state: PublishState,
    /// Why it could not be carried out.
    pub error: Option<String>,
}

/// What a [`PublishRequest`] says.
pub struct RequestRow {
    pub id: Seq<char>,
    pub post_id: i32,
    pub slug: Seq<char>,
    pub title: Seq<char>,
    pub reason: Option<Seq<char>>,
    pub requested_at: i64,
    pub state: PublishState,
    pub error: Option<Seq<char>>,
}

impl View for PublishRequest {
    type V = RequestRow;

    open spec fn view(&self) -> RequestRow {
        RequestRow {
            id: self.id@,
            post_id: self.post_id,
            slug: self.slug@,
            title: self.title@,
            reason: opt_view(self.reason),
            requested_at: self.requested_at,
            state: self.state,
            error: opt_view(self.error),
        }
    }
}

impl Clone for PublishRequest {
    fn clone(&self) -> (r: Self)
        ensures
            r@ == self@,
    {
        PublishRequest {
            id: self.id.clone(),
            post_id: self.post_id,
            slug: self.slug.clone(),
            title: self.title.clone(),
            reason: copy_opt(&self.reason),
            requested_at: self.requested_at,
            state: self.state,
            error: copy_opt(&self.error),
        }
    }
}

impl Row for PublishRequest {
    type Key = String;

    open spec fn key_of(row: RequestRow) -> Seq<char> {
        row.id
    }

    fn has_key(&self, key: &String) -> (r: bool) {
        same(self.id.as_str(), key.as_str())
    }

    fn key(&self) -> (r: String) {
        self.id.clone()
    }

    fn copy(&self) -> (r: Self) {
        self.clone()
    }
}

/// The requests of this session, by their ids.
pub struct Queue {
    pub requests: Table<PublishRequest>,
}

impl View for Queue {
    type V = Map<Seq<char>, RequestRow>;

    open spec fn view(&self) -> Map<Seq<char>, RequestRow> {
        self.requests@
    }
}

impl Queue {
    /// The requests are filed under their own ids.
    pub open spec fn wf(&self) -> bool {
        self.requests.wf()
    }

    /// No request.
    pub fn new() -> (q: Queue)
        ensures
            q.wf(),
            q@ == Map::<Seq<char>, RequestRow>::empty(),
    {
        Queue { requests: Table::new() }
    }
}

/// A reason that is not blank.
pub open spec fn reason_given(reason: Option<Seq<char>>) -> Option<Seq<char>> {
    match reason {
        Some(r) => if trimmed(r).len() == 0 {
            None
        } else {
            Some(r)
        },
        None => None,
    }
}

/// A request as it is made.
pub open spec fn new_request(
    id: Seq<char>,
    at: i64,
    post_id: i32,
    slug: Seq<char>,
    title: Seq<char>,
    reason: Option<Seq<char>>,
) -> RequestRow {
    RequestRow {
        id,
        post_id,
        slug,
        title,
        reason: reason_given(reason),
        requested_at: at,
        state: PublishState::AwaitingApproval,
        error: None,
    }
}

/// Records a request under this id, made at this time.
pub fn enqueue_as(
    queue: &mut Queue,
    id: String,
    at: i64,
    post_id: i32,
    slug: String,
    title: String,
    reason: Option<String>,
) -> (r: PublishRequest)
    requires
        old(queue).wf(),
    ensures
        final(queue).wf(),
        r@ == new_request(id@, at, post_id, slug@, title@, opt_view(reason)),
        final(queue)@ == old(queue)@.insert(id@, r@),
{
    let reason: Option<String> = match reason {
        Some(r) => if is_blank(r.as_str()) {
            None
        } else {
            Some(r)
        },
        None => None,
    };
    let request = PublishRequest {
        id,
        post_id,
        slug,
        title,
        reason,
        requested_at: at,
        state: PublishState::AwaitingApproval,
        error: None,
    };
    queue.requests.put(request.clone());
    request
}

/// Records a request under a new id, made now. Which id that is is chance, and
/// what the time is is the machine's to say.
pub fn enqueue(
    queue: &mut Queue,
    post_id: i32,
    slug: String,
    title: String,
    reason: Option<String>,
) -> (r: PublishRequest)
    requires
        old(queue).wf(),
    ensures
        final(queue).wf(),
        is_simple_id(r.id@),
        r@ == new_request(
            r.id@,
            r.requested_at,
            post_id,
            slug@,
            title@,
            opt_view(reason),
        ),
        final(queue)@ == old(queue)@.insert(r.id@, r@),
{
    enqueue_as(queue, new_simple_id(), now_ts(), post_id, slug, title, reason)
}

/// The request with this id.
pub fn get(queue: &Queue, id: &str) -> (r: Option<PublishRequest>)
    requires
        queue.wf(),
    ensures
        match r {
            Some(q) => queue@.contains_key(id@) && q@ == queue@[id@],
            None => !queue@.contains_key(id@),
        },
{
    let key: String = id.to_owned();
    match queue.requests.get(&key) {
        Some(q) => Some(q.clone()),
        None => None,
    }
}

/// The newest requests first; of those made in one second, by id.
pub struct NewestRequests;

impl Order<PublishRequest> for NewestRequests {
    open spec fn before(a: RequestRow, b: RequestRow) -> bool {
        a.requested_at > b.requested_at || (a.requested_at == b.requested_at && comes_before(
            b.id,
            a.id,
        ))
    }

    fn is_before(a: &PublishRequest, b: &PublishRequest) -> (r: bool) {
        a.requested_at > b.requested_at || (a.requested_at == b.requested_at && is_before(
            b.id.as_str(),
            a.id.as_str(),
        ))
    }

    proof fn lemma_order(a: RequestRow, b: RequestRow, c: RequestRow) {
        lemma_order_total(a.id, b.id);
        lemma_order_total(b.id, c.id);
        lemma_order_total(a.id, c.id);
        if comes_before(c.id, b.id) && comes_before(b.id, a.id) {
            lemma_order_transitive(c.id, b.id, a.id);
        }
    }
}

/// Every request of this session, newest first.
pub fn list(queue: &Queue) -> (out: Vec<PublishRequest>)
    requires
        queue.wf(),
    ensures
        lists::<PublishRequest>(rows_view(out@), queue@),
        in_order::<PublishRequest, NewestRequests>(rows_view(out@)),
{
    let ghost p = |r: RequestRow| true;
    let any = |r: &PublishRequest| -> (b: bool)
        ensures
            b,
    {
        true
    };
    let found: Vec<PublishRequest> = queue.requests.select(any, Ghost(p));
    let out: Vec<PublishRequest> = sort::<PublishRequest, NewestRequests>(found);
    proof {
        assert(selected::<PublishRequest>(queue@, p) =~= queue@);
        lemma_rearranged_lists::<PublishRequest>(
            rows_view(found@),
            rows_view(out@),
            queue@,
        );
    }
    out
}

/// The request is for this post and waits for somebody.
pub open spec fn awaits(r: RequestRow, post_id: i32) -> bool {
    r.post_id == post_id && r.state == PublishState::AwaitingApproval
}

/// The request is for this post and is not settled.
pub open spec fn is_open(r: RequestRow, post_id: i32) -> bool {
    r.post_id == post_id && (r.state == PublishState::AwaitingApproval || r.state
        == PublishState::Publishing)
}

fn find_for_post(queue: &Queue, post_id: i32, running: bool) -> (r: Option<PublishRequest>)
    requires
        queue.wf(),
    ensures
        match r {
            Some(q) => {
                &&& queue@.contains_key(q.id@)
                &&& queue@[q.id@] == q@
                &&& awaits(q@, post_id) || (running && is_open(q@, post_id))
            },
            None => forall|id: Seq<char>| #[trigger]
                queue@.contains_key(id) ==> !awaits(queue@[id], post_id) && !(running && is_open(
                    queue@[id],
                    post_id,
                )),
        },
{
    let ghost listed = queue.requests.listed();
    let mut i: usize = 0;
    while i < queue.requests.len()
        invariant
            i <= listed.len(),
            listed == queue.requests.listed(),
            queue.wf(),
            forall|j: int|
                0 <= j < i ==> !awaits(#[trigger] listed[j], post_id) && !(running && is_open(
                    listed[j],
                    post_id,
                )),
        decreases listed.len() - i,
    {
        let q: &PublishRequest = queue.requests.row(i);
        if q.post_id == post_id && (q.state == PublishState::AwaitingApproval || (running
            && q.state == PublishState::Publishing)) {
            proof {
                queue.requests.lemma_listed();
                assert(listed.contains(q@));
            }
            return Some(q.clone());
        }
        i = i + 1;
    }
    proof {
        queue.requests.lemma_listed();
        assert forall|id: Seq<char>| #[trigger] queue@.contains_key(id) implies !awaits(
            queue@[id],
            post_id,
        ) && !(running && is_open(queue@[id], post_id)) by {
            assert(listed.contains(queue@[id]));
            let j = choose|j: int| 0 <= j < listed.len() && listed[j] == queue@[id];
            assert(!awaits(listed[j], post_id));
        }
    }
    None
}

/// A request for this post that waits for somebody, if there is one.
pub fn awaiting_for_post(queue: &Queue, post_id: i32) -> (r: Option<PublishRequest>)
    requires
        queue.wf(),
    ensures
        match r {
            Some(q) => queue@.contains_key(q.id@) && queue@[q.id@] == q@ && awaits(q@, post_id),
            None => forall|id: Seq<char>| #[trigger]
                queue@.contains_key(id) ==> !awaits(queue@[id], post_id),
        },
{
    find_for_post(queue, post_id, false)
}

/// A request for this post that is not settled, if there is one. A client that asks
/// again is handed this one, and does not bury the list.
pub fn open_for_post(queue: &Queue, post_id: i32) -> (r: Option<PublishRequest>)
    requires
        queue.wf(),
    ensures
        match r {
            Some(q) => queue@.contains_key(q.id@) && queue@[q.id@] == q@ && is_open(q@, post_id),
            None => forall|id: Seq<char>| #[trigger]
                queue@.contains_key(id) ==> !is_open(queue@[id], post_id),
        },
{
    find_for_post(queue, post_id, true)
}

/// The request waits for somebody.
pub open spec fn claimable(queue: Map<Seq<char>, RequestRow>, id: Seq<char>) -> bool {
    queue.contains_key(id) && queue[id].state == PublishState::AwaitingApproval
}

/// `e` says why the request cannot be approved or rejected.
pub open spec fn not_claimable(
    queue: Map<Seq<char>, RequestRow>,
    id: Seq<char>,
    e: AppError,
) -> bool {
    if queue.contains_key(id) {
        &&& queue[id].state != PublishState::AwaitingApproval
        &&& e matches AppError::PublishRequestNotPending { id: i, state } && i@ == id && state
            == queue[id].state
    } else {
        e matches AppError::NoPublishRequest(i) && i@ == id
    }
}

/// A request that waits for somebody, as it stands. Nothing is marked yet.
pub fn take_approved(queue: &Queue, id: &str) -> (r: AppResult<PublishRequest>)
    requires
        queue.wf(),
    ensures
        match r {
            Ok(q) => claimable(queue@, id@) && q@ == queue@[id@],
            Err(e) => not_claimable(queue@, id@, e),
        },
{
    match get(queue, id) {
        Some(q) => if q.state == PublishState::AwaitingApproval {
            Ok(q)
        } else {
            Err(AppError::PublishRequestNotPending { id: id.to_owned(), state: q.state })
        },
        None => Err(AppError::NoPublishRequest(id.to_owned())),
    }
}

/// A request that is moved on.
pub open spec fn moved_to(
    queue: Map<Seq<char>, RequestRow>,
    id: Seq<char>,
    state: PublishState,
) -> Map<Seq<char>, RequestRow> {
    queue.insert(id, RequestRow { state, ..queue[id] })
}

/// Claims a request that waits for somebody, and marks it as being carried out: a
/// second approval finds it gone, so two clicks do not publish twice.
pub fn claim_for_publish(queue: &mut Queue, id: &str) -> (r: AppResult<PublishRequest>)
    requires
        old(queue).wf(),
    ensures
        final(queue).wf(),
        match r {
            Ok(q) => {
                &&& claimable(old(queue)@, id@)
                &&& final(queue)@ == moved_to(old(queue)@, id@, PublishState::Publishing)
                &&& q@ == final(queue)@[id@]
            },
            Err(e) => not_claimable(old(queue)@, id@, e) && final(queue)@ == old(queue)@,
        },
{
    match take_approved(queue, id) {
        Ok(q) => {
            proof {
                queue.requests.lemma_listed();
            }
            let mut claimed: PublishRequest = q;
            claimed.state = PublishState::Publishing;
            queue.requests.put(claimed.clone());
            Ok(claimed)
        },
        Err(e) => Err(e),
    }
}

/// Rejects a request that waits for somebody.
pub fn reject(queue: &mut Queue, id: &str) -> (r: AppResult<PublishRequest>)
    requires
        old(queue).wf(),
    ensures
        final(queue).wf(),
        match r {
            Ok(q) => {
                &&& claimable(old(queue)@, id@)
                &&& final(queue)@ == moved_to(old(queue)@, id@, PublishState::Rejected)
                &&& q@ == final(queue)@[id@]
            },
            Err(e) => not_claimable(old(queue)@, id@, e) && final(queue)@ == old(queue)@,
        },
{
    match take_approved(queue, id) {
        Ok(q) => {
            proof {
                queue.requests.lemma_listed();
            }
            let mut rejected: PublishRequest = q;
            rejected.state = PublishState::Rejected;
            queue.requests.put(rejected.clone());
            Ok(rejected)
        },
        Err(e) => Err(e),
    }
}

/// The state is one that nothing follows.
pub open spec fn is_final(state: PublishState) -> bool {
    state == PublishState::Rejected || state == PublishState::Published || state
        == PublishState::Failed
}

/// A request as it is settled. One that was decided is left alone.
pub open spec fn settled(r: RequestRow, failure: Option<Seq<char>>) -> RequestRow {
    if is_final(r.state) {
        r
    } else {
        RequestRow {
            state: if failure is Some {
                PublishState::Failed
            } else {
                PublishState::Published
            },
            error: failure,
            ..r
        }
    }
}

/// What went wrong, if anything did.
pub open spec fn failure_of(outcome: Result<(), String>) -> Option<Seq<char>> {
    match outcome {
        Ok(_) => None,
        Err(e) => Some(e@),
    }
}

/// Records how an approved request turned out. One that was decided comes back as it
/// stands.
pub fn settle(queue: &mut Queue, id: &str, outcome: Result<(), String>) -> (r: Option<
    PublishRequest,
>)
    requires
        old(queue).wf(),
    ensures
        final(queue).wf(),
        match r {
            Some(q) => {
                &&& old(queue)@.contains_key(id@)
                &&& q@ == settled(old(queue)@[id@], failure_of(outcome))
                &&& final(queue)@ == old(queue)@.insert(id@, q@)
                &&& is_final(old(queue)@[id@].state) ==> final(queue)@ == old(queue)@
            },
            None => !old(queue)@.contains_key(id@) && final(queue)@ == old(queue)@,
        },
{
    match get(queue, id) {
        Some(q) => {
            proof {
                queue.requests.lemma_listed();
            }
            if q.state != PublishState::AwaitingApproval && q.state != PublishState::Publishing {
                assert(queue@ =~= queue@.insert(id@, q@));
                return Some(q);
            }
            let mut done: PublishRequest = q;
            match outcome {
                Ok(_) => {
                    done.state = PublishState::Published;
                    done.error = None;
                },
                Err(e) => {
                    done.state = PublishState::Failed;
                    done.error = Some(e);
                },
            }
            queue.requests.put(done.clone());
            Some(done)
        },
        None => None,
    }
}

// ─── Laws ───────────────────────────────────────────────────────────────────

/// A request is decided once: claimed, rejected or settled, it can be neither
/// claimed nor rejected again, and rejected or settled, it cannot be settled
/// otherwise.
pub proof fn a_request_is_decided_once(
    queue: Map<Seq<char>, RequestRow>,
    id: Seq<char>,
    failure: Option<Seq<char>>,
    later: Option<Seq<char>>,
)
    requires
        claimable(queue, id),
    ensures
        !claimable(moved_to(queue, id, PublishState::Publishing), id),
        !claimable(moved_to(queue, id, PublishState::Rejected), id),
        !claimable(queue.insert(id, settled(queue[id], failure)), id),
        ({
            let rejected = moved_to(queue, id, PublishState::Rejected)[id];
            settled(rejected, later) == rejected
        }),
        ({
            let done = settled(queue[id], failure);
            settled(done, later) == done
        }),
{
}

/// A decision is final: once a request is rejected, published or failed, it can be
/// neither claimed nor rejected, settling it changes nothing, and a request that is
/// made or moved on under another id leaves it as it is.
pub proof fn a_decision_is_final(
    queue: Map<Seq<char>, RequestRow>,
    id: Seq<char>,
    failure: Option<Seq<char>>,
    other: Seq<char>,
    row: RequestRow,
)
    requires
        queue.contains_key(id),
        is_final(queue[id].state),
    ensures
        !claimable(queue, id),
        settled(queue[id], failure) == queue[id],
        queue.insert(id, settled(queue[id], failure)) == queue,
        other != id ==> queue.insert(other, row).contains_key(id) && queue.insert(
            other,
            row,
        )[id] == queue[id],
{
    assert(queue.insert(id, queue[id]) =~= queue);
}

/// A rejection records no error, and a failure keeps its reason.
pub proof fn a_failure_keeps_its_reason(
    queue: Map<Seq<char>, RequestRow>,
    id: Seq<char>,
    why: Seq<char>,
)
    requires
        claimable(queue, id),
        queue[id].error is None,
    ensures
        moved_to(queue, id, PublishState::Rejected)[id].error is None,
        settled(queue[id], Some(why)).state == PublishState::Failed,
        settled(queue[id], Some(why)).error == Some(why),
        settled(queue[id], None).state == PublishState::Published,
        settled(queue[id], None).error is None,
{
}

/// What happens to one request leaves the others as they are.
pub proof fn requests_do_not_touch_each_other(
    queue: Map<Seq<char>, RequestRow>,
    id: Seq<char>,
    other: Seq<char>,
    state: PublishState,
    failure: Option<Seq<char>>,
)
    requires
        id != other,
        queue.contains_key(other),
    ensures
        moved_to(queue, id, state).contains_key(other),
        moved_to(queue, id, state)[other] == queue[other],
        queue.insert(id, settled(queue[id], failure))[other] == queue[other],
{
}

/// A request holds what was asked for, waits for somebody, and has no error; a reason
/// is kept as it was given unless it is blank.
pub proof fn a_request_holds_what_was_asked(
    id: Seq<char>,
    at: i64,
    post_id: i32,
    slug: Seq<char>,
    title: Seq<char>,
    reason: Option<Seq<char>>,
)
    ensures
        ({
            let r = new_request(id, at, post_id, slug, title, reason);
            &&& r.id == id
            &&& r.post_id == post_id
            &&& r.slug == slug
            &&& r.title == title
            &&& r.requested_at == at
            &&& r.state == PublishState::AwaitingApproval
            &&& r.error is None
            &&& reason matches Some(why) ==> if trimmed(why).len() > 0 {
                r.reason == Some(why)
            } else {
                r.reason is None
            }
            &&& reason is None ==> r.reason is None
        }),
{
}

/// Moving a request on changes its state and nothing else of it; settling one that is
/// open records the outcome and nothing else.
pub proof fn a_request_keeps_what_was_asked(
    queue: Map<Seq<char>, RequestRow>,
    id: Seq<char>,
    state: PublishState,
    failure: Option<Seq<char>>,
)
    requires
        queue.contains_key(id),
    ensures
        ({
            let moved = moved_to(queue, id, state)[id];
            &&& moved.state == state
            &&& moved.id == queue[id].id
            &&& moved.post_id == queue[id].post_id
            &&& moved.slug == queue[id].slug
            &&& moved.title == queue[id].title
            &&& moved.reason == queue[id].reason
            &&& moved.requested_at == queue[id].requested_at
            &&& moved.error == queue[id].error
        }),
        ({
            let done = settled(queue[id], failure);
            &&& done.id == queue[id].id
            &&& done.post_id == queue[id].post_id
            &&& done.slug == queue[id].slug
            &&& done.title == queue[id].title
            &&& done.reason == queue[id].reason
            &&& done.requested_at == queue[id].requested_at
            &&& queue[id].state == PublishState::Publishing || queue[id].state
                == PublishState::AwaitingApproval ==> done.error == failure && (failure is None
                ==> done.state == PublishState::Published) && (failure is Some ==> done.state
                == PublishState::Failed)
        }),
{
}

/// A request can be decided just while it waits for somebody, and is open until it is
/// settled or declined.
pub proof fn when_a_request_is_open(
    queue: Map<Seq<char>, RequestRow>,
    id: Seq<char>,
    r: RequestRow,
    post_id: i32,
)
    ensures
        claimable(queue, id) <==> queue.contains_key(id) && queue[id].state
            == PublishState::AwaitingApproval,
        awaits(r, post_id) <==> r.post_id == post_id && r.state == PublishState::AwaitingApproval,
        is_open(r, post_id) <==> r.post_id == post_id && r.state != PublishState::Rejected
            && r.state != PublishState::Published && r.state != PublishState::Failed,
{
}

/// Why a request cannot be decided: there is none, or it does not wait any more, and
/// then the refusal says where it stands.
pub proof fn why_a_request_cannot_be_decided(
    queue: Map<Seq<char>, RequestRow>,
    id: Seq<char>,
    e: AppError,
)
    requires
        not_claimable(queue, id, e),
    ensures
        !queue.contains_key(id) || queue[id].state != PublishState::AwaitingApproval,
        !queue.contains_key(id) <==> e is NoPublishRequest,
        queue.contains_key(id) ==> (e matches AppError::PublishRequestNotPending { id: i, state }
            && i@ == id && state == queue[id].state),
{
}

/// Requests are listed with the newest first, and what went wrong is kept as it was
/// told.
pub proof fn requests_come_newest_first(rows: Seq<RequestRow>, i: int, j: int, why: String)
    requires
        in_order::<PublishRequest, NewestRequests>(rows),
        0 <= i < j < rows.len(),
    ensures
        rows[i].requested_at >= rows[j].requested_at,
        failure_of(Err(why)) == Some(why@),
        failure_of(Ok(())) is None,
{
    assert(!NewestRequests::before(rows[j], rows[i]));
}

}
