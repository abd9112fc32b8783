//! A publication that has been asked for.

use crate::table::Row;
use crate::text::{copy_opt, opt_view, same};
use vstd::prelude::*;

verus! {

/// Asked for, and not carried out yet.
pub const PENDING: &'static str = "pending";

/// Claimed by a run that is carrying it out.
pub const PUBLISHING: &'static str = "publishing";

/// Carried out: the post is live.
pub const PUBLISHED: &'static str = "published";

/// Tried, and not carried out; `error` says why.
pub const FAILED: &'static str = "failed";

/// Called off before it came due.
pub const CANCELLED: &'static str = "cancelled";

/// How long a claim can sit in [`PUBLISHING`] before it is taken to be from a
/// run that died.
pub const STALE_CLAIM_SECONDS: i64 = 900;

/// A post's publication at a set time, keyed by slug. The cloud's row is the one
/// that is acted on; this machine keeps a mirror of it.
#[derive(Debug, PartialEq, Eq)]
pub struct Model {
    pub slug: String,
    /// When the post should go live (Unix seconds).
    pub publish_at: i64,
    /// One of the constants above.
    pub state: String,
    /// Why the last attempt failed, when it did.
    pub error: Option<String>,
    /// When this row last changed (Unix seconds).
    pub updated_at: i64,
}

/// What such a row says.
pub struct ScheduleRow {
    pub slug: Seq<char>,
    pub publish_at: i64,
    pub state: Seq<char>,
    pub error: Option<Seq<char>>,
    pub updated_at: i64,
}

impl View for Model {
    type V = ScheduleRow;

    open spec fn view(&self) -> ScheduleRow {
        ScheduleRow {
            slug: self.slug@,
            publish_at: self.publish_at,
            state: self.state@,
            error: opt_view(self.error),
            updated_at: self.updated_at,
        }
    }
}

impl Clone for Model {
    fn clone(&self) -> (r: Self)
        ensures
            r@ == self@,
    {
        Model {
            slug: self.slug.clone(),
            publish_at: self.publish_at,
            state: self.state.clone(),
            error: copy_opt(&self.error),
            updated_at: self.updated_at,
        }
    }
}

impl Row for Model {
    type Key = String;

    open spec fn key_of(row: ScheduleRow) -> Seq<char> {
        row.slug
    }

    fn has_key(&self, key: &String) -> (r: bool) {
        self.slug == *key
    }

    fn key(&self) -> (r: String) {
        self.slug.clone()
    }

    fn copy(&self) -> (r: Self) {
        self.clone()
    }
}

/// Whether a publication in this state is still going to happen.
pub open spec fn in_flight(state: Seq<char>) -> bool {
    state == PENDING@ || state == PUBLISHING@
}

/// How a schedule reads at time `now`.
pub open spec fn display_of(row: ScheduleRow, now: i64) -> Seq<char> {
    if row.state == PENDING@ {
        if row.publish_at <= now {
            "overdue"@
        } else {
            "scheduled"@
        }
    } else if row.state == PUBLISHING@ {
        if row.updated_at + STALE_CLAIM_SECONDS <= now {
            "overdue"@
        } else {
            "scheduled"@
        }
    } else if row.state == PUBLISHED@ {
        "published"@
    } else if row.state == FAILED@ {
        "failed"@
    } else if row.state == CANCELLED@ {
        "cancelled"@
    } else {
        "unknown"@
    }
}

impl Model {
    /// Is this publication still going to happen? A claim counts: the run that
    /// holds it is carrying the publication out.
    pub fn is_in_flight(&self) -> (r: bool)
        ensures
            r == in_flight(self.state@),
    {
        same(self.state.as_str(), PENDING) || same(self.state.as_str(), PUBLISHING)
    }

    /// How the schedule reads on screen. A row that is pending after its time,
    /// or a claim that has outlasted any run that could still be holding it,
    /// is `overdue`: nothing is running it.
    pub fn display_state(&self, now: i64) -> (r: &'static str)
        ensures
            r@ == display_of(self@, now),
    {
        let state: &str = self.state.as_str();
        if same(state, PENDING) {
            if self.publish_at <= now {
                "overdue"
            } else {
                "scheduled"
            }
        } else if same(state, PUBLISHING) {
            if self.updated_at as i128 + STALE_CLAIM_SECONDS as i128 <= now as i128 {
                "overdue"
            } else {
                "scheduled"
            }
        } else if same(state, PUBLISHED) {
            "published"
        } else if same(state, FAILED) {
            "failed"
        } else if same(state, CANCELLED) {
            "cancelled"
        } else {
            "unknown"
        }
    }
}

/// Overdue is a reading of the clock, and once a row reads so it reads so from
/// then on.
pub proof fn overdue_stays_overdue(row: ScheduleRow, now: i64, later: i64)
    requires
        now <= later,
        display_of(row, now) == "overdue"@,
    ensures
        display_of(row, later) == "overdue"@,
{
    reveal_strlit("overdue");
    reveal_strlit("scheduled");
    reveal_strlit("published");
    reveal_strlit("failed");
    reveal_strlit("cancelled");
    reveal_strlit("unknown");
}

/// How a schedule reads: one that waits is overdue from its time on, and one that was
/// claimed once the claim is older than any run could be; what is settled reads as it
/// is, whatever the time.
pub proof fn a_schedule_reads_by_the_clock(row: ScheduleRow, now: i64)
    ensures
        row.state == "pending"@ ==> (display_of(row, now) == "overdue"@ <==> row.publish_at
            <= now),
        row.state == "publishing"@ ==> (display_of(row, now) == "overdue"@ <==> row.updated_at
            + STALE_CLAIM_SECONDS <= now),
        (row.state == "pending"@ || row.state == "publishing"@) && display_of(row, now)
            != "overdue"@ ==> display_of(row, now) == "scheduled"@,
        row.state == "published"@ || row.state == "failed"@ || row.state == "cancelled"@
            ==> display_of(row, now) == row.state,
        in_flight(row.state) <==> row.state == "pending"@ || row.state == "publishing"@,
{
    reveal_strlit("overdue");
    reveal_strlit("scheduled");
    reveal_strlit("pending");
    reveal_strlit("publishing");
    reveal_strlit("published");
    reveal_strlit("failed");
    reveal_strlit("cancelled");
    assert("overdue"@.len() == 7 && "scheduled"@.len() == 9);
    assert("pending"@.len() == 7 && "publishing"@.len() == 10 && "published"@.len() == 9);
    assert("failed"@.len() == 6 && "cancelled"@.len() == 9);
    assert("published"@[0] == 'p' && "cancelled"@[0] == 'c');
}

}
