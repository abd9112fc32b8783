//! Usage figures, read from Cloudflare's GraphQL analytics.
//!
//! A rejected query is answered with a success status and a list of errors, so
//! every answer is inspected. A token without the permission to read analytics
//! is good for everything else, so that failure has a kind of its own.

use crate::text::{contains, has_text, join, joined, lower, opt_view, plus, same, to_lower, views};
use vstd::prelude::*;

verus! {

/// Where figures are asked for.
pub const GRAPHQL_URL: &'static str = "https://api.cloudflare.com/client/v4/graphql";

/// Both figures in one round trip, by day.
pub const QUERY: &'static str = "query BasicUsage($accountTag: string!, $start: Date!, $end: Date!, $bucket: string!, $database: string!) { viewer { accounts(filter: { accountTag: $accountTag }) { r2OperationsAdaptiveGroups(limit: 10000, filter: { date_geq: $start, date_leq: $end, bucketName: $bucket }, orderBy: [date_ASC]) { sum { requests } dimensions { date } } d1AnalyticsAdaptiveGroups(limit: 10000, filter: { date_geq: $start, date_leq: $end, databaseId: $database }, orderBy: [date_ASC]) { sum { readQueries writeQueries } dimensions { date } } } } }";

/// One day of usage. A day without activity is there, with zeroes.
#[derive(Debug, PartialEq, Eq)]
pub struct DailyUsage {
    /// `YYYY-MM-DD`.
    pub date: String,
    pub r2_requests: u64,
    pub d1_queries: u64,
}

/// Usage over a run of days.
#[derive(Debug, PartialEq, Eq)]
pub struct Analytics {
    pub days: Vec<DailyUsage>,
    pub r2_total: u64,
    pub d1_total: u64,
}

/// Why analytics could not be read.
#[derive(Clone, Copy, Debug, PartialEq, Eq, Structural)]
pub enum ErrorKind {
    /// The token lacks the permission to read analytics.
    Permission,
    /// Not signed in, or nothing chosen to read.
    NotConfigured,
    /// The request never completed.
    Network,
    /// The answer was not usable data.
    Query,
    /// This machine's own tables could not be read.
    Local,
}

/// Why analytics could not be read: the kind to act on, and a message to show.
#[derive(Debug, PartialEq, Eq)]
pub struct AnalyticsError {
    pub kind: ErrorKind,
    pub message: String,
}

impl AnalyticsError {
    /// An error of this kind.
    pub fn new(kind: ErrorKind, message: &str) -> (r: Self)
        ensures
            r.is_error(kind, message@),
    {
        AnalyticsError { kind, message: message.to_owned() }
    }

    /// The error is of this kind and says this.
    pub open spec fn is_error(self, kind: ErrorKind, message: Seq<char>) -> bool {
        self.kind == kind && self.message@ == message
    }
}

// ─── Reading the answer ─────────────────────────────────────────────────────

/// The fragments by which a refusal for want of permission is recognised.
pub open spec fn permission_fragments() -> Seq<Seq<char>> {
    seq![
        "not authorized"@,
        "unauthorized"@,
        "permission"@,
        "forbidden"@,
        "access denied"@,
        "not entitled"@,
        "authentication error"@,
    ]
}

/// A message that says that the token is not allowed to read this.
pub open spec fn names_permission(message: Seq<char>) -> bool {
    exists|i: int|
        0 <= i < permission_fragments().len() && has_text(
            lower(message),
            #[trigger] permission_fragments()[i],
        )
}

/// Whether an error says that the token is not allowed to read this, rather
/// than that the query is wrong. It is phrased in several ways, so it is
/// recognised by fragments.
pub fn is_permission_error(message: &str) -> (r: bool)
    ensures
        r == names_permission(message@),
{
    let small: String = to_lower(message);
    let m: &str = small.as_str();
    let f0: bool = contains(m, "not authorized");
    let f1: bool = contains(m, "unauthorized");
    let f2: bool = contains(m, "permission");
    let f3: bool = contains(m, "forbidden");
    let f4: bool = contains(m, "access denied");
    let f5: bool = contains(m, "not entitled");
    let f6: bool = contains(m, "authentication error");
    proof {
        let p = permission_fragments();
        assert(p[0] == "not authorized"@);
        assert(p[1] == "unauthorized"@);
        assert(p[2] == "permission"@);
        assert(p[3] == "forbidden"@);
        assert(p[4] == "access denied"@);
        assert(p[5] == "not entitled"@);
        assert(p[6] == "authentication error"@);
    }
    f0 || f1 || f2 || f3 || f4 || f5 || f6
}

/// The status says that the token was refused.
pub open spec fn refuses_token(status: u16) -> bool {
    status == 401 || status == 403
}

/// The status says success.
pub open spec fn is_success(status: u16) -> bool {
    200 <= status < 300
}

/// What a status reads as in a message, such as `500 Internal Server Error`.
pub struct Status {
    pub code: u16,
    pub text: String,
}

/// What is wrong with an answer, if anything is: the kind, and the message.
pub open spec fn answer_fault(
    status: Status,
    errors: Seq<Seq<char>>,
    has_account: bool,
    refused: Seq<char>,
) -> Option<(ErrorKind, Seq<char>)> {
    let told = joined(errors, "; "@);
    if errors.len() > 0 {
        if refuses_token(status.code) || names_permission(told) {
            Some((ErrorKind::Permission, told))
        } else {
            Some((ErrorKind::Query, told))
        }
    } else if refuses_token(status.code) {
        Some((ErrorKind::Permission, refused))
    } else if !is_success(status.code) {
        Some((ErrorKind::Query, "Cloudflare returned "@ + status.text@))
    } else if !has_account {
        Some((ErrorKind::Query, "Cloudflare returned no account data"@))
    } else {
        None
    }
}

/// The account's part of an answer, where the answer is usable.
///
/// `errors` are the messages that came with it, `account` the first account in
/// it, and `refused` what to say where the status alone refuses the token.
pub fn read_answer<T>(
    status: &Status,
    errors: &Vec<String>,
    account: Option<T>,
    refused: &str,
) -> (r: Result<T, AnalyticsError>)
    ensures
        match r {
            Ok(a) => {
                &&& answer_fault(*status, views(errors@), account is Some, refused@) is None
                &&& account == Some(a)
            },
            Err(e) => answer_fault(*status, views(errors@), account is Some, refused@) == Some(
                (e.kind, e.message@),
            ),
        },
{
    if errors.len() > 0 {
        let told: String = join(errors, "; ");
        let kind: ErrorKind = if status.code == 401 || status.code == 403 || is_permission_error(
            told.as_str(),
        ) {
            ErrorKind::Permission
        } else {
            ErrorKind::Query
        };
        return Err(AnalyticsError { kind, message: told });
    }
    if status.code == 401 || status.code == 403 {
        return Err(AnalyticsError::new(ErrorKind::Permission, refused));
    }
    if !(200 <= status.code && status.code < 300) {
        return Err(
            AnalyticsError {
                kind: ErrorKind::Query,
                message: plus("Cloudflare returned ", status.text.as_str()),
            },
        );
    }
    match account {
        Some(a) => Ok(a),
        None => Err(AnalyticsError::new(ErrorKind::Query, "Cloudflare returned no account data")),
    }
}

// ─── Folding the figures onto days ──────────────────────────────────────────

/// The figures of one group.
pub struct GroupSum {
    pub requests: Option<u64>,
    pub read_queries: Option<u64>,
    pub write_queries: Option<u64>,
}

/// The day that a group is of.
pub struct Dimensions {
    pub date: Option<String>,
}

/// The figures of one day, as far as they are given.
pub struct Group {
    pub sum: Option<GroupSum>,
    pub dimensions: Option<Dimensions>,
}

/// The figures of an account.
pub struct Account {
    pub r2: Vec<Group>,
    pub d1: Vec<Group>,
}

pub open spec fn or_zero(n: Option<u64>) -> nat {
    match n {
        Some(v) => v as nat,
        None => 0,
    }
}

pub open spec fn date_of(g: Group) -> Option<Seq<char>> {
    match g.dimensions {
        Some(d) => opt_view(d.date),
        None => None,
    }
}

/// The requests of a group.
pub open spec fn r2_amount(g: Group) -> nat {
    match g.sum {
        Some(s) => or_zero(s.requests),
        None => 0,
    }
}

/// The queries of a group: reads and writes together.
pub open spec fn d1_amount(g: Group) -> nat {
    match g.sum {
        Some(s) => or_zero(s.read_queries) + or_zero(s.write_queries),
        None => 0,
    }
}

/// What the groups of this date amount to.
pub open spec fn tally(groups: Seq<Group>, date: Seq<char>, d1: bool) -> nat
    decreases groups.len(),
{
    if groups.len() == 0 {
        0
    } else {
        let before = tally(groups.drop_last(), date, d1);
        let g = groups.last();
        if date_of(g) == Some(date) {
            before + if d1 { d1_amount(g) } else { r2_amount(g) }
        } else {
            before
        }
    }
}

/// What all groups amount to, whatever their date.
pub open spec fn grand_total(groups: Seq<Group>, d1: bool) -> nat
    decreases groups.len(),
{
    if groups.len() == 0 {
        0
    } else {
        grand_total(groups.drop_last(), d1) + if d1 {
            d1_amount(groups.last())
        } else {
            r2_amount(groups.last())
        }
    }
}

/// What is shown for day `i`: what its date amounts to, where it is the first
/// day with that date.
pub open spec fn day_amount(groups: Seq<Group>, dates: Seq<Seq<char>>, i: int, d1: bool) -> nat {
    if dates.index_of_first(dates[i]) == Some(i) {
        tally(groups, dates[i], d1)
    } else {
        0
    }
}

/// What the first `n` days amount to.
pub open spec fn days_total(groups: Seq<Group>, dates: Seq<Seq<char>>, n: int, d1: bool) -> nat
    decreases n,
{
    if n <= 0 {
        0
    } else {
        days_total(groups, dates, n - 1, d1) + day_amount(groups, dates, n - 1, d1)
    }
}

fn zero_or(n: Option<u64>) -> (r: u64)
    ensures
        r == or_zero(n),
{
    match n {
        Some(v) => v,
        None => 0,
    }
}

/// Whether `groups` can be counted up without running out of numbers.
pub open spec fn countable(groups: Seq<Group>, d1: bool) -> bool {
    grand_total(groups, d1) <= u64::MAX
}

proof fn lemma_tally_bound(groups: Seq<Group>, date: Seq<char>, d1: bool)
    ensures
        tally(groups, date, d1) <= grand_total(groups, d1),
    decreases groups.len(),
{
    if groups.len() > 0 {
        lemma_tally_bound(groups.drop_last(), date, d1);
    }
}

proof fn lemma_total_grows(groups: Seq<Group>, n: int, d1: bool)
    requires
        0 <= n <= groups.len(),
    ensures
        grand_total(groups.take(n), d1) <= grand_total(groups, d1),
    decreases groups.len() - n,
{
    if n < groups.len() {
        lemma_total_grows(groups, n + 1, d1);
        assert(groups.take(n + 1).drop_last() =~= groups.take(n));
    } else {
        assert(groups.take(n) =~= groups);
    }
}

/// Whether the figures can be counted up without running out of numbers.
pub fn can_count(groups: &Vec<Group>, d1: bool) -> (r: bool)
    ensures
        r == countable(groups@, d1),
{
    let mut total: u64 = 0;
    let mut i: usize = 0;
    assert(groups@.take(0) =~= Seq::<Group>::empty());
    while i < groups.len()
        invariant
            i <= groups@.len(),
            total == grand_total(groups@.take(i as int), d1),
        decreases groups@.len() - i,
    {
        proof {
            assert(groups@.take(i + 1).drop_last() =~= groups@.take(i as int));
            assert(groups@.take(i + 1).last() == groups@[i as int]);
            lemma_total_grows(groups@, i + 1, d1);
        }
        let amount: u128 = match &groups[i].sum {
            Some(s) => if d1 {
                zero_or(s.read_queries) as u128 + zero_or(s.write_queries) as u128
            } else {
                zero_or(s.requests) as u128
            },
            None => 0,
        };
        if total as u128 + amount > u64::MAX as u128 {
            return false;
        }
        total = (total as u128 + amount) as u64;
        i = i + 1;
    }
    assert(groups@.take(i as int) =~= groups@);
    true
}

/// What the groups of one date amount to.
fn tally_date(groups: &Vec<Group>, date: &str, d1: bool) -> (r: u64)
    requires
        countable(groups@, d1),
    ensures
        r == tally(groups@, date@, d1),
{
    let mut total: u64 = 0;
    let mut i: usize = 0;
    assert(groups@.take(0) =~= Seq::<Group>::empty());
    while i < groups.len()
        invariant
            i <= groups@.len(),
            countable(groups@, d1),
            total == tally(groups@.take(i as int), date@, d1),
        decreases groups@.len() - i,
    {
        let group: &Group = &groups[i];
        proof {
            assert(groups@.take(i + 1).drop_last() =~= groups@.take(i as int));
            assert(groups@.take(i + 1).last() == groups@[i as int]);
            lemma_total_grows(groups@, i + 1, d1);
            lemma_tally_bound(groups@.take(i + 1), date@, d1);
        }
        let hit: bool = match &group.dimensions {
            Some(d) => match &d.date {
                Some(t) => same(t.as_str(), date),
                None => false,
            },
            None => false,
        };
        if hit {
            let amount: u64 = match &group.sum {
                Some(s) => if d1 {
                    zero_or(s.read_queries) + zero_or(s.write_queries)
                } else {
                    zero_or(s.requests)
                },
                None => 0,
            };
            total = total + amount;
        }
        i = i + 1;
    }
    assert(groups@.take(i as int) =~= groups@);
    total
}

/// The tallies of distinct dates stay within the whole.
proof fn lemma_days_bound(groups: Seq<Group>, dates: Seq<Seq<char>>, n: int, d1: bool)
    requires
        0 <= n <= dates.len(),
    ensures
        days_total(groups, dates, n, d1) <= grand_total(groups, d1),
    decreases groups.len(),
{
    if groups.len() == 0 {
        lemma_days_of_nothing(groups, dates, n, d1);
    } else {
        lemma_days_bound(groups.drop_last(), dates, n, d1);
        lemma_days_one_group(groups, dates, n, d1);
    }
}

proof fn lemma_days_of_nothing(groups: Seq<Group>, dates: Seq<Seq<char>>, n: int, d1: bool)
    requires
        groups.len() == 0,
        0 <= n <= dates.len(),
    ensures
        days_total(groups, dates, n, d1) == 0,
    decreases n,
{
    if n > 0 {
        lemma_days_of_nothing(groups, dates, n - 1, d1);
    }
}

/// One more group adds to one day at most.
proof fn lemma_days_one_group(groups: Seq<Group>, dates: Seq<Seq<char>>, n: int, d1: bool)
    requires
        groups.len() > 0,
        0 <= n <= dates.len(),
    ensures
        ({
            let amount = if d1 { d1_amount(groups.last()) } else { r2_amount(groups.last()) };
            let seen = exists|i: int|
                0 <= i < n && dates.index_of_first(#[trigger] dates[i]) == Some(i) && date_of(
                    groups.last(),
                ) == Some(dates[i]);
            days_total(groups, dates, n, d1) == days_total(groups.drop_last(), dates, n, d1) + (if seen {
                amount
            } else {
                0
            })
        }),
    decreases n,
{
    if n > 0 {
        lemma_days_one_group(groups, dates, n - 1, d1);
        let d = dates[n - 1];
        dates.index_of_first_ensures(d);
        let now = dates.index_of_first(d) == Some(n - 1) && date_of(groups.last()) == Some(d);
        if now {
            assert forall|i: int|
                0 <= i < n - 1 && dates.index_of_first(#[trigger] dates[i]) == Some(i) implies date_of(
                groups.last(),
            ) != Some(dates[i]) by {
                if dates[i] == d {
                    assert(dates.index_of_first(d) == Some(i));
                }
            }
            assert(dates.index_of_first(dates[n - 1]) == Some(n - 1));
        }
    }
}

/// Folds the two sets of figures onto one run of days. A date that is not one of
/// the days counts for none.
pub fn assemble(account: &Account, dates: &Vec<String>) -> (r: Analytics)
    requires
        countable(account.r2@, false),
        countable(account.d1@, true),
    ensures
        r.days@.len() == dates@.len(),
        forall|i: int|
            0 <= i < dates@.len() ==> {
                &&& (#[trigger] r.days@[i]).date@ == dates@[i]@
                &&& r.days@[i].r2_requests == day_amount(account.r2@, views(dates@), i, false)
                &&& r.days@[i].d1_queries == day_amount(account.d1@, views(dates@), i, true)
            },
        r.r2_total == days_total(account.r2@, views(dates@), dates@.len() as int, false),
        r.d1_total == days_total(account.d1@, views(dates@), dates@.len() as int, true),
{
    let ghost all = views(dates@);
    let mut days: Vec<DailyUsage> = Vec::new();
    let mut r2_total: u64 = 0;
    let mut d1_total: u64 = 0;
    let mut i: usize = 0;
    while i < dates.len()
        invariant
            i <= dates@.len(),
            all == views(dates@),
            countable(account.r2@, false),
            countable(account.d1@, true),
            days@.len() == i,
            r2_total == days_total(account.r2@, all, i as int, false),
            d1_total == days_total(account.d1@, all, i as int, true),
            forall|j: int|
                0 <= j < i ==> {
                    &&& (#[trigger] days@[j]).date@ == dates@[j]@
                    &&& days@[j].r2_requests == day_amount(account.r2@, all, j, false)
                    &&& days@[j].d1_queries == day_amount(account.d1@, all, j, true)
                },
        decreases dates@.len() - i,
    {
        let date: &str = dates[i].as_str();
        let first: bool = is_first(dates, i);
        let r2: u64 = if first {
            tally_date(&account.r2, date, false)
        } else {
            0
        };
        let d1: u64 = if first {
            tally_date(&account.d1, date, true)
        } else {
            0
        };
        proof {
            assert(all[i as int] == date@);
            lemma_days_bound(account.r2@, all, i + 1, false);
            lemma_days_bound(account.d1@, all, i + 1, true);
        }
        r2_total = r2_total + r2;
        d1_total = d1_total + d1;
        days.push(DailyUsage { date: dates[i].clone(), r2_requests: r2, d1_queries: d1 });
        i = i + 1;
    }
    Analytics { days, r2_total, d1_total }
}

/// Whether the date at `i` is the first of its kind.
fn is_first(dates: &Vec<String>, i: usize) -> (r: bool)
    requires
        i < dates@.len(),
    ensures
        r == (views(dates@).index_of_first(views(dates@)[i as int]) == Some(i as int)),
{
    let ghost all = views(dates@);
    let ghost d = all[i as int];
    let mut j: usize = 0;
    proof {
        all.index_of_first_ensures(d);
    }
    while j < i
        invariant
            j <= i < dates@.len(),
            all == views(dates@),
            d == all[i as int],
            forall|k: int| 0 <= k < j ==> all[k] != d,
        decreases i - j,
    {
        if same(dates[j].as_str(), dates[i].as_str()) {
            proof {
                all.index_of_first_ensures(d);
                assert(all[j as int] == d);
            }
            return false;
        }
        j = j + 1;
    }
    proof {
        all.index_of_first_ensures(d);
        assert(all.contains(d)) by {
            assert(all[i as int] == d);
        }
    }
    true
}

/// The number of days that a request for `days` spans: seven where none is
/// given, and never less than one.
pub fn days_asked(days: Option<u32>) -> (r: u32)
    ensures
        r == match days {
            Some(d) => if d == 0 { 1 } else { d },
            None => 7u32,
        },
{
    match days {
        Some(d) => if d == 0 {
            1
        } else {
            d
        },
        None => 7,
    }
}

/// A figure for a date outside the run of days is folded into none of them.
pub proof fn other_dates_count_for_no_day(group: Group, dates: Seq<Seq<char>>, i: int, d1: bool)
    requires
        0 <= i < dates.len(),
        match date_of(group) {
            Some(d) => !dates.contains(d),
            None => true,
        },
    ensures
        day_amount(seq![group], dates, i, d1) == 0,
{
    assert(seq![group].drop_last() =~= Seq::<Group>::empty());
    assert(dates.contains(dates[i]));
    assert(tally(Seq::<Group>::empty(), dates[i], d1) == 0);
    assert(tally(seq![group], dates[i], d1) == 0);
}

/// The figure of one more group is counted where it belongs: in full on the first day
/// that has its date, and nowhere else; in the total of the days where one of them has
/// its date. A group without figures counts for nothing, and reads and writes count
/// alike.
pub proof fn a_group_counts_on_its_day(
    groups: Seq<Group>,
    g: Group,
    dates: Seq<Seq<char>>,
    i: int,
    d1: bool,
)
    requires
        0 <= i < dates.len(),
        forall|a: int, b: int| 0 <= a < b < dates.len() ==> dates[a] != dates[b],
    ensures
        ({
            let amount = if d1 { d1_amount(g) } else { r2_amount(g) };
            &&& day_amount(groups.push(g), dates, i, d1) == day_amount(groups, dates, i, d1)
                + if date_of(g) == Some(dates[i]) { amount } else { 0 }
            &&& day_amount(Seq::<Group>::empty(), dates, i, d1) == 0
        }),
{
    assert(groups.push(g).drop_last() =~= groups);
    dates.index_of_first_ensures(dates[i]);
    assert(dates.contains(dates[i]));
    assert(dates.index_of_first(dates[i]) == Some(i));
}

/// What a group amounts to: its requests; its reads and its writes together; nothing
/// for what is not given.
pub proof fn what_a_group_amounts_to(g: Group)
    ensures
        g.sum is None ==> r2_amount(g) == 0 && d1_amount(g) == 0,
        g.sum is Some && g.sum->0.requests is Some ==> r2_amount(g) == g.sum->0.requests->0,
        g.sum is Some && g.sum->0.requests is None ==> r2_amount(g) == 0,
        g.sum is Some && g.sum->0.read_queries is Some && g.sum->0.write_queries is Some
            ==> d1_amount(g) == g.sum->0.read_queries->0 + g.sum->0.write_queries->0,
        g.sum is Some && g.sum->0.read_queries is Some && g.sum->0.write_queries is None
            ==> d1_amount(g) == g.sum->0.read_queries->0,
        g.sum is Some && g.sum->0.read_queries is None && g.sum->0.write_queries is Some
            ==> d1_amount(g) == g.sum->0.write_queries->0,
        g.dimensions is Some && g.dimensions->0.date is Some ==> date_of(g) == Some(
            g.dimensions->0.date->0@,
        ),
        g.dimensions is None ==> date_of(g) is None,
{
}

/// The total is what the days amount to together, each of them once.
pub proof fn the_total_is_the_days(
    groups: Seq<Group>,
    dates: Seq<Seq<char>>,
    n: int,
    d1: bool,
)
    requires
        0 <= n < dates.len(),
    ensures
        days_total(groups, dates, n + 1, d1) == days_total(groups, dates, n, d1) + day_amount(
            groups,
            dates,
            n,
            d1,
        ),
        days_total(groups, dates, 0, d1) == 0,
{
}

/// When an answer is at fault: any error that came with it is told, as one of
/// permission where the status or the words say so; without one, a status that refuses
/// the token, any other that is no success, and an answer without an account.
pub proof fn when_an_answer_is_at_fault(
    status: Status,
    errors: Seq<Seq<char>>,
    has_account: bool,
    refused: Seq<char>,
)
    ensures
        ({
            let fault = answer_fault(status, errors, has_account, refused);
            &&& fault is None <==> errors.len() == 0 && 200 <= status.code < 300 && has_account
            &&& fault matches Some(f) ==> {
                &&& f.0 == ErrorKind::Permission <==> status.code == 401 || status.code == 403 || (
                errors.len() > 0 && names_permission(joined(errors, "; "@)))
                &&& errors.len() > 0 ==> f.1 == joined(errors, "; "@)
                &&& errors.len() == 0 && (status.code == 401 || status.code == 403) ==> f.1
                    == refused
            }
        }),
{
}

/// All groups together amount to what each of them does, and can be counted where that
/// is a number that there is room for.
pub proof fn what_all_groups_amount_to(groups: Seq<Group>, g: Group, d1: bool)
    ensures
        grand_total(groups.push(g), d1) == grand_total(groups, d1) + if d1 {
            d1_amount(g)
        } else {
            r2_amount(g)
        },
        grand_total(Seq::<Group>::empty(), d1) == 0,
        countable(groups, d1) <==> grand_total(groups, d1) <= u64::MAX,
{
    assert(groups.push(g).drop_last() =~= groups);
}

/// Any of the phrases by which a refusal is known makes it one, in whatever letters it
/// is written, and nothing else does.
pub proof fn which_messages_refuse(message: Seq<char>)
    ensures
        names_permission(message) <==> has_text(lower(message), "not authorized"@) || has_text(
            lower(message),
            "unauthorized"@,
        ) || has_text(lower(message), "permission"@) || has_text(lower(message), "forbidden"@)
            || has_text(lower(message), "access denied"@) || has_text(
            lower(message),
            "not entitled"@,
        ) || has_text(lower(message), "authentication error"@),
{
    let p = permission_fragments();
    assert(p[0] == "not authorized"@);
    assert(p[1] == "unauthorized"@);
    assert(p[2] == "permission"@);
    assert(p[3] == "forbidden"@);
    assert(p[4] == "access denied"@);
    assert(p[5] == "not entitled"@);
    assert(p[6] == "authentication error"@);
}

}
