//! Usage figures, and telling failures apart.

use blog_cms::analytics::{
    assemble, can_count, days_asked, is_permission_error, read_answer, Account, AnalyticsError,
    Dimensions, ErrorKind, Group, GroupSum, Status,
};
use blog_cms::calendar::days_window;

fn r2(date: &str, requests: u64) -> Group {
    Group {
        sum: Some(GroupSum { requests: Some(requests), read_queries: None, write_queries: None }),
        dimensions: Some(Dimensions { date: Some(date.to_string()) }),
    }
}

fn d1(date: &str, read: u64, write: u64) -> Group {
    Group {
        sum: Some(GroupSum {
            requests: None,
            read_queries: Some(read),
            write_queries: Some(write),
        }),
        dimensions: Some(Dimensions { date: Some(date.to_string()) }),
    }
}

/// Three days from 2026-08-01 on.
fn three_days() -> Vec<String> {
    vec!["2026-08-01".to_string(), "2026-08-02".to_string(), "2026-08-03".to_string()]
}

#[test]
fn permission_errors_are_told_apart_from_query_errors() {
    for msg in [
        "You do not have permission to access this resource",
        "Unauthorized to access requested resource",
        "authentication error",
        "Access denied for dataset",
    ] {
        assert!(is_permission_error(msg), "should be a permission error: {msg}");
    }
    for msg in ["Unknown field 'wobble' on type 'Account'", "limit must be less than 10000"] {
        assert!(!is_permission_error(msg), "should not be a permission error: {msg}");
    }
}

#[test]
fn series_covers_every_day_even_with_sparse_results() {
    let account = Account { r2: vec![r2("2026-08-02", 5)], d1: vec![d1("2026-08-03", 3, 4)] };
    let out = assemble(&account, &three_days());

    assert_eq!(out.days.len(), 3, "quiet days must still appear");
    assert_eq!(out.days[0].r2_requests, 0);
    assert_eq!(out.days[1].r2_requests, 5);
    // Read and write queries are summed into one D1 figure.
    assert_eq!(out.days[2].d1_queries, 7);
    assert_eq!(out.r2_total, 5);
    assert_eq!(out.d1_total, 7);
}

/// A day outside the window must not be folded into an unrelated one.
#[test]
fn out_of_range_days_are_ignored() {
    let account = Account { r2: vec![r2("1999-01-01", 99)], d1: vec![] };
    let out = assemble(&account, &three_days());
    assert_eq!(out.r2_total, 0);
}

#[test]
fn several_groups_of_one_day_add_up() {
    let account = Account {
        r2: vec![r2("2026-08-01", 2), r2("2026-08-01", 3), r2("2026-08-03", 4)],
        d1: vec![],
    };
    let out = assemble(&account, &three_days());
    assert_eq!(out.days[0].date, "2026-08-01");
    assert_eq!(out.days[0].r2_requests, 5);
    assert_eq!(out.days[2].r2_requests, 4);
    assert_eq!(out.r2_total, 9);
}

#[test]
fn a_window_holds_every_day_to_today() {
    // 2026-08-20T13:00:00Z.
    let now = 1_787_184_000 + 13 * 3600;
    assert_eq!(days_window(now, 1).unwrap(), vec!["2026-08-20"]);
    assert_eq!(days_window(now, 3).unwrap(), vec!["2026-08-18", "2026-08-19", "2026-08-20"]);
    assert_eq!(days_window(now, 25).unwrap()[0], "2026-07-27");
}

#[test]
fn a_week_is_asked_for_by_default_and_never_no_day() {
    assert_eq!(days_asked(None), 7);
    assert_eq!(days_asked(Some(0)), 1);
    assert_eq!(days_asked(Some(30)), 30);
}

fn status(code: u16, text: &str) -> Status {
    Status { code, text: text.to_string() }
}

fn fault(code: u16, text: &str, errors: &[&str], account: Option<u8>) -> AnalyticsError {
    let errors: Vec<String> = errors.iter().map(|e| e.to_string()).collect();
    read_answer(&status(code, text), &errors, account, "the token was refused").unwrap_err()
}

#[test]
fn an_answer_is_judged_by_its_errors_before_its_status() {
    let e = fault(200, "200 OK", &["Unknown field", "limit"], Some(1));
    assert_eq!(e.kind, ErrorKind::Query);
    assert_eq!(e.message, "Unknown field; limit");

    let e = fault(200, "200 OK", &["you lack permission"], Some(1));
    assert_eq!(e.kind, ErrorKind::Permission);

    let e = fault(403, "403 Forbidden", &["some error"], Some(1));
    assert_eq!(e.kind, ErrorKind::Permission);
    assert_eq!(e.message, "some error");

    let e = fault(401, "401 Unauthorized", &[], Some(1));
    assert_eq!(e.kind, ErrorKind::Permission);
    assert_eq!(e.message, "the token was refused");

    let e = fault(500, "500 Internal Server Error", &[], Some(1));
    assert_eq!(e.kind, ErrorKind::Query);
    assert_eq!(e.message, "Cloudflare returned 500 Internal Server Error");

    let e = fault(200, "200 OK", &[], None);
    assert_eq!(e.kind, ErrorKind::Query);
    assert_eq!(e.message, "Cloudflare returned no account data");

    let none: Vec<String> = Vec::new();
    assert_eq!(read_answer(&status(200, "200 OK"), &none, Some(7u8), "").unwrap(), 7);
}

#[test]
fn figures_that_cannot_be_added_up_are_noticed() {
    assert!(can_count(&vec![r2("2026-08-01", 1), r2("2026-08-02", 2)], false));
    assert!(!can_count(&vec![r2("2026-08-01", u64::MAX), r2("2026-08-01", 1)], false));
    assert!(can_count(&vec![d1("2026-08-01", u64::MAX, 0)], true));
    assert!(!can_count(&vec![d1("2026-08-01", u64::MAX, 1)], true));
}
