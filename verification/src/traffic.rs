//! Readership, read from Cloudflare Web Analytics.
//!
//! Traffic is per path and posts are per slug. A path belongs to a post when its
//! last segment is that post's slug, however the blog lays out its URLs. What
//! does not match is reported, not dropped.

use crate::analytics::{
    is_permission_error, names_permission, refuses_token, AnalyticsError, ErrorKind, Status,
};
use crate::cloudflare::{account_url, CloudflareConfig};
use crate::entities::post;
use crate::entities::post::PostRow;
use crate::table::{in_order, rows_view, sort, Order};
use crate::text::{
    chars_of, comes_before, is_before, join, joined, lemma_order_total, lemma_order_transitive,
    lemma_trim_end, opt_view, plus, same, trim, trim_end_by, trimmed, views,
};
use vstd::prelude::*;
use vstd::slice::slice_subrange;

verus! {

/// Page loads by day and path.
pub const QUERY: &'static str = "query PostTraffic($accountTag: string!, $siteTag: string!, $start: Date!, $end: Date!) { viewer { accounts(filter: { accountTag: $accountTag }) { rumPageloadEventsAdaptiveGroups(limit: 10000, filter: { siteTag: $siteTag, date_geq: $start, date_leq: $end }, orderBy: [date_ASC]) { count sum { visits } dimensions { date requestPath } } } } }";

// ─── Sites ──────────────────────────────────────────────────────────────────

/// A Web Analytics site of the account, to choose between.
#[derive(Debug, PartialEq, Eq)]
pub struct Site {
    pub site_tag: String,
    /// The most recognisable name that there is for it.
    pub name: String,
}

pub struct SiteRow {
    pub site_tag: Seq<char>,
    pub name: Seq<char>,
}

impl View for Site {
    type V = SiteRow;

    open spec fn view(&self) -> SiteRow {
        SiteRow { site_tag: self.site_tag@, name: self.name@ }
    }
}

/// The zone that a site is attached to.
pub struct Ruleset {
    pub zone_name: Option<String>,
}

/// A host that a site is installed on.
pub struct Rule {
    pub host: Option<String>,
}

/// What Cloudflare says of a site.
pub struct SiteInfo {
    pub site_tag: String,
    pub ruleset: Option<Ruleset>,
    pub rules: Vec<Rule>,
}

/// A host that names a site: one that is given, and is not the wildcard.
pub open spec fn names_host(r: Rule) -> bool {
    r.host matches Some(h) && h@.len() > 0 && h@ != "*"@
}

/// The first host among the rules that names the site, or the tag.
pub open spec fn first_host(rules: Seq<Rule>, tag: Seq<char>) -> Seq<char>
    decreases rules.len(),
{
    if rules.len() == 0 {
        tag
    } else if names_host(rules[0]) {
        rules[0].host->0@
    } else {
        first_host(rules.drop_first(), tag)
    }
}

/// The name of a site: its zone's, else the first host of its rules, else its
/// tag.
pub open spec fn site_name(s: SiteInfo) -> Seq<char> {
    match s.ruleset {
        Some(r) => match r.zone_name {
            Some(z) => if z@.len() > 0 {
                z@
            } else {
                first_host(s.rules@, s.site_tag@)
            },
            None => first_host(s.rules@, s.site_tag@),
        },
        None => first_host(s.rules@, s.site_tag@),
    }
}

impl SiteInfo {
    /// The most recognisable name that there is for this site. The tag is the
    /// last resort: unhelpful to read, but never wrong.
    pub fn display_name(&self) -> (out: String)
        ensures
            out@ == site_name(*self),
    {
        if let Some(r) = &self.ruleset {
            if let Some(z) = &r.zone_name {
                if !z.as_str().is_empty() {
                    return z.clone();
                }
            }
        }
        let mut i: usize = 0;
        assert(self.rules@.skip(0) =~= self.rules@);
        while i < self.rules.len()
            invariant
                i <= self.rules@.len(),
                site_name(*self) == first_host(self.rules@, self.site_tag@),
                first_host(self.rules@.skip(i as int), self.site_tag@) == first_host(
                    self.rules@,
                    self.site_tag@,
                ),
            decreases self.rules@.len() - i,
        {
            proof {
                assert(self.rules@.skip(i as int)[0] == self.rules@[i as int]);
                assert(self.rules@.skip(i as int).drop_first() =~= self.rules@.skip(i + 1));
            }
            if let Some(h) = &self.rules[i].host {
                if !h.as_str().is_empty() && !same(h.as_str(), "*") {
                    return h.clone();
                }
            }
            i = i + 1;
        }
        self.site_tag.clone()
    }
}

/// The sites that have a tag, each with its name.
pub open spec fn listed_sites(sites: Seq<SiteInfo>) -> Seq<SiteRow>
    decreases sites.len(),
{
    if sites.len() == 0 {
        Seq::empty()
    } else if sites.last().site_tag@.len() > 0 {
        listed_sites(sites.drop_last()).push(
            SiteRow { site_tag: sites.last().site_tag@, name: site_name(sites.last()) },
        )
    } else {
        listed_sites(sites.drop_last())
    }
}

/// What a list of sites is answered with: what was wrong with it, if anything
/// was.
pub open spec fn sites_fault(status: Status, success: bool, errors: Seq<Seq<char>>) -> Option<
    (ErrorKind, Seq<char>),
> {
    if refuses_token(status.code) {
        Some((ErrorKind::Permission, "Cloudflare rejected the token for Web Analytics"@))
    } else if !success {
        let told = joined(errors, "; "@);
        let message = if told.len() == 0 {
            "Cloudflare returned "@ + status.text@
        } else {
            told
        };
        if names_permission(message) {
            Some((ErrorKind::Permission, message))
        } else {
            Some((ErrorKind::Query, message))
        }
    } else {
        None
    }
}

/// The sites to choose from, where the answer is usable.
pub fn read_sites(
    status: &Status,
    success: bool,
    errors: &Vec<String>,
    sites: &Vec<SiteInfo>,
) -> (r: Result<Vec<Site>, AnalyticsError>)
    ensures
        match r {
            Ok(s) => {
                &&& sites_fault(*status, success, views(errors@)) is None
                &&& rows_view(s@) == listed_sites(sites@)
            },
            Err(e) => sites_fault(*status, success, views(errors@)) == Some((e.kind, e.message@)),
        },
{
    if status.code == 401 || status.code == 403 {
        return Err(
            AnalyticsError::new(
                ErrorKind::Permission,
                "Cloudflare rejected the token for Web Analytics",
            ),
        );
    }
    if !success {
        let told: String = join(errors, "; ");
        let message: String = if told.as_str().is_empty() {
            plus("Cloudflare returned ", status.text.as_str())
        } else {
            told
        };
        let kind: ErrorKind = if is_permission_error(message.as_str()) {
            ErrorKind::Permission
        } else {
            ErrorKind::Query
        };
        return Err(AnalyticsError { kind, message });
    }
    let mut out: Vec<Site> = Vec::new();
    let mut i: usize = 0;
    assert(sites@.take(0) =~= Seq::<SiteInfo>::empty());
    assert(rows_view(out@) =~= Seq::<SiteRow>::empty());
    while i < sites.len()
        invariant
            i <= sites@.len(),
            rows_view(out@) == listed_sites(sites@.take(i as int)),
        decreases sites@.len() - i,
    {
        let ghost before = rows_view(out@);
        proof {
            assert(sites@.take(i + 1).drop_last() =~= sites@.take(i as int));
            assert(sites@.take(i + 1).last() == sites@[i as int]);
        }
        let s: &SiteInfo = &sites[i];
        if !s.site_tag.as_str().is_empty() {
            let site = Site { site_tag: s.site_tag.clone(), name: s.display_name() };
            let ghost v = site@;
            out.push(site);
            assert(rows_view(out@) =~= before.push(v));
        }
        i = i + 1;
    }
    assert(sites@.take(i as int) =~= sites@);
    Ok(out)
}

// ─── Paths and posts ────────────────────────────────────────────────────────

/// `s` up to the first `?` or `#`.
pub open spec fn without_query(s: Seq<char>) -> Seq<char>
    decreases s.len(),
{
    if s.len() == 0 || s[0] == '?' || s[0] == '#' {
        Seq::empty()
    } else {
        seq![s[0]] + without_query(s.drop_first())
    }
}

/// What follows the last `/` of `s`.
pub open spec fn after_last_slash(s: Seq<char>) -> Seq<char>
    decreases s.len(),
{
    if s.len() == 0 || s.last() == '/' {
        Seq::empty()
    } else {
        after_last_slash(s.drop_last()).push(s.last())
    }
}

/// `s` without `.html` at its end.
pub open spec fn without_html(s: Seq<char>) -> Seq<char> {
    if ".html"@.is_suffix_of(s) {
        s.take(s.len() - ".html"@.len())
    } else {
        s
    }
}

/// The slug that a path would belong to: its last segment that is not empty,
/// without query string, fragment or `.html`; nothing where that is empty.
pub open spec fn slug_of_path(path: Seq<char>) -> Option<Seq<char>> {
    let last = without_html(
        after_last_slash(trim_end_by(without_query(path), |c: char| c == '/')),
    );
    if last.len() == 0 {
        None
    } else {
        Some(last)
    }
}

proof fn lemma_without_query(s: Seq<char>, n: int)
    requires
        0 <= n <= s.len(),
        forall|j: int| 0 <= j < n ==> (#[trigger] s[j]) != '?' && s[j] != '#',
        n < s.len() ==> s[n] == '?' || s[n] == '#',
    ensures
        without_query(s) == s.take(n),
    decreases n,
{
    if n > 0 {
        assert forall|j: int| 0 <= j < n - 1 implies (#[trigger] s.drop_first()[j]) != '?'
            && s.drop_first()[j] != '#' by {
            assert(s.drop_first()[j] == s[j + 1]);
        }
        lemma_without_query(s.drop_first(), n - 1);
        assert(seq![s[0]] + s.drop_first().take(n - 1) =~= s.take(n));
    } else {
        assert(s.take(0) =~= Seq::<char>::empty());
    }
}

proof fn lemma_after_last_slash(s: Seq<char>, n: int)
    requires
        0 <= n <= s.len(),
        forall|j: int| n <= j < s.len() ==> (#[trigger] s[j]) != '/',
        n > 0 ==> s[n - 1] == '/',
    ensures
        after_last_slash(s) == s.skip(n),
    decreases s.len() - n,
{
    if n < s.len() {
        lemma_after_last_slash(s.drop_last(), n);
        assert(s.drop_last().skip(n).push(s.last()) =~= s.skip(n));
    } else {
        assert(s.skip(n) =~= Seq::<char>::empty());
    }
}

/// The slug that a path would belong to.
///
/// Lenient about everything in front of it: the blog owns its URLs and may nest
/// posts under anything, but it ends a post's URL in the post's slug.
pub fn path_slug(path: &str) -> (r: Option<&str>)
    ensures
        match r {
            Some(s) => slug_of_path(path@) == Some(s@),
            None => slug_of_path(path@) is None,
        },
{
    let x: Vec<char> = chars_of(path);
    let html: Vec<char> = chars_of(".html");
    let mut cut: usize = 0;
    while cut < x.len() && x[cut] != '?' && x[cut] != '#'
        invariant
            cut <= x@.len(),
            forall|j: int| 0 <= j < cut ==> (#[trigger] x@[j]) != '?' && x@[j] != '#',
        decreases x@.len() - cut,
    {
        cut = cut + 1;
    }
    proof {
        lemma_without_query(x@, cut as int);
    }
    let ghost a = x@.take(cut as int);
    let mut end: usize = cut;
    while end > 0 && x[end - 1] == '/'
        invariant
            end <= cut <= x@.len(),
            forall|j: int| end <= j < cut ==> (#[trigger] x@[j]) == '/',
        decreases end,
    {
        end = end - 1;
    }
    proof {
        assert forall|j: int| end <= j < a.len() implies a[j] == '/' by {
            assert(a[j] == x@[j]);
        }
        lemma_trim_end(a, |c: char| c == '/', end as int);
        assert(a.take(end as int) =~= x@.take(end as int));
    }
    let ghost b = x@.take(end as int);
    let mut start: usize = end;
    while start > 0 && x[start - 1] != '/'
        invariant
            start <= end <= x@.len(),
            forall|j: int| start <= j < end ==> (#[trigger] x@[j]) != '/',
        decreases start,
    {
        start = start - 1;
    }
    proof {
        assert forall|j: int| start <= j < b.len() implies (#[trigger] b[j]) != '/' by {
            assert(b[j] == x@[j]);
        }
        lemma_after_last_slash(b, start as int);
        assert(b.skip(start as int) =~= x@.subrange(start as int, end as int));
        reveal_strlit(".html");
    }
    let ghost last = x@.subrange(start as int, end as int);
    let mut stop: usize = end;
    if end - start >= html.len() {
        let tail: usize = end - html.len();
        if crate::text::same_chars(
            slice_subrange(x.as_slice(), tail, end),
            html.as_slice(),
        ) {
            proof {
                assert(last.skip(last.len() - 5) =~= x@.subrange(tail as int, end as int));
                assert(".html"@.is_suffix_of(last));
                assert(last.take(last.len() - 5) =~= x@.subrange(start as int, tail as int));
            }
            stop = tail;
        } else {
            proof {
                if ".html"@.is_suffix_of(last) {
                    assert(x@.subrange(tail as int, end as int) =~= last.skip(last.len() - 5));
                    assert(last.skip(last.len() - 5) =~= ".html"@);
                }
            }
        }
    }
    assert(without_html(last) =~= x@.subrange(start as int, stop as int));
    if start == stop {
        None
    } else {
        Some(path.substring_char(start, stop))
    }
}

/// The last segment of a path, without what may stand behind it.
proof fn lemma_last_segment(
    before: Seq<char>,
    word: Seq<char>,
    slashes: Seq<char>,
    query: Seq<char>,
)
    requires
        before.len() > 0 ==> before.last() == '/',
        forall|i: int| 0 <= i < before.len() ==> (#[trigger] before[i]) != '?' && before[i] != '#',
        word.len() > 0,
        forall|i: int|
            0 <= i < word.len() ==> (#[trigger] word[i]) != '/' && word[i] != '?' && word[i]
                != '#',
        forall|i: int| 0 <= i < slashes.len() ==> (#[trigger] slashes[i]) == '/',
        query.len() > 0 ==> query[0] == '?' || query[0] == '#',
    ensures
        after_last_slash(
            trim_end_by(without_query(before + word + slashes + query), |c: char| c == '/'),
        ) == word,
{
    let path = before + word + slashes + query;
    let (b, w, n) = (before.len() as int, word.len() as int, slashes.len() as int);
    let plain = before + word + slashes;
    assert(path.take(b + w + n) =~= plain);
    assert forall|j: int| 0 <= j < b + w + n implies (#[trigger] path[j]) != '?' && path[j]
        != '#' by {
        if j < b {
            assert(path[j] == before[j]);
        } else if j < b + w {
            assert(path[j] == word[j - b]);
        } else {
            assert(path[j] == slashes[j - b - w]);
        }
    }
    if b + w + n < path.len() {
        assert(path[b + w + n] == query[0]);
    }
    lemma_without_query(path, b + w + n);
    assert forall|j: int| b + w <= j < plain.len() implies plain[j] == '/' by {
        assert(plain[j] == slashes[j - b - w]);
    }
    assert(plain[b + w - 1] == word[w - 1]);
    lemma_trim_end(plain, |c: char| c == '/', b + w);
    let named = before + word;
    assert(plain.take(b + w) =~= named);
    assert forall|j: int| b <= j < named.len() implies (#[trigger] named[j]) != '/' by {
        assert(named[j] == word[j - b]);
    }
    if b > 0 {
        assert(named[b - 1] == before.last());
    }
    lemma_after_last_slash(named, b);
    assert(named.skip(b) =~= word);
}

/// A post is read out of its URL in any shape: under whatever directories, with or
/// without `.html`, slashes at the end, and a query string or a fragment.
pub proof fn url_shapes_read_alike(
    before: Seq<char>,
    slug: Seq<char>,
    slashes: Seq<char>,
    query: Seq<char>,
)
    requires
        before.len() > 0 ==> before.last() == '/',
        forall|i: int| 0 <= i < before.len() ==> (#[trigger] before[i]) != '?' && before[i] != '#',
        slug.len() > 0,
        forall|i: int|
            0 <= i < slug.len() ==> (#[trigger] slug[i]) != '/' && slug[i] != '?' && slug[i]
                != '#',
        !".html"@.is_suffix_of(slug),
        forall|i: int| 0 <= i < slashes.len() ==> (#[trigger] slashes[i]) == '/',
        query.len() > 0 ==> query[0] == '?' || query[0] == '#',
    ensures
        slug_of_path(before + slug + slashes + query) == Some(slug),
        slug_of_path(before + (slug + ".html"@) + slashes + query) == Some(slug),
{
    lemma_last_segment(before, slug, slashes, query);
    reveal_strlit(".html");
    let word = slug + ".html"@;
    assert forall|i: int| 0 <= i < word.len() implies (#[trigger] word[i]) != '/' && word[i]
        != '?' && word[i] != '#' by {
        if i < slug.len() {
            assert(word[i] == slug[i]);
        } else {
            assert(word[i] == ".html"@[i - slug.len()]);
        }
    }
    lemma_last_segment(before, word, slashes, query);
    assert(word.skip(slug.len() as int) =~= ".html"@);
    assert(".html"@.is_suffix_of(word));
    assert(word.take(slug.len() as int) =~= slug);
}

// ─── Attribution ────────────────────────────────────────────────────────────

/// The visits of a group.
pub struct PageloadSum {
    pub visits: Option<u64>,
}

/// The day and the path of a group.
pub struct PageloadDimensions {
    pub date: Option<String>,
    pub request_path: Option<String>,
}

/// Page loads of one path on one day, as far as they are given.
pub struct PageloadGroup {
    pub count: Option<u64>,
    pub sum: Option<PageloadSum>,
    pub dimensions: Option<PageloadDimensions>,
}

/// What a group of page loads says.
pub struct Pageloads {
    pub views: u64,
    pub visits: u64,
    pub date: Option<Seq<char>>,
    pub path: Option<Seq<char>>,
}

impl View for PageloadGroup {
    type V = Pageloads;

    open spec fn view(&self) -> Pageloads {
        Pageloads {
            views: match self.count {
                Some(n) => n,
                None => 0,
            },
            visits: match self.sum {
                Some(s) => match s.visits {
                    Some(n) => n,
                    None => 0,
                },
                None => 0,
            },
            date: match self.dimensions {
                Some(d) => opt_view(d.date),
                None => None,
            },
            path: match self.dimensions {
                Some(d) => opt_view(d.request_path),
                None => None,
            },
        }
    }
}

/// One day of one post's readership.
#[derive(Debug, PartialEq, Eq)]
pub struct DailyViews {
    /// `YYYY-MM-DD`.
    pub date: String,
    pub views: u64,
}

pub struct DayRow {
    pub date: Seq<char>,
    pub views: u64,
}

impl View for DailyViews {
    type V = DayRow;

    open spec fn view(&self) -> DayRow {
        DayRow { date: self.date@, views: self.views }
    }
}

/// How a post was read.
#[derive(Debug, PartialEq, Eq)]
pub struct PostTraffic {
    pub id: i32,
    pub slug: String,
    pub title: String,
    pub published: bool,
    pub views: u64,
    pub visits: u64,
    /// One entry per day, zeroes included.
    pub days: Vec<DailyViews>,
}

pub struct TrafficRow {
    pub id: i32,
    pub slug: Seq<char>,
    pub title: Seq<char>,
    pub published: bool,
    pub views: u64,
    pub visits: u64,
    pub days: Seq<DayRow>,
}

impl View for PostTraffic {
    type V = TrafficRow;

    open spec fn view(&self) -> TrafficRow {
        TrafficRow {
            id: self.id,
            slug: self.slug@,
            title: self.title@,
            published: self.published,
            views: self.views,
            visits: self.visits,
            days: rows_view(self.days@),
        }
    }
}

/// Traffic that belongs to no post.
#[derive(Debug, PartialEq, Eq)]
pub struct UnattributedPath {
    pub path: String,
    pub views: u64,
}

pub struct PathRow {
    pub path: Seq<char>,
    pub views: u64,
}

impl View for UnattributedPath {
    type V = PathRow;

    open spec fn view(&self) -> PathRow {
        PathRow { path: self.path@, views: self.views }
    }
}

/// Readership over a run of days.
#[derive(Debug, PartialEq, Eq)]
pub struct TrafficReport {
    /// The days that every post's `days` is aligned to.
    pub dates: Vec<String>,
    /// Most-read first.
    pub posts: Vec<PostTraffic>,
    /// Most-read first.
    pub unattributed: Vec<UnattributedPath>,
    pub total_views: u64,
    /// Views that reached a post, as opposed to the rest of the blog.
    pub attributed_views: u64,
}

/// Where page loads go.
pub enum Target {
    /// They have no path, and count for nothing.
    Nowhere,
    /// To the post with this id.
    Post(i32),
    /// To no post: the path stands for itself.
    Path(Seq<char>),
}

/// The last of `posts` with this slug.
pub open spec fn post_for(posts: Seq<PostRow>, slug: Seq<char>) -> Option<PostRow>
    decreases posts.len(),
{
    if posts.len() == 0 {
        None
    } else if posts.last().slug == slug {
        Some(posts.last())
    } else {
        post_for(posts.drop_last(), slug)
    }
}

/// Where these page loads go.
pub open spec fn target_of(g: Pageloads, posts: Seq<PostRow>) -> Target {
    match g.path {
        None => Target::Nowhere,
        Some(path) => match slug_of_path(path) {
            None => Target::Path(path),
            Some(slug) => match post_for(posts, slug) {
                Some(p) => Target::Post(p.id),
                None => Target::Path(path),
            },
        },
    }
}

/// What the page loads that `pick` holds of amount to.
pub open spec fn tally(
    groups: Seq<Pageloads>,
    pick: spec_fn(Pageloads) -> bool,
    visits: bool,
) -> nat
    decreases groups.len(),
{
    if groups.len() == 0 {
        0
    } else {
        let before = tally(groups.drop_last(), pick, visits);
        if pick(groups.last()) {
            before + if visits { groups.last().visits as nat } else { groups.last().views as nat }
        } else {
            before
        }
    }
}

/// Page loads that have a path.
pub open spec fn has_path() -> spec_fn(Pageloads) -> bool {
    |g: Pageloads| g.path is Some
}

/// Page loads that go to this target.
pub open spec fn goes_to(posts: Seq<PostRow>, target: Target) -> spec_fn(Pageloads) -> bool {
    |g: Pageloads| target_of(g, posts) == target
}

/// Page loads that go to this target on this day.
pub open spec fn goes_to_on(posts: Seq<PostRow>, target: Target, date: Seq<char>) -> spec_fn(
    Pageloads,
) -> bool {
    |g: Pageloads| target_of(g, posts) == target && g.date == Some(date)
}

/// The figures can be counted up without running out of numbers.
pub open spec fn countable(groups: Seq<Pageloads>) -> bool {
    tally(groups, has_path(), false) <= u64::MAX && tally(groups, has_path(), true) <= u64::MAX
}

proof fn lemma_tally_within(
    groups: Seq<Pageloads>,
    p: spec_fn(Pageloads) -> bool,
    q: spec_fn(Pageloads) -> bool,
    visits: bool,
)
    requires
        forall|g: Pageloads| #[trigger] p(g) ==> q(g),
    ensures
        tally(groups, p, visits) <= tally(groups, q, visits),
    decreases groups.len(),
{
    if groups.len() > 0 {
        lemma_tally_within(groups.drop_last(), p, q, visits);
    }
}

proof fn lemma_tally_grows(
    groups: Seq<Pageloads>,
    n: int,
    p: spec_fn(Pageloads) -> bool,
    visits: bool,
)
    requires
        0 <= n <= groups.len(),
    ensures
        tally(groups.take(n), p, visits) <= tally(groups, p, visits),
    decreases groups.len() - n,
{
    if n < groups.len() {
        lemma_tally_grows(groups, n + 1, p, visits);
        assert(groups.take(n + 1).drop_last() =~= groups.take(n));
    } else {
        assert(groups.take(n) =~= groups);
    }
}

/// Counting two kinds of page loads that are never the same is counting either.
proof fn lemma_tally_disjoint(
    groups: Seq<Pageloads>,
    p: spec_fn(Pageloads) -> bool,
    q: spec_fn(Pageloads) -> bool,
    either: spec_fn(Pageloads) -> bool,
    visits: bool,
)
    requires
        forall|g: Pageloads| #[trigger] either(g) <==> p(g) || q(g),
        forall|g: Pageloads| !(#[trigger] p(g) && q(g)),
    ensures
        tally(groups, p, visits) + tally(groups, q, visits) == tally(groups, either, visits),
    decreases groups.len(),
{
    if groups.len() > 0 {
        lemma_tally_disjoint(groups.drop_last(), p, q, either, visits);
        let g = groups.last();
        assert(either(g) <==> p(g) || q(g));
        assert(!(p(g) && q(g)));
    }
}

proof fn lemma_tally_same(
    groups: Seq<Pageloads>,
    p: spec_fn(Pageloads) -> bool,
    q: spec_fn(Pageloads) -> bool,
    visits: bool,
)
    requires
        forall|i: int| 0 <= i < groups.len() ==> p(#[trigger] groups[i]) == q(groups[i]),
    ensures
        tally(groups, p, visits) == tally(groups, q, visits),
    decreases groups.len(),
{
    if groups.len() > 0 {
        assert forall|i: int| 0 <= i < groups.drop_last().len() implies p(
            #[trigger] groups.drop_last()[i],
        ) == q(groups.drop_last()[i]) by {
            assert(groups.drop_last()[i] == groups[i]);
        }
        lemma_tally_same(groups.drop_last(), p, q, visits);
        assert(p(groups[groups.len() - 1]) == q(groups[groups.len() - 1]));
    }
}

/// Posts, most-read first; of posts read as often, by slug.
pub struct MostRead;

impl Order<PostTraffic> for MostRead {
    open spec fn before(a: TrafficRow, b: TrafficRow) -> bool {
        a.views > b.views || (a.views == b.views && comes_before(a.slug, b.slug))
    }

    fn is_before(a: &PostTraffic, b: &PostTraffic) -> (r: bool) {
        a.views > b.views || (a.views == b.views && is_before(a.slug.as_str(), b.slug.as_str()))
    }

    proof fn lemma_order(a: TrafficRow, b: TrafficRow, c: TrafficRow) {
        lemma_order_total(a.slug, b.slug);
        lemma_order_total(b.slug, c.slug);
        lemma_order_total(a.slug, c.slug);
        if comes_before(c.slug, a.slug) && comes_before(a.slug, b.slug) {
            lemma_order_transitive(c.slug, a.slug, b.slug);
        }
    }
}

/// Paths, most-read first; of paths read as often, by their text.
pub struct MostReadPaths;

impl Order<UnattributedPath> for MostReadPaths {
    open spec fn before(a: PathRow, b: PathRow) -> bool {
        a.views > b.views || (a.views == b.views && comes_before(a.path, b.path))
    }

    fn is_before(a: &UnattributedPath, b: &UnattributedPath) -> (r: bool) {
        a.views > b.views || (a.views == b.views && is_before(a.path.as_str(), b.path.as_str()))
    }

    proof fn lemma_order(a: PathRow, b: PathRow, c: PathRow) {
        lemma_order_total(a.path, b.path);
        lemma_order_total(b.path, c.path);
        lemma_order_total(a.path, c.path);
        if comes_before(c.path, a.path) && comes_before(a.path, b.path) {
            lemma_order_transitive(c.path, a.path, b.path);
        }
    }
}

/// The first of `posts` with this id.
pub open spec fn first_with_id(posts: Seq<PostRow>, id: i32) -> PostRow
    decreases posts.len(),
{
    if posts.len() <= 1 || posts[0].id == id {
        posts[0]
    } else {
        first_with_id(posts.drop_first(), id)
    }
}

/// What is said of the post with this id.
pub open spec fn traffic_of(
    groups: Seq<Pageloads>,
    posts: Seq<PostRow>,
    dates: Seq<Seq<char>>,
    id: i32,
) -> TrafficRow {
    let p = first_with_id(posts, id);
    let to = Target::Post(id);
    TrafficRow {
        id,
        slug: p.slug,
        title: p.title,
        published: p.published,
        views: tally(groups, goes_to(posts, to), false) as u64,
        visits: tally(groups, goes_to(posts, to), true) as u64,
        days: dates.map_values(
            |d: Seq<char>|
                DayRow { date: d, views: tally(groups, goes_to_on(posts, to, d), false) as u64 },
        ),
    }
}

/// What is said of a path that belongs to no post.
pub open spec fn path_row(groups: Seq<Pageloads>, posts: Seq<PostRow>, path: Seq<char>) -> PathRow {
    PathRow { path, views: tally(groups, goes_to(posts, Target::Path(path)), false) as u64 }
}

/// Some page loads go to this target.
pub open spec fn is_target(groups: Seq<Pageloads>, posts: Seq<PostRow>, to: Target) -> bool {
    exists|i: int| 0 <= i < groups.len() && target_of(#[trigger] groups[i], posts) == to
}

/// `rows` says what there is to say of the posts that were read: of each once,
/// most-read first.
pub open spec fn ranks_posts(
    rows: Seq<TrafficRow>,
    groups: Seq<Pageloads>,
    posts: Seq<PostRow>,
    dates: Seq<Seq<char>>,
) -> bool {
    &&& in_order::<PostTraffic, MostRead>(rows)
    &&& forall|i: int, j: int| 0 <= i < j < rows.len() ==> rows[i].id != rows[j].id
    &&& forall|i: int|
        0 <= i < rows.len() ==> {
            &&& is_target(groups, posts, Target::Post((#[trigger] rows[i]).id))
            &&& rows[i] == traffic_of(groups, posts, dates, rows[i].id)
        }
    &&& forall|id: i32| #[trigger]
        is_target(groups, posts, Target::Post(id)) ==> exists|i: int|
            0 <= i < rows.len() && (#[trigger] rows[i]).id == id
}

/// `rows` says what there is to say of the paths that belong to no post: of
/// each once, most-read first.
pub open spec fn ranks_paths(
    rows: Seq<PathRow>,
    groups: Seq<Pageloads>,
    posts: Seq<PostRow>,
) -> bool {
    &&& in_order::<UnattributedPath, MostReadPaths>(rows)
    &&& forall|i: int, j: int| 0 <= i < j < rows.len() ==> rows[i].path != rows[j].path
    &&& forall|i: int|
        0 <= i < rows.len() ==> {
            &&& is_target(groups, posts, Target::Path((#[trigger] rows[i]).path))
            &&& rows[i] == path_row(groups, posts, rows[i].path)
        }
    &&& forall|path: Seq<char>| #[trigger]
        is_target(groups, posts, Target::Path(path)) ==> exists|i: int|
            0 <= i < rows.len() && (#[trigger] rows[i]).path == path
}

/// Where page loads go, as it is computed.
enum Goes {
    Nowhere,
    Post(i32),
    Path(String),
}

impl Goes {
    spec fn target(self) -> Target {
        match self {
            Goes::Nowhere => Target::Nowhere,
            Goes::Post(id) => Target::Post(id),
            Goes::Path(p) => Target::Path(p@),
        }
    }

    fn is_post(&self, id: i32) -> (r: bool)
        ensures
            r == (self.target() == Target::Post(id)),
    {
        match self {
            Goes::Post(k) => *k == id,
            _ => false,
        }
    }

    fn is_path(&self, path: &str) -> (r: bool)
        ensures
            r == (self.target() == Target::Path(path@)),
    {
        match self {
            Goes::Path(p) => same(p.as_str(), path),
            _ => false,
        }
    }
}

/// The last of `posts` with this slug, by its id.
fn find_post(posts: &Vec<post::Model>, slug: &str) -> (r: Option<i32>)
    ensures
        match r {
            Some(id) => post_for(rows_view(posts@), slug@) matches Some(p) && p.id == id,
            None => post_for(rows_view(posts@), slug@) is None,
        },
{
    let ghost all = rows_view(posts@);
    let mut n: usize = posts.len();
    assert(all.take(n as int) =~= all);
    while n > 0
        invariant
            n <= posts@.len(),
            all == rows_view(posts@),
            post_for(all, slug@) == post_for(all.take(n as int), slug@),
        decreases n,
    {
        proof {
            assert(all.take(n as int).last() == posts@[n - 1]@);
            assert(all.take(n as int).drop_last() =~= all.take(n - 1));
        }
        if same(posts[n - 1].slug.as_str(), slug) {
            return Some(posts[n - 1].id);
        }
        n = n - 1;
    }
    None
}

/// Where these page loads go.
fn route(group: &PageloadGroup, posts: &Vec<post::Model>) -> (r: Goes)
    ensures
        r.target() == target_of(group@, rows_view(posts@)),
{
    match &group.dimensions {
        None => Goes::Nowhere,
        Some(dims) => match &dims.request_path {
            None => Goes::Nowhere,
            Some(path) => match path_slug(path.as_str()) {
                None => Goes::Path(path.clone()),
                Some(slug) => match find_post(posts, slug) {
                    Some(id) => Goes::Post(id),
                    None => Goes::Path(path.clone()),
                },
            },
        },
    }
}

/// Where each of the groups goes.
fn route_all(groups: &Vec<PageloadGroup>, posts: &Vec<post::Model>) -> (out: Vec<Goes>)
    ensures
        out@.len() == groups@.len(),
        forall|i: int|
            0 <= i < out@.len() ==> (#[trigger] out@[i]).target() == target_of(
                rows_view(groups@)[i],
                rows_view(posts@),
            ),
{
    let mut out: Vec<Goes> = Vec::new();
    let mut i: usize = 0;
    while i < groups.len()
        invariant
            i <= groups@.len(),
            out@.len() == i,
            forall|j: int|
                0 <= j < i ==> (#[trigger] out@[j]).target() == target_of(
                    rows_view(groups@)[j],
                    rows_view(posts@),
                ),
        decreases groups@.len() - i,
    {
        out.push(route(&groups[i], posts));
        i = i + 1;
    }
    out
}

fn views_of(group: &PageloadGroup) -> (n: u64)
    ensures
        n == group@.views,
{
    match group.count {
        Some(n) => n,
        None => 0,
    }
}

fn visits_of(group: &PageloadGroup) -> (n: u64)
    ensures
        n == group@.visits,
{
    match &group.sum {
        Some(s) => match s.visits {
            Some(n) => n,
            None => 0,
        },
        None => 0,
    }
}

fn is_on(group: &PageloadGroup, date: &str) -> (r: bool)
    ensures
        r == (group@.date == Some(date@)),
{
    match &group.dimensions {
        Some(d) => match &d.date {
            Some(t) => same(t.as_str(), date),
            None => false,
        },
        None => false,
    }
}

/// Whether the figures can be counted up without running out of numbers.
pub fn can_count(groups: &Vec<PageloadGroup>) -> (r: bool)
    ensures
        r == countable(rows_view(groups@)),
{
    let ghost gs = rows_view(groups@);
    let mut views: u64 = 0;
    let mut visits: u64 = 0;
    let mut i: usize = 0;
    assert(gs.take(0) =~= Seq::<Pageloads>::empty());
    while i < groups.len()
        invariant
            i <= groups@.len(),
            gs == rows_view(groups@),
            views == tally(gs.take(i as int), has_path(), false),
            visits == tally(gs.take(i as int), has_path(), true),
        decreases groups@.len() - i,
    {
        let g: &PageloadGroup = &groups[i];
        proof {
            assert(gs.take(i + 1).drop_last() =~= gs.take(i as int));
            assert(gs.take(i + 1).last() == g@);
            lemma_tally_grows(gs, i + 1, has_path(), false);
            lemma_tally_grows(gs, i + 1, has_path(), true);
        }
        let counts: bool = match &g.dimensions {
            Some(d) => d.request_path.is_some(),
            None => false,
        };
        if counts {
            let (a, b) = (views_of(g), visits_of(g));
            if views as u128 + a as u128 > u64::MAX as u128 || visits as u128 + b as u128
                > u64::MAX as u128 {
                return false;
            }
            views = views + a;
            visits = visits + b;
        }
        i = i + 1;
    }
    assert(gs.take(i as int) =~= gs);
    true
}

/// The views of all page loads that have a path.
fn count_all(groups: &Vec<PageloadGroup>) -> (n: u64)
    requires
        countable(rows_view(groups@)),
    ensures
        n == tally(rows_view(groups@), has_path(), false),
{
    let ghost gs = rows_view(groups@);
    let mut total: u64 = 0;
    let mut i: usize = 0;
    assert(gs.take(0) =~= Seq::<Pageloads>::empty());
    while i < groups.len()
        invariant
            i <= groups@.len(),
            gs == rows_view(groups@),
            countable(gs),
            total == tally(gs.take(i as int), has_path(), false),
        decreases groups@.len() - i,
    {
        let g: &PageloadGroup = &groups[i];
        proof {
            assert(gs.take(i + 1).drop_last() =~= gs.take(i as int));
            assert(gs.take(i + 1).last() == g@);
            lemma_tally_grows(gs, i + 1, has_path(), false);
        }
        let counts: bool = match &g.dimensions {
            Some(d) => d.request_path.is_some(),
            None => false,
        };
        if counts {
            total = total + views_of(g);
        }
        i = i + 1;
    }
    assert(gs.take(i as int) =~= gs);
    total
}

/// What goes to the post with this id: views and visits.
fn count_post(
    groups: &Vec<PageloadGroup>,
    goes: &Vec<Goes>,
    id: i32,
    Ghost(posts): Ghost<Seq<PostRow>>,
) -> (r: (u64, u64))
    requires
        countable(rows_view(groups@)),
        goes@.len() == groups@.len(),
        forall|i: int|
            0 <= i < goes@.len() ==> (#[trigger] goes@[i]).target() == target_of(
                rows_view(groups@)[i],
                posts,
            ),
    ensures
        r.0 == tally(rows_view(groups@), goes_to(posts, Target::Post(id)), false),
        r.1 == tally(rows_view(groups@), goes_to(posts, Target::Post(id)), true),
{
    let ghost gs = rows_view(groups@);
    let ghost p = goes_to(posts, Target::Post(id));
    let mut views: u64 = 0;
    let mut visits: u64 = 0;
    let mut i: usize = 0;
    assert(gs.take(0) =~= Seq::<Pageloads>::empty());
    while i < groups.len()
        invariant
            i <= groups@.len(),
            goes@.len() == groups@.len(),
            gs == rows_view(groups@),
            p == goes_to(posts, Target::Post(id)),
            countable(gs),
            forall|j: int|
                0 <= j < goes@.len() ==> (#[trigger] goes@[j]).target() == target_of(gs[j], posts),
            views == tally(gs.take(i as int), p, false),
            visits == tally(gs.take(i as int), p, true),
        decreases groups@.len() - i,
    {
        proof {
            assert(gs.take(i + 1).drop_last() =~= gs.take(i as int));
            assert(gs.take(i + 1).last() == gs[i as int]);
            assert(goes@[i as int].target() == target_of(gs[i as int], posts));
            lemma_tally_within(gs.take(i + 1), p, has_path(), false);
            lemma_tally_within(gs.take(i + 1), p, has_path(), true);
            lemma_tally_grows(gs, i + 1, has_path(), false);
            lemma_tally_grows(gs, i + 1, has_path(), true);
        }
        if goes[i].is_post(id) {
            views = views + views_of(&groups[i]);
            visits = visits + visits_of(&groups[i]);
        }
        i = i + 1;
    }
    assert(gs.take(i as int) =~= gs);
    (views, visits)
}

/// What goes to the post with this id on one day.
fn count_post_on(
    groups: &Vec<PageloadGroup>,
    goes: &Vec<Goes>,
    id: i32,
    date: &str,
    Ghost(posts): Ghost<Seq<PostRow>>,
) -> (n: u64)
    requires
        countable(rows_view(groups@)),
        goes@.len() == groups@.len(),
        forall|i: int|
            0 <= i < goes@.len() ==> (#[trigger] goes@[i]).target() == target_of(
                rows_view(groups@)[i],
                posts,
            ),
    ensures
        n == tally(rows_view(groups@), goes_to_on(posts, Target::Post(id), date@), false),
{
    let ghost gs = rows_view(groups@);
    let ghost p = goes_to_on(posts, Target::Post(id), date@);
    let mut views: u64 = 0;
    let mut i: usize = 0;
    assert(gs.take(0) =~= Seq::<Pageloads>::empty());
    while i < groups.len()
        invariant
            i <= groups@.len(),
            goes@.len() == groups@.len(),
            gs == rows_view(groups@),
            p == goes_to_on(posts, Target::Post(id), date@),
            countable(gs),
            forall|j: int|
                0 <= j < goes@.len() ==> (#[trigger] goes@[j]).target() == target_of(gs[j], posts),
            views == tally(gs.take(i as int), p, false),
        decreases groups@.len() - i,
    {
        proof {
            assert(gs.take(i + 1).drop_last() =~= gs.take(i as int));
            assert(gs.take(i + 1).last() == gs[i as int]);
            assert(goes@[i as int].target() == target_of(gs[i as int], posts));
            lemma_tally_within(gs.take(i + 1), p, has_path(), false);
            lemma_tally_grows(gs, i + 1, has_path(), false);
        }
        if goes[i].is_post(id) && is_on(&groups[i], date) {
            views = views + views_of(&groups[i]);
        }
        i = i + 1;
    }
    assert(gs.take(i as int) =~= gs);
    views
}

/// What goes to this path.
fn count_path(
    groups: &Vec<PageloadGroup>,
    goes: &Vec<Goes>,
    path: &str,
    Ghost(posts): Ghost<Seq<PostRow>>,
) -> (n: u64)
    requires
        countable(rows_view(groups@)),
        goes@.len() == groups@.len(),
        forall|i: int|
            0 <= i < goes@.len() ==> (#[trigger] goes@[i]).target() == target_of(
                rows_view(groups@)[i],
                posts,
            ),
    ensures
        n == tally(rows_view(groups@), goes_to(posts, Target::Path(path@)), false),
{
    let ghost gs = rows_view(groups@);
    let ghost p = goes_to(posts, Target::Path(path@));
    let mut views: u64 = 0;
    let mut i: usize = 0;
    assert(gs.take(0) =~= Seq::<Pageloads>::empty());
    while i < groups.len()
        invariant
            i <= groups@.len(),
            goes@.len() == groups@.len(),
            gs == rows_view(groups@),
            p == goes_to(posts, Target::Path(path@)),
            countable(gs),
            forall|j: int|
                0 <= j < goes@.len() ==> (#[trigger] goes@[j]).target() == target_of(gs[j], posts),
            views == tally(gs.take(i as int), p, false),
        decreases groups@.len() - i,
    {
        proof {
            assert(gs.take(i + 1).drop_last() =~= gs.take(i as int));
            assert(gs.take(i + 1).last() == gs[i as int]);
            assert(goes@[i as int].target() == target_of(gs[i as int], posts));
            lemma_tally_within(gs.take(i + 1), p, has_path(), false);
            lemma_tally_grows(gs, i + 1, has_path(), false);
        }
        if goes[i].is_path(path) {
            views = views + views_of(&groups[i]);
        }
        i = i + 1;
    }
    assert(gs.take(i as int) =~= gs);
    views
}

/// The first of `posts` with this id.
fn post_by_id(posts: &Vec<post::Model>, id: i32) -> (r: usize)
    requires
        exists|i: int| 0 <= i < posts@.len() && (#[trigger] posts@[i]).id == id,
    ensures
        r < posts@.len(),
        posts@[r as int]@ == first_with_id(rows_view(posts@), id),
{
    let ghost all = rows_view(posts@);
    let mut i: usize = 0;
    assert(all.skip(0) =~= all);
    while i < posts.len() - 1 && posts[i].id != id
        invariant
            i < posts@.len(),
            all == rows_view(posts@),
            first_with_id(all, id) == first_with_id(all.skip(i as int), id),
        decreases posts@.len() - i,
    {
        proof {
            assert(all.skip(i as int)[0] == posts@[i as int]@);
            assert(all.skip(i as int).drop_first() =~= all.skip(i + 1));
        }
        i = i + 1;
    }
    assert(all.skip(i as int)[0] == posts@[i as int]@);
    i
}

proof fn lemma_target_is_a_post(posts: Seq<PostRow>, slug: Seq<char>)
    ensures
        post_for(posts, slug) matches Some(p) ==> exists|i: int|
            0 <= i < posts.len() && (#[trigger] posts[i]).id == p.id,
    decreases posts.len(),
{
    if posts.len() > 0 {
        if posts.last().slug == slug {
            assert(posts[posts.len() - 1].id == posts.last().id);
        } else {
            lemma_target_is_a_post(posts.drop_last(), slug);
            if let Some(p) = post_for(posts.drop_last(), slug) {
                let i = choose|i: int|
                    0 <= i < posts.drop_last().len() && (#[trigger] posts.drop_last()[i]).id
                        == p.id;
                assert(posts[i].id == p.id);
            }
        }
    }
}

/// What is said of the post with this id.
fn post_traffic(
    groups: &Vec<PageloadGroup>,
    goes: &Vec<Goes>,
    posts: &Vec<post::Model>,
    dates: &Vec<String>,
    id: i32,
) -> (r: PostTraffic)
    requires
        countable(rows_view(groups@)),
        goes@.len() == groups@.len(),
        forall|i: int|
            0 <= i < goes@.len() ==> (#[trigger] goes@[i]).target() == target_of(
                rows_view(groups@)[i],
                rows_view(posts@),
            ),
        exists|i: int| 0 <= i < posts@.len() && (#[trigger] posts@[i]).id == id,
    ensures
        r@ == traffic_of(rows_view(groups@), rows_view(posts@), views(dates@), id),
{
    let ghost gs = rows_view(groups@);
    let ghost ps = rows_view(posts@);
    let ghost to = Target::Post(id);
    let ghost f = |d: Seq<char>|
        DayRow { date: d, views: tally(gs, goes_to_on(ps, to, d), false) as u64 };
    let post: &post::Model = &posts[post_by_id(posts, id)];
    let (seen, visits) = count_post(groups, goes, id, Ghost(ps));
    let mut days: Vec<DailyViews> = Vec::new();
    let mut i: usize = 0;
    assert(rows_view(days@) =~= views(dates@).map_values(f).take(0));
    while i < dates.len()
        invariant
            i <= dates@.len(),
            gs == rows_view(groups@),
            ps == rows_view(posts@),
            to == Target::Post(id),
            f == (|d: Seq<char>|
                DayRow { date: d, views: tally(gs, goes_to_on(ps, to, d), false) as u64 }),
            countable(gs),
            goes@.len() == groups@.len(),
            forall|j: int|
                0 <= j < goes@.len() ==> (#[trigger] goes@[j]).target() == target_of(
                    rows_view(groups@)[j],
                    ps,
                ),
            rows_view(days@) == views(dates@).map_values(f).take(i as int),
        decreases dates@.len() - i,
    {
        let ghost before = rows_view(days@);
        let n: u64 = count_post_on(groups, goes, id, dates[i].as_str(), Ghost(ps));
        let day = DailyViews { date: dates[i].clone(), views: n };
        let ghost v = day@;
        days.push(day);
        proof {
            assert(rows_view(days@) =~= before.push(v));
            assert(v == f(views(dates@)[i as int]));
        }
        i = i + 1;
        assert(rows_view(days@) =~= views(dates@).map_values(f).take(i as int));
    }
    assert(views(dates@).map_values(f).take(i as int) =~= views(dates@).map_values(f));
    PostTraffic {
        id,
        slug: post.slug.clone(),
        title: post.title.clone(),
        published: post.published,
        views: seen,
        visits,
        days,
    }
}

/// The posts that were read, most-read first.
fn rank_posts(
    groups: &Vec<PageloadGroup>,
    goes: &Vec<Goes>,
    posts: &Vec<post::Model>,
    dates: &Vec<String>,
) -> (out: Vec<PostTraffic>)
    requires
        countable(rows_view(groups@)),
        goes@.len() == groups@.len(),
        forall|i: int|
            0 <= i < goes@.len() ==> (#[trigger] goes@[i]).target() == target_of(
                rows_view(groups@)[i],
                rows_view(posts@),
            ),
    ensures
        ranks_posts(
            rows_view(out@),
            rows_view(groups@),
            rows_view(posts@),
            views(dates@),
        ),
{
    let ghost gs = rows_view(groups@);
    let ghost ps = rows_view(posts@);
    let ghost ds = views(dates@);
    let mut found: Vec<PostTraffic> = Vec::new();
    let mut i: usize = 0;
    while i < groups.len()
        invariant
            i <= groups@.len(),
            gs == rows_view(groups@),
            ps == rows_view(posts@),
            ds == views(dates@),
            countable(gs),
            goes@.len() == groups@.len(),
            forall|j: int|
                0 <= j < goes@.len() ==> (#[trigger] goes@[j]).target() == target_of(
                    rows_view(groups@)[j],
                    ps,
                ),
            forall|a: int, b: int|
                0 <= a < b < found@.len() ==> rows_view(found@)[a].id != rows_view(found@)[b].id,
            forall|a: int|
                0 <= a < found@.len() ==> {
                    &&& is_target(gs, ps, Target::Post((#[trigger] rows_view(found@)[a]).id))
                    &&& rows_view(found@)[a] == traffic_of(gs, ps, ds, rows_view(found@)[a].id)
                },
            forall|j: int|
                0 <= j < i ==> (target_of(#[trigger] gs[j], ps) matches Target::Post(id) ==> exists|
                    a: int,
                |
                    0 <= a < found@.len() && (#[trigger] rows_view(found@)[a]).id == id),
        decreases groups@.len() - i,
    {
        let ghost before = rows_view(found@);
        match &goes[i] {
            Goes::Post(k) => {
                let id: i32 = *k;
                assert(goes@[i as int].target() == Target::Post(id));
                let mut seen: bool = false;
                let mut a: usize = 0;
                while a < found.len()
                    invariant
                        a <= found@.len(),
                        before == rows_view(found@),
                        seen <==> exists|b: int|
                            0 <= b < a && (#[trigger] before[b]).id == id,
                    decreases found@.len() - a,
                {
                    if found[a].id == id {
                        assert(before[a as int].id == id);
                        seen = true;
                    }
                    a = a + 1;
                }
                if !seen {
                    proof {
                        assert(target_of(gs[i as int], ps) == Target::Post(id));
                        let slug = slug_of_path(gs[i as int].path->0)->0;
                        lemma_target_is_a_post(ps, slug);
                        let p = choose|p: int| 0 <= p < ps.len() && (#[trigger] ps[p]).id == id;
                        assert(posts@[p].id == id);
                    }
                    let row: PostTraffic = post_traffic(groups, goes, posts, dates, id);
                    let ghost v = row@;
                    found.push(row);
                    proof {
                        assert(rows_view(found@) =~= before.push(v));
                        assert(is_target(gs, ps, Target::Post(id)));
                        assert(rows_view(found@)[before.len() as int].id == id);
                    }
                }
                proof {
                    assert forall|j: int| 0 <= j < i + 1 implies (target_of(
                        #[trigger] gs[j],
                        ps,
                    ) matches Target::Post(id2) ==> exists|b: int|
                        0 <= b < found@.len() && (#[trigger] rows_view(found@)[b]).id == id2) by {
                        if let Target::Post(id2) = target_of(gs[j], ps) {
                            if j < i {
                                let b = choose|b: int|
                                    0 <= b < before.len() && (#[trigger] before[b]).id == id2;
                                assert(rows_view(found@)[b].id == id2);
                            } else if seen {
                                let b = choose|b: int|
                                    0 <= b < before.len() && (#[trigger] before[b]).id == id;
                                assert(rows_view(found@)[b].id == id2);
                            } else {
                                assert(rows_view(found@)[before.len() as int].id == id2);
                            }
                        }
                    }
                }
            },
            _ => {
                assert(!(target_of(gs[i as int], ps) is Post));
            },
        }
        i = i + 1;
    }
    let ghost f = rows_view(found@);
    let out: Vec<PostTraffic> = sort::<PostTraffic, MostRead>(found);
    proof {
        let o = rows_view(out@);
        lemma_rearranged(f, o);
        lemma_distinct_ids(f, o);
        assert forall|a: int| 0 <= a < o.len() implies {
            &&& is_target(gs, ps, Target::Post((#[trigger] o[a]).id))
            &&& o[a] == traffic_of(gs, ps, ds, o[a].id)
        } by {
            assert(o.contains(o[a]));
            let b = choose|b: int| 0 <= b < f.len() && f[b] == o[a];
            assert(is_target(gs, ps, Target::Post(f[b].id)));
        }
        assert forall|id: i32| #[trigger] is_target(gs, ps, Target::Post(id)) implies exists|
            a: int,
        |
            0 <= a < o.len() && (#[trigger] o[a]).id == id by {
            let j = choose|j: int|
                0 <= j < gs.len() && target_of(#[trigger] gs[j], ps) == Target::Post(id);
            let b = choose|b: int| 0 <= b < f.len() && (#[trigger] f[b]).id == id;
            assert(f.contains(f[b]));
            let a = choose|a: int| 0 <= a < o.len() && o[a] == f[b];
            assert(o[a].id == id);
        }
    }
    out
}

/// A rearrangement holds the same rows.
proof fn lemma_rearranged<A>(a: Seq<A>, b: Seq<A>)
    requires
        a.to_multiset() == b.to_multiset(),
    ensures
        forall|v: A| #[trigger] a.contains(v) <==> b.contains(v),
        forall|v: A| #[trigger] b.contains(v) <==> a.contains(v),
        a.no_duplicates() ==> b.no_duplicates(),
{
    assert forall|v: A| #[trigger] a.contains(v) <==> b.contains(v) by {
        vstd::seq_lib::to_multiset_contains(a, v);
        vstd::seq_lib::to_multiset_contains(b, v);
    }
    assert forall|v: A| #[trigger] b.contains(v) <==> a.contains(v) by {
        vstd::seq_lib::to_multiset_contains(a, v);
        vstd::seq_lib::to_multiset_contains(b, v);
    }
    if a.no_duplicates() {
        a.lemma_multiset_has_no_duplicates();
        b.lemma_multiset_has_no_duplicates_conv();
    }
}

proof fn lemma_distinct_ids(f: Seq<TrafficRow>, o: Seq<TrafficRow>)
    requires
        f.to_multiset() == o.to_multiset(),
        forall|a: int, b: int| 0 <= a < b < f.len() ==> f[a].id != f[b].id,
    ensures
        forall|a: int, b: int| 0 <= a < b < o.len() ==> o[a].id != o[b].id,
{
    lemma_rearranged(f, o);
    assert(f.no_duplicates());
    assert forall|a: int, b: int| 0 <= a < b < o.len() implies o[a].id != o[b].id by {
        assert(o.contains(o[a]) && o.contains(o[b]));
        let x = choose|x: int| 0 <= x < f.len() && f[x] == o[a];
        let y = choose|y: int| 0 <= y < f.len() && f[y] == o[b];
        assert(o[a] != o[b]);
        if x < y {
            assert(f[x].id != f[y].id);
        } else {
            assert(f[y].id != f[x].id);
        }
    }
}

proof fn lemma_distinct_paths(f: Seq<PathRow>, o: Seq<PathRow>)
    requires
        f.to_multiset() == o.to_multiset(),
        forall|a: int, b: int| 0 <= a < b < f.len() ==> f[a].path != f[b].path,
    ensures
        forall|a: int, b: int| 0 <= a < b < o.len() ==> o[a].path != o[b].path,
{
    lemma_rearranged(f, o);
    assert(f.no_duplicates());
    assert forall|a: int, b: int| 0 <= a < b < o.len() implies o[a].path != o[b].path by {
        assert(o.contains(o[a]) && o.contains(o[b]));
        let x = choose|x: int| 0 <= x < f.len() && f[x] == o[a];
        let y = choose|y: int| 0 <= y < f.len() && f[y] == o[b];
        assert(o[a] != o[b]);
        if x < y {
            assert(f[x].path != f[y].path);
        } else {
            assert(f[y].path != f[x].path);
        }
    }
}

/// The paths that belong to no post, most-read first.
fn rank_paths(
    groups: &Vec<PageloadGroup>,
    goes: &Vec<Goes>,
    Ghost(ps): Ghost<Seq<PostRow>>,
) -> (out: Vec<UnattributedPath>)
    requires
        countable(rows_view(groups@)),
        goes@.len() == groups@.len(),
        forall|i: int|
            0 <= i < goes@.len() ==> (#[trigger] goes@[i]).target() == target_of(
                rows_view(groups@)[i],
                ps,
            ),
    ensures
        ranks_paths(rows_view(out@), rows_view(groups@), ps),
{
    let ghost gs = rows_view(groups@);
    let mut found: Vec<UnattributedPath> = Vec::new();
    let mut i: usize = 0;
    while i < groups.len()
        invariant
            i <= groups@.len(),
            gs == rows_view(groups@),
            countable(gs),
            goes@.len() == groups@.len(),
            forall|j: int|
                0 <= j < goes@.len() ==> (#[trigger] goes@[j]).target() == target_of(
                    rows_view(groups@)[j],
                    ps,
                ),
            forall|a: int, b: int|
                0 <= a < b < found@.len() ==> rows_view(found@)[a].path
                    != rows_view(found@)[b].path,
            forall|a: int|
                0 <= a < found@.len() ==> {
                    &&& is_target(gs, ps, Target::Path((#[trigger] rows_view(found@)[a]).path))
                    &&& rows_view(found@)[a] == path_row(gs, ps, rows_view(found@)[a].path)
                },
            forall|j: int|
                0 <= j < i ==> (target_of(#[trigger] gs[j], ps) matches Target::Path(path)
                    ==> exists|a: int|
                    0 <= a < found@.len() && (#[trigger] rows_view(found@)[a]).path == path),
        decreases groups@.len() - i,
    {
        let ghost before = rows_view(found@);
        match &goes[i] {
            Goes::Path(path) => {
                assert(goes@[i as int].target() == Target::Path(path@));
                let mut seen: bool = false;
                let mut a: usize = 0;
                while a < found.len()
                    invariant
                        a <= found@.len(),
                        before == rows_view(found@),
                        seen <==> exists|b: int|
                            0 <= b < a && (#[trigger] before[b]).path == path@,
                    decreases found@.len() - a,
                {
                    if same(found[a].path.as_str(), path.as_str()) {
                        assert(before[a as int].path == path@);
                        seen = true;
                    }
                    a = a + 1;
                }
                if !seen {
                    let row = UnattributedPath {
                        path: path.clone(),
                        views: count_path(groups, goes, path.as_str(), Ghost(ps)),
                    };
                    let ghost v = row@;
                    found.push(row);
                    proof {
                        assert(rows_view(found@) =~= before.push(v));
                        assert(target_of(gs[i as int], ps) == Target::Path(path@));
                        assert(is_target(gs, ps, Target::Path(path@)));
                        assert(rows_view(found@)[before.len() as int].path == path@);
                    }
                }
                proof {
                    assert forall|j: int| 0 <= j < i + 1 implies (target_of(
                        #[trigger] gs[j],
                        ps,
                    ) matches Target::Path(p2) ==> exists|b: int|
                        0 <= b < found@.len() && (#[trigger] rows_view(found@)[b]).path == p2) by {
                        if let Target::Path(p2) = target_of(gs[j], ps) {
                            if j < i {
                                let b = choose|b: int|
                                    0 <= b < before.len() && (#[trigger] before[b]).path == p2;
                                assert(rows_view(found@)[b].path == p2);
                            } else if seen {
                                let b = choose|b: int|
                                    0 <= b < before.len() && (#[trigger] before[b]).path == path@;
                                assert(rows_view(found@)[b].path == p2);
                            } else {
                                assert(rows_view(found@)[before.len() as int].path == p2);
                            }
                        }
                    }
                }
            },
            _ => {
                assert(!(target_of(gs[i as int], ps) is Path));
            },
        }
        i = i + 1;
    }
    let ghost f = rows_view(found@);
    let out: Vec<UnattributedPath> = sort::<UnattributedPath, MostReadPaths>(found);
    proof {
        let o = rows_view(out@);
        lemma_rearranged(f, o);
        lemma_distinct_paths(f, o);
        assert forall|a: int| 0 <= a < o.len() implies {
            &&& is_target(gs, ps, Target::Path((#[trigger] o[a]).path))
            &&& o[a] == path_row(gs, ps, o[a].path)
        } by {
            assert(o.contains(o[a]));
            let b = choose|b: int| 0 <= b < f.len() && f[b] == o[a];
            assert(is_target(gs, ps, Target::Path(f[b].path)));
        }
        assert forall|path: Seq<char>| #[trigger]
            is_target(gs, ps, Target::Path(path)) implies exists|a: int|
            0 <= a < o.len() && (#[trigger] o[a]).path == path by {
            let j = choose|j: int|
                0 <= j < gs.len() && target_of(#[trigger] gs[j], ps) == Target::Path(path);
            let b = choose|b: int| 0 <= b < f.len() && (#[trigger] f[b]).path == path;
            assert(f.contains(f[b]));
            let a = choose|a: int| 0 <= a < o.len() && o[a] == f[b];
            assert(o[a].path == path);
        }
    }
    out
}

/// Attributes page loads to posts, and keeps what belongs to none: the posts
/// that were read, the paths that were, and the views of both.
pub fn attribute(
    groups: &Vec<PageloadGroup>,
    posts: &Vec<post::Model>,
    dates: &Vec<String>,
) -> (r: (Vec<PostTraffic>, Vec<UnattributedPath>, u64))
    requires
        countable(rows_view(groups@)),
    ensures
        ranks_posts(
            rows_view(r.0@),
            rows_view(groups@),
            rows_view(posts@),
            views(dates@),
        ),
        ranks_paths(rows_view(r.1@), rows_view(groups@), rows_view(posts@)),
        r.2 == tally(rows_view(groups@), has_path(), false),
{
    let goes: Vec<Goes> = route_all(groups, posts);
    let ranked: Vec<PostTraffic> = rank_posts(groups, &goes, posts, dates);
    let rest: Vec<UnattributedPath> = rank_paths(groups, &goes, Ghost(rows_view(posts@)));
    (ranked, rest, count_all(groups))
}

// ─── The report ─────────────────────────────────────────────────────────────

/// What the posts of a ranking were read together.
pub open spec fn sum_posts(rows: Seq<TrafficRow>) -> nat
    decreases rows.len(),
{
    if rows.len() == 0 {
        0
    } else {
        sum_posts(rows.drop_last()) + rows.last().views as nat
    }
}

/// What the paths of a ranking were read together.
pub open spec fn sum_paths(rows: Seq<PathRow>) -> nat
    decreases rows.len(),
{
    if rows.len() == 0 {
        0
    } else {
        sum_paths(rows.drop_last()) + rows.last().views as nat
    }
}

/// Page loads that go to one of the first `n` posts of a ranking.
spec fn goes_to_posts(ps: Seq<PostRow>, rows: Seq<TrafficRow>) -> spec_fn(Pageloads) -> bool {
    |g: Pageloads|
        exists|i: int|
            0 <= i < rows.len() && target_of(g, ps) == Target::Post((#[trigger] rows[i]).id)
}

spec fn goes_to_paths(ps: Seq<PostRow>, rows: Seq<PathRow>) -> spec_fn(Pageloads) -> bool {
    |g: Pageloads|
        exists|i: int|
            0 <= i < rows.len() && target_of(g, ps) == Target::Path((#[trigger] rows[i]).path)
}

proof fn lemma_sum_posts(gs: Seq<Pageloads>, ps: Seq<PostRow>, rows: Seq<TrafficRow>)
    requires
        countable(gs),
        forall|i: int, j: int| 0 <= i < j < rows.len() ==> rows[i].id != rows[j].id,
        forall|i: int|
            0 <= i < rows.len() ==> (#[trigger] rows[i]).views == tally(
                gs,
                goes_to(ps, Target::Post(rows[i].id)),
                false,
            ) as u64,
    ensures
        sum_posts(rows) == tally(gs, goes_to_posts(ps, rows), false),
    decreases rows.len(),
{
    let all = goes_to_posts(ps, rows);
    if rows.len() == 0 {
        lemma_tally_none(gs, all, false);
    } else {
        let rest = rows.drop_last();
        let last = rows.last();
        assert forall|i: int| 0 <= i < rest.len() implies (#[trigger] rest[i]).views == tally(
            gs,
            goes_to(ps, Target::Post(rest[i].id)),
            false,
        ) as u64 by {
            assert(rest[i] == rows[i]);
        }
        lemma_sum_posts(gs, ps, rest);
        let p = goes_to_posts(ps, rest);
        let q = goes_to(ps, Target::Post(last.id));
        assert forall|g: Pageloads| #[trigger] all(g) <==> p(g) || q(g) by {
            if p(g) {
                let i = choose|i: int|
                    0 <= i < rest.len() && target_of(g, ps) == Target::Post(
                        (#[trigger] rest[i]).id,
                    );
                assert(rows[i] == rest[i]);
            }
            if q(g) {
                assert(rows[rows.len() - 1].id == last.id);
            }
            if all(g) && !q(g) {
                let i = choose|i: int|
                    0 <= i < rows.len() && target_of(g, ps) == Target::Post(
                        (#[trigger] rows[i]).id,
                    );
                assert(i < rest.len());
                assert(rest[i] == rows[i]);
            }
        }
        assert forall|g: Pageloads| !(#[trigger] p(g) && q(g)) by {
            if p(g) && q(g) {
                let i = choose|i: int|
                    0 <= i < rest.len() && target_of(g, ps) == Target::Post(
                        (#[trigger] rest[i]).id,
                    );
                assert(rows[i].id != rows[rows.len() - 1].id);
            }
        }
        lemma_tally_disjoint(gs, p, q, all, false);
        lemma_tally_within(gs, q, has_path(), false);
        assert(rows[rows.len() - 1] == last);
    }
}

proof fn lemma_sum_paths(gs: Seq<Pageloads>, ps: Seq<PostRow>, rows: Seq<PathRow>)
    requires
        countable(gs),
        forall|i: int, j: int| 0 <= i < j < rows.len() ==> rows[i].path != rows[j].path,
        forall|i: int|
            0 <= i < rows.len() ==> (#[trigger] rows[i]) == path_row(gs, ps, rows[i].path),
    ensures
        sum_paths(rows) == tally(gs, goes_to_paths(ps, rows), false),
    decreases rows.len(),
{
    let all = goes_to_paths(ps, rows);
    if rows.len() == 0 {
        lemma_tally_none(gs, all, false);
    } else {
        let rest = rows.drop_last();
        let last = rows.last();
        assert forall|i: int| 0 <= i < rest.len() implies (#[trigger] rest[i]) == path_row(
            gs,
            ps,
            rest[i].path,
        ) by {
            assert(rest[i] == rows[i]);
        }
        lemma_sum_paths(gs, ps, rest);
        let p = goes_to_paths(ps, rest);
        let q = goes_to(ps, Target::Path(last.path));
        assert forall|g: Pageloads| #[trigger] all(g) <==> p(g) || q(g) by {
            if p(g) {
                let i = choose|i: int|
                    0 <= i < rest.len() && target_of(g, ps) == Target::Path(
                        (#[trigger] rest[i]).path,
                    );
                assert(rows[i] == rest[i]);
            }
            if q(g) {
                assert(rows[rows.len() - 1].path == last.path);
            }
            if all(g) && !q(g) {
                let i = choose|i: int|
                    0 <= i < rows.len() && target_of(g, ps) == Target::Path(
                        (#[trigger] rows[i]).path,
                    );
                assert(i < rest.len());
                assert(rest[i] == rows[i]);
            }
        }
        assert forall|g: Pageloads| !(#[trigger] p(g) && q(g)) by {
            if p(g) && q(g) {
                let i = choose|i: int|
                    0 <= i < rest.len() && target_of(g, ps) == Target::Path(
                        (#[trigger] rest[i]).path,
                    );
                assert(rows[i].path != rows[rows.len() - 1].path);
            }
        }
        lemma_tally_disjoint(gs, p, q, all, false);
        lemma_tally_within(gs, q, has_path(), false);
        assert(rows[rows.len() - 1] == last);
    }
}

proof fn lemma_tally_none(gs: Seq<Pageloads>, p: spec_fn(Pageloads) -> bool, visits: bool)
    requires
        forall|g: Pageloads| !(#[trigger] p(g)),
    ensures
        tally(gs, p, visits) == 0,
    decreases gs.len(),
{
    if gs.len() > 0 {
        lemma_tally_none(gs.drop_last(), p, visits);
    }
}

/// The visits to the posts of a ranking together.
pub open spec fn sum_visits(rows: Seq<TrafficRow>) -> nat
    decreases rows.len(),
{
    if rows.len() == 0 {
        0
    } else {
        sum_visits(rows.drop_last()) + rows.last().visits as nat
    }
}

/// Page loads that go to a post.
pub open spec fn goes_to_a_post(posts: Seq<PostRow>) -> spec_fn(Pageloads) -> bool {
    |g: Pageloads| target_of(g, posts) is Post
}

proof fn lemma_sum_visits(gs: Seq<Pageloads>, ps: Seq<PostRow>, rows: Seq<TrafficRow>)
    requires
        countable(gs),
        forall|i: int, j: int| 0 <= i < j < rows.len() ==> rows[i].id != rows[j].id,
        forall|i: int|
            0 <= i < rows.len() ==> (#[trigger] rows[i]).visits == tally(
                gs,
                goes_to(ps, Target::Post(rows[i].id)),
                true,
            ),
    ensures
        sum_visits(rows) == tally(gs, goes_to_posts(ps, rows), true),
    decreases rows.len(),
{
    let all = goes_to_posts(ps, rows);
    if rows.len() == 0 {
        lemma_tally_none(gs, all, true);
    } else {
        let rest = rows.drop_last();
        let last = rows.last();
        assert forall|i: int| 0 <= i < rest.len() implies (#[trigger] rest[i]).visits == tally(
            gs,
            goes_to(ps, Target::Post(rest[i].id)),
            true,
        ) by {
            assert(rest[i] == rows[i]);
        }
        lemma_sum_visits(gs, ps, rest);
        let p = goes_to_posts(ps, rest);
        let q = goes_to(ps, Target::Post(last.id));
        assert forall|g: Pageloads| #[trigger] all(g) <==> p(g) || q(g) by {
            if p(g) {
                let i = choose|i: int|
                    0 <= i < rest.len() && target_of(g, ps) == Target::Post(
                        (#[trigger] rest[i]).id,
                    );
                assert(rows[i] == rest[i]);
            }
            if q(g) {
                assert(rows[rows.len() - 1].id == last.id);
            }
            if all(g) && !q(g) {
                let i = choose|i: int|
                    0 <= i < rows.len() && target_of(g, ps) == Target::Post(
                        (#[trigger] rows[i]).id,
                    );
                assert(i < rest.len());
                assert(rest[i] == rows[i]);
            }
        }
        assert forall|g: Pageloads| !(#[trigger] p(g) && q(g)) by {
            if p(g) && q(g) {
                let i = choose|i: int|
                    0 <= i < rest.len() && target_of(g, ps) == Target::Post(
                        (#[trigger] rest[i]).id,
                    );
                assert(rows[i].id != rows[rows.len() - 1].id);
            }
        }
        lemma_tally_disjoint(gs, p, q, all, true);
        assert(rows[rows.len() - 1] == last);
    }
}

/// The visits of a post are those of the page loads that go to it, and together they
/// are the visits of all that go to some post: none is lost, and none counted twice.
pub proof fn every_visit_to_a_post_is_counted(
    rows: Seq<TrafficRow>,
    groups: Seq<Pageloads>,
    posts: Seq<PostRow>,
    dates: Seq<Seq<char>>,
)
    requires
        countable(groups),
        ranks_posts(rows, groups, posts, dates),
    ensures
        forall|i: int|
            0 <= i < rows.len() ==> (#[trigger] rows[i]).visits == tally(
                groups,
                goes_to(posts, Target::Post(rows[i].id)),
                true,
            ),
        sum_visits(rows) == tally(groups, goes_to_a_post(posts), true),
{
    assert forall|i: int| 0 <= i < rows.len() implies (#[trigger] rows[i]).visits == tally(
        groups,
        goes_to(posts, Target::Post(rows[i].id)),
        true,
    ) by {
        assert(rows[i] == traffic_of(groups, posts, dates, rows[i].id));
        lemma_tally_within(
            groups,
            goes_to(posts, Target::Post(rows[i].id)),
            has_path(),
            true,
        );
    }
    lemma_sum_visits(groups, posts, rows);
    let p = goes_to_posts(posts, rows);
    assert forall|i: int| 0 <= i < groups.len() implies p(#[trigger] groups[i])
        == goes_to_a_post(posts)(groups[i]) by {
        match target_of(groups[i], posts) {
            Target::Post(id) => {
                assert(is_target(groups, posts, Target::Post(id)));
                let a = choose|a: int| 0 <= a < rows.len() && (#[trigger] rows[a]).id == id;
                assert(p(groups[i]));
            },
            _ => {},
        }
    }
    lemma_tally_same(groups, p, goes_to_a_post(posts), true);
}

/// Nothing is dropped: what went to posts and what went to no post is together
/// what there was.
pub proof fn every_view_is_reported(
    posts_rows: Seq<TrafficRow>,
    path_rows: Seq<PathRow>,
    groups: Seq<Pageloads>,
    posts: Seq<PostRow>,
    dates: Seq<Seq<char>>,
)
    requires
        countable(groups),
        ranks_posts(posts_rows, groups, posts, dates),
        ranks_paths(path_rows, groups, posts),
    ensures
        sum_posts(posts_rows) + sum_paths(path_rows) == tally(groups, has_path(), false),
{
    assert forall|i: int| 0 <= i < posts_rows.len() implies (#[trigger] posts_rows[i]).views
        == tally(groups, goes_to(posts, Target::Post(posts_rows[i].id)), false) as u64 by {
        assert(posts_rows[i] == traffic_of(groups, posts, dates, posts_rows[i].id));
    }
    lemma_sum_posts(groups, posts, posts_rows);
    lemma_sum_paths(groups, posts, path_rows);
    let p = goes_to_posts(posts, posts_rows);
    let q = goes_to_paths(posts, path_rows);
    let either = |g: Pageloads| p(g) || q(g);
    lemma_tally_disjoint(groups, p, q, either, false);
    assert forall|i: int| 0 <= i < groups.len() implies either(#[trigger] groups[i]) == has_path()(
        groups[i],
    ) by {
        let g = groups[i];
        match target_of(g, posts) {
            Target::Nowhere => {},
            Target::Post(id) => {
                assert(is_target(groups, posts, Target::Post(id)));
                let a = choose|a: int|
                    0 <= a < posts_rows.len() && (#[trigger] posts_rows[a]).id == id;
                assert(p(g));
            },
            Target::Path(path) => {
                assert(is_target(groups, posts, Target::Path(path)));
                let a = choose|a: int|
                    0 <= a < path_rows.len() && (#[trigger] path_rows[a]).path == path;
                assert(q(g));
            },
        }
    }
    lemma_tally_same(groups, either, has_path(), false);
}

proof fn lemma_sum_posts_grows(rows: Seq<TrafficRow>, n: int)
    requires
        0 <= n <= rows.len(),
    ensures
        sum_posts(rows.take(n)) <= sum_posts(rows),
    decreases rows.len() - n,
{
    if n < rows.len() {
        lemma_sum_posts_grows(rows, n + 1);
        assert(rows.take(n + 1).drop_last() =~= rows.take(n));
    } else {
        assert(rows.take(n) =~= rows);
    }
}

/// The report on a run of days.
pub fn report(
    groups: &Vec<PageloadGroup>,
    posts: &Vec<post::Model>,
    dates: Vec<String>,
) -> (r: TrafficReport)
    requires
        countable(rows_view(groups@)),
    ensures
        r.dates == dates,
        ranks_posts(
            rows_view(r.posts@),
            rows_view(groups@),
            rows_view(posts@),
            views(dates@),
        ),
        ranks_paths(rows_view(r.unattributed@), rows_view(groups@), rows_view(posts@)),
        r.total_views == tally(rows_view(groups@), has_path(), false),
        r.attributed_views == sum_posts(rows_view(r.posts@)),
        r.total_views == r.attributed_views + sum_paths(rows_view(r.unattributed@)),
{
    let (ranked, rest, total_views) = attribute(groups, posts, &dates);
    let ghost rows = rows_view(ranked@);
    proof {
        every_view_is_reported(
            rows,
            rows_view(rest@),
            rows_view(groups@),
            rows_view(posts@),
            views(dates@),
        );
    }
    let mut attributed_views: u64 = 0;
    let mut i: usize = 0;
    assert(rows.take(0) =~= Seq::<TrafficRow>::empty());
    while i < ranked.len()
        invariant
            i <= ranked@.len(),
            rows == rows_view(ranked@),
            sum_posts(rows) <= u64::MAX,
            attributed_views == sum_posts(rows.take(i as int)),
        decreases ranked@.len() - i,
    {
        proof {
            assert(rows.take(i + 1).drop_last() =~= rows.take(i as int));
            assert(rows.take(i + 1).last() == ranked@[i as int]@);
            lemma_sum_posts_grows(rows, i + 1);
        }
        attributed_views = attributed_views + ranked[i].views;
        i = i + 1;
    }
    assert(rows.take(i as int) =~= rows);
    TrafficReport { dates, posts: ranked, unattributed: rest, total_views, attributed_views }
}

/// Whether a site is chosen to read from, and the tag to ask with; what to say
/// where none is.
pub fn chosen_site(signed_in: bool, site_tag: &str) -> (r: Result<String, AnalyticsError>)
    ensures
        match r {
            Ok(tag) => signed_in && trimmed(site_tag@).len() > 0 && tag@ == trimmed(site_tag@),
            Err(e) => if signed_in {
                &&& trimmed(site_tag@).len() == 0
                &&& e.is_error(
                    ErrorKind::NotConfigured,
                    "No Web Analytics site is selected, so there is nothing to read readership from."@,
                )
            } else {
                e.is_error(ErrorKind::NotConfigured, "Not signed in to Cloudflare"@)
            },
        },
{
    if !signed_in {
        return Err(AnalyticsError::new(ErrorKind::NotConfigured, "Not signed in to Cloudflare"));
    }
    let tag: &str = trim(site_tag);
    if tag.is_empty() {
        return Err(
            AnalyticsError::new(
                ErrorKind::NotConfigured,
                "No Web Analytics site is selected, so there is nothing to read readership from.",
            ),
        );
    }
    Ok(tag.to_owned())
}

/// Where the sites of an account are listed.
pub fn sites_url(config: &CloudflareConfig) -> (out: String)
    ensures
        out@ == account_url(config.account_id@) + "/rum/site_info/list"@,
{
    let mut out: String = "https://api.cloudflare.com/client/v4/accounts/".to_owned();
    out.append(config.account_id.as_str());
    out.append("/rum/site_info/list");
    out
}

/// One more group of page loads adds its figure where it is picked, and changes
/// nothing where it is not.
pub proof fn a_group_adds_its_figure(
    groups: Seq<Pageloads>,
    g: Pageloads,
    pick: spec_fn(Pageloads) -> bool,
)
    ensures
        tally(groups.push(g), pick, false) == tally(groups, pick, false) + if pick(g) {
            g.views as nat
        } else {
            0
        },
        tally(groups.push(g), pick, true) == tally(groups, pick, true) + if pick(g) {
            g.visits as nat
        } else {
            0
        },
        tally(Seq::<Pageloads>::empty(), pick, false) == 0,
        tally(Seq::<Pageloads>::empty(), pick, true) == 0,
{
    assert(groups.push(g).drop_last() =~= groups);
}

/// Page loads go to the post whose slug their path ends in, live or not, wherever it
/// stands among the posts; to their own path where there is none; and nowhere without
/// a path.
pub proof fn page_loads_go_to_their_post(g: Pageloads, posts: Seq<PostRow>, i: int)
    requires
        forall|a: int, b: int| 0 <= a < b < posts.len() ==> posts[a].slug != posts[b].slug,
    ensures
        g.path is None <==> target_of(g, posts) is Nowhere,
        g.path is Some && 0 <= i < posts.len() && slug_of_path(g.path->0) == Some(posts[i].slug)
            ==> target_of(g, posts) == Target::Post(posts[i].id),
        g.path is Some && slug_of_path(g.path->0) is None ==> target_of(g, posts) == Target::Path(
            g.path->0,
        ),
        g.path is Some && slug_of_path(g.path->0) is Some && (forall|k: int|
            0 <= k < posts.len() ==> (#[trigger] posts[k]).slug != slug_of_path(g.path->0)->0)
            ==> target_of(g, posts) == Target::Path(g.path->0),
        has_path()(g) <==> g.path is Some,
{
    if g.path is Some && slug_of_path(g.path->0) is Some {
        lemma_post_for(posts, slug_of_path(g.path->0)->0, i);
    }
}

proof fn lemma_post_for(posts: Seq<PostRow>, slug: Seq<char>, i: int)
    requires
        forall|a: int, b: int| 0 <= a < b < posts.len() ==> posts[a].slug != posts[b].slug,
    ensures
        0 <= i < posts.len() && posts[i].slug == slug ==> post_for(posts, slug) == Some(posts[i]),
        (forall|k: int| 0 <= k < posts.len() ==> (#[trigger] posts[k]).slug != slug) ==> post_for(
            posts,
            slug,
        ) is None,
    decreases posts.len(),
{
    if posts.len() > 0 {
        let rest = posts.drop_last();
        let n = posts.len() - 1;
        assert forall|a: int, b: int| 0 <= a < b < rest.len() implies rest[a].slug
            != rest[b].slug by {
            assert(rest[a] == posts[a] && rest[b] == posts[b]);
        }
        lemma_post_for(rest, slug, i);
        if 0 <= i < n {
            assert(rest[i] == posts[i]);
            assert(posts[i].slug != posts[n].slug);
        }
        if forall|k: int| 0 <= k < posts.len() ==> (#[trigger] posts[k]).slug != slug {
            assert(posts[n].slug != slug);
            assert forall|k: int| 0 <= k < rest.len() implies (#[trigger] rest[k]).slug
                != slug by {
                assert(rest[k] == posts[k]);
            }
        }
    }
}

/// What is said of a post: who it is, its views and visits, and for each day of the
/// run the views of that day.
pub proof fn a_post_is_reported_whole(
    groups: Seq<Pageloads>,
    posts: Seq<PostRow>,
    dates: Seq<Seq<char>>,
    i: int,
    d: int,
)
    requires
        countable(groups),
        0 <= i < posts.len(),
        forall|a: int, b: int| 0 <= a < b < posts.len() ==> posts[a].id != posts[b].id,
        0 <= d < dates.len(),
    ensures
        ({
            let row = traffic_of(groups, posts, dates, posts[i].id);
            &&& row.id == posts[i].id
            &&& row.slug == posts[i].slug
            &&& row.title == posts[i].title
            &&& row.published == posts[i].published
            &&& row.views == tally(groups, goes_to(posts, Target::Post(posts[i].id)), false)
            &&& row.visits == tally(groups, goes_to(posts, Target::Post(posts[i].id)), true)
            &&& row.days.len() == dates.len()
            &&& row.days[d].date == dates[d]
            &&& row.days[d].views == tally(
                groups,
                |g: Pageloads|
                    target_of(g, posts) == Target::Post(posts[i].id) && g.date == Some(dates[d]),
                false,
            )
        }),
{
    lemma_first_with_id(posts, i);
    let to = Target::Post(posts[i].id);
    lemma_tally_within(groups, goes_to(posts, to), has_path(), false);
    lemma_tally_within(groups, goes_to(posts, to), has_path(), true);
    lemma_tally_within(groups, goes_to_on(posts, to, dates[d]), has_path(), false);
    let on = |g: Pageloads| target_of(g, posts) == to && g.date == Some(dates[d]);
    lemma_tally_same(groups, goes_to_on(posts, to, dates[d]), on, false);
}

proof fn lemma_first_with_id(posts: Seq<PostRow>, i: int)
    requires
        0 <= i < posts.len(),
        forall|a: int, b: int| 0 <= a < b < posts.len() ==> posts[a].id != posts[b].id,
    ensures
        first_with_id(posts, posts[i].id) == posts[i],
    decreases posts.len(),
{
    if i > 0 {
        let rest = posts.drop_first();
        assert(posts[0].id != posts[i].id);
        assert forall|a: int, b: int| 0 <= a < b < rest.len() implies rest[a].id
            != rest[b].id by {
            assert(rest[a] == posts[a + 1] && rest[b] == posts[b + 1]);
        }
        assert(rest[i - 1] == posts[i]);
        lemma_first_with_id(rest, i - 1);
    }
}

/// Every site that has a tag is listed, in their order, each with its name.
pub proof fn every_site_is_listed(sites: Seq<SiteInfo>)
    ensures
        listed_sites(sites) == sites.filter(|s: SiteInfo| s.site_tag@.len() > 0).map_values(
            |s: SiteInfo| SiteRow { site_tag: s.site_tag@, name: site_name(s) },
        ),
    decreases sites.len(),
{
    reveal(Seq::filter);
    let tagged = |s: SiteInfo| s.site_tag@.len() > 0;
    let row = |s: SiteInfo| SiteRow { site_tag: s.site_tag@, name: site_name(s) };
    if sites.len() > 0 {
        let rest = sites.drop_last();
        every_site_is_listed(rest);
        if tagged(sites.last()) {
            assert(sites.filter(tagged).map_values(row) =~= rest.filter(tagged).map_values(
                row,
            ).push(row(sites.last())));
        }
    } else {
        assert(sites.filter(tagged).map_values(row) =~= Seq::<SiteRow>::empty());
    }
}

/// A site is called by its zone where that has a name, and never by nothing: else by a
/// host of its rules that is not the wildcard, and by its tag only where there is none.
pub proof fn a_site_has_a_name(s: SiteInfo)
    ensures
        s.ruleset is Some && s.ruleset->0.zone_name is Some && s.ruleset->0.zone_name->0@.len() > 0
            ==> site_name(s) == s.ruleset->0.zone_name->0@,
        !(s.ruleset is Some && s.ruleset->0.zone_name is Some && s.ruleset->0.zone_name->0@.len()
            > 0) ==> {
            ||| exists|i: int|
                0 <= i < s.rules@.len() && (#[trigger] s.rules@[i]).host is Some
                    && s.rules@[i].host->0@ == site_name(s) && site_name(s).len() > 0
                    && site_name(s) != "*"@
            ||| {
                &&& site_name(s) == s.site_tag@
                &&& forall|i: int|
                    0 <= i < s.rules@.len() && (#[trigger] s.rules@[i]).host is Some
                        ==> s.rules@[i].host->0@.len() == 0 || s.rules@[i].host->0@ == "*"@
            }
        },
{
    lemma_first_host(s.rules@, s.site_tag@);
}

proof fn lemma_first_host(rules: Seq<Rule>, tag: Seq<char>)
    ensures
        ({
            let name = first_host(rules, tag);
            ||| exists|i: int|
                0 <= i < rules.len() && (#[trigger] rules[i]).host is Some && rules[i].host->0@
                    == name && name.len() > 0 && name != "*"@
            ||| {
                &&& name == tag
                &&& forall|i: int|
                    0 <= i < rules.len() && (#[trigger] rules[i]).host is Some
                        ==> rules[i].host->0@.len() == 0 || rules[i].host->0@ == "*"@
            }
        }),
    decreases rules.len(),
{
    if rules.len() > 0 {
        let name = first_host(rules, tag);
        if names_host(rules[0]) {
            assert(rules[0].host->0@ == name);
        } else {
            let rest = rules.drop_first();
            lemma_first_host(rest, tag);
            if exists|i: int|
                0 <= i < rest.len() && (#[trigger] rest[i]).host is Some && rest[i].host->0@
                    == name && name.len() > 0 && name != "*"@ {
                let i = choose|i: int|
                    0 <= i < rest.len() && (#[trigger] rest[i]).host is Some && rest[i].host->0@
                        == name && name.len() > 0 && name != "*"@;
                assert(rules[i + 1] == rest[i]);
            } else {
                assert forall|i: int|
                    0 <= i < rules.len() && (#[trigger] rules[i]).host is Some implies rules[i].host->0@.len()
                    == 0 || rules[i].host->0@ == "*"@ by {
                    if i > 0 {
                        assert(rest[i - 1] == rules[i]);
                    }
                }
            }
        }
    }
}

/// When the sites cannot be listed: the status refuses the token, or the answer says
/// that it failed; then with what it told, or with the status where it told nothing.
pub proof fn when_sites_cannot_be_listed(status: Status, success: bool, errors: Seq<Seq<char>>)
    ensures
        ({
            let fault = sites_fault(status, success, errors);
            &&& fault is None <==> success && status.code != 401 && status.code != 403
            &&& fault matches Some(f) ==> {
                &&& status.code == 401 || status.code == 403 ==> f.0 == ErrorKind::Permission
                &&& status.code != 401 && status.code != 403 && joined(errors, "; "@).len() > 0
                    ==> f.1 == joined(errors, "; "@)
            }
        }),
{
}

/// A report ranks what was read most first, posts and paths alike, and each of them
/// once; every post that was read is in it, and every path that belongs to none.
pub proof fn a_report_ranks_the_most_read_first(
    rows: Seq<TrafficRow>,
    paths: Seq<PathRow>,
    groups: Seq<Pageloads>,
    posts: Seq<PostRow>,
    dates: Seq<Seq<char>>,
    i: int,
    j: int,
    g: int,
)
    requires
        ranks_posts(rows, groups, posts, dates),
        ranks_paths(paths, groups, posts),
        0 <= i < j,
    ensures
        j < rows.len() ==> rows[i].views >= rows[j].views && rows[i].id != rows[j].id,
        j < paths.len() ==> paths[i].views >= paths[j].views && paths[i].path != paths[j].path,
        0 <= g < groups.len() ==> match target_of(groups[g], posts) {
            Target::Post(id) => exists|k: int|
                0 <= k < rows.len() && (#[trigger] rows[k]).id == id,
            Target::Path(path) => exists|k: int|
                0 <= k < paths.len() && (#[trigger] paths[k]).path == path,
            Target::Nowhere => groups[g].path is None,
        },
{
    if j < rows.len() {
        assert(!MostRead::before(rows[j], rows[i]));
    }
    if j < paths.len() {
        assert(!MostReadPaths::before(paths[j], paths[i]));
    }
    if 0 <= g < groups.len() {
        match target_of(groups[g], posts) {
            Target::Post(id) => {
                assert(is_target(groups, posts, Target::Post(id)));
            },
            Target::Path(path) => {
                assert(is_target(groups, posts, Target::Path(path)));
            },
            Target::Nowhere => {},
        }
    }
}

/// What is said of a path that belongs to no post is how often it was read; figures can
/// be counted where there is room for the number.
pub proof fn a_path_is_reported(groups: Seq<Pageloads>, posts: Seq<PostRow>, path: Seq<char>)
    ensures
        path_row(groups, posts, path).path == path,
        countable(groups) ==> path_row(groups, posts, path).views == tally(
            groups,
            |g: Pageloads| target_of(g, posts) == Target::Path(path),
            false,
        ),
        countable(groups) <==> tally(groups, |g: Pageloads| g.path is Some, false) <= u64::MAX
            && tally(groups, |g: Pageloads| g.path is Some, true) <= u64::MAX,
{
    let to = Target::Path(path);
    let p = |g: Pageloads| target_of(g, posts) == to;
    let q = |g: Pageloads| g.path is Some;
    lemma_tally_within(groups, goes_to(posts, to), has_path(), false);
    lemma_tally_same(groups, goes_to(posts, to), p, false);
    lemma_tally_same(groups, has_path(), q, false);
    lemma_tally_same(groups, has_path(), q, true);
}

}
