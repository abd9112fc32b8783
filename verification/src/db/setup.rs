//! Setting a database up: columns that an older one lacks, and sample posts for an
//! empty one.

use crate::db::side_tables::stage_set;
use crate::db::{has_slug, next_id, post_create, slug_taken, Store, Tables};
use crate::db::mirror::stage_for;
use crate::entities::post;
use crate::entities::post::PostRow;
use crate::entities::post_stage;
use crate::entities::post_stage::StageRow;
use crate::error::AppResult;
use crate::text::{holds, plus, views};
use vstd::prelude::*;
use vstd::string::StringExecFns;

verus! {

// ─── Columns ────────────────────────────────────────────────────────────────

/// A column that a table should have.
pub struct ColumnDef {
    pub name: &'static str,
    pub ty: &'static str,
}

/// The statement that adds a column.
pub open spec fn addition(table: Seq<char>, c: ColumnDef) -> Seq<char> {
    "ALTER TABLE `"@ + table + "` ADD COLUMN `"@ + c.name@ + "` "@ + c.ty@
}

/// The statements that add those of `columns` that are not there.
pub open spec fn additions(table: Seq<char>, columns: Seq<ColumnDef>, existing: Seq<Seq<char>>) -> Seq<
    Seq<char>,
>
    decreases columns.len(),
{
    if columns.len() == 0 {
        Seq::empty()
    } else {
        let before = additions(table, columns.drop_last(), existing);
        if existing.contains(columns.last().name@) {
            before
        } else {
            before.push(addition(table, columns.last()))
        }
    }
}

/// The statements that bring a table from an older database up to these columns,
/// given those that it has. A table that is there keeps the shape it had, so a
/// column that came later has to be added.
pub fn ensure_columns(table: &str, columns: &Vec<ColumnDef>, existing: &Vec<String>) -> (out: Vec<
    String,
>)
    ensures
        views(out@) == additions(table@, columns@, views(existing@)),
{
    let mut out: Vec<String> = Vec::new();
    let mut i: usize = 0;
    proof {
        assert(columns@.take(0) =~= Seq::empty());
        assert(views(out@) =~= Seq::empty());
    }
    while i < columns.len()
        invariant
            i <= columns@.len(),
            views(out@) == additions(table@, columns@.take(i as int), views(existing@)),
        decreases columns@.len() - i,
    {
        let ghost before = views(out@);
        proof {
            assert(columns@.take(i + 1).drop_last() =~= columns@.take(i as int));
            assert(columns@.take(i + 1).last() == columns@[i as int]);
        }
        if !holds(existing, columns[i].name) {
            let mut sql: String = plus("ALTER TABLE `", table);
            sql.append("` ADD COLUMN `");
            sql.append(columns[i].name);
            sql.append("` ");
            sql.append(columns[i].ty);
            let ghost v = sql@;
            out.push(sql);
            assert(views(out@) =~= before.push(v));
        }
        i = i + 1;
    }
    assert(columns@.take(i as int) =~= columns@);
    out
}

/// The columns that the sync records were given after there were databases.
pub fn sync_columns() -> (out: Vec<ColumnDef>)
    ensures
        out@.len() == 2,
        out@[0].name@ == "remote_updated_at"@ && out@[0].ty@ == "integer"@,
        out@[1].name@ == "remote_seen_at"@ && out@[1].ty@ == "integer"@,
{
    let mut out: Vec<ColumnDef> = Vec::new();
    out.push(ColumnDef { name: "remote_updated_at", ty: "integer" });
    out.push(ColumnDef { name: "remote_seen_at", ty: "integer" });
    out
}

/// The index by which a post's history is read, newest first.
pub const REVISION_INDEX: &'static str =
    "CREATE INDEX IF NOT EXISTS `idx_post_revision_post` ON `post_revision` (`post_id`, `created_at` DESC, `id` DESC)";

/// A table that has every column is left alone.
pub proof fn nothing_is_added_twice(
    table: Seq<char>,
    columns: Seq<ColumnDef>,
    existing: Seq<Seq<char>>,
)
    requires
        forall|i: int| 0 <= i < columns.len() ==> existing.contains((#[trigger] columns[i]).name@),
    ensures
        additions(table, columns, existing).len() == 0,
    decreases columns.len(),
{
    if columns.len() > 0 {
        assert(existing.contains(columns[columns.len() - 1].name@));
        nothing_is_added_twice(table, columns.drop_last(), existing);
    }
}

// ─── Sample posts ───────────────────────────────────────────────────────────

/// How long a day is, in seconds.
pub const DAY_SECONDS: i64 = 86_400;

/// How many sample posts there are.
pub const SAMPLES: usize = 5;

/// A sample post.
pub struct Sample {
    pub slug: &'static str,
    pub title: &'static str,
    pub tags: &'static str,
    pub published: bool,
}

/// What a sample post says.
pub struct SampleRow {
    pub slug: Seq<char>,
    pub title: Seq<char>,
    pub tags: Seq<char>,
    pub published: bool,
}

impl View for Sample {
    type V = SampleRow;

    open spec fn view(&self) -> SampleRow {
        SampleRow {
            slug: self.slug@,
            title: self.title@,
            tags: self.tags@,
            published: self.published,
        }
    }
}

/// The sample posts, newest first.
pub open spec fn samples() -> Seq<SampleRow> {
    seq![
        SampleRow {
            slug: "getting-started-with-tauri-and-nextjs"@,
            title: "Getting Started with Tauri and Next.js"@,
            tags: "[\"tauri\",\"nextjs\"]"@,
            published: true,
        },
        SampleRow {
            slug: "cloudflare-r2-as-a-blog-storage-backend"@,
            title: "Cloudflare R2 as a Blog Storage Backend"@,
            tags: "[\"cloudflare\",\"storage\"]"@,
            published: true,
        },
        SampleRow {
            slug: "markdown-parsing-deep-dive"@,
            title: "Markdown Parsing Deep Dive"@,
            tags: "[\"markdown\"]"@,
            published: false,
        },
        SampleRow {
            slug: "building-a-cms-with-rust"@,
            title: "Building a CMS with Rust"@,
            tags: "[\"rust\",\"cms\"]"@,
            published: false,
        },
        SampleRow {
            slug: "deploying-tauri-apps-to-windows"@,
            title: "Deploying Tauri Apps to Windows"@,
            tags: "[\"tauri\",\"deployment\"]"@,
            published: true,
        },
    ]
}

fn sample(i: usize) -> (s: Sample)
    requires
        i < SAMPLES,
    ensures
        s@ == samples()[i as int],
{
    if i == 0 {
        Sample {
            slug: "getting-started-with-tauri-and-nextjs",
            title: "Getting Started with Tauri and Next.js",
            tags: "[\"tauri\",\"nextjs\"]",
            published: true,
        }
    } else if i == 1 {
        Sample {
            slug: "cloudflare-r2-as-a-blog-storage-backend",
            title: "Cloudflare R2 as a Blog Storage Backend",
            tags: "[\"cloudflare\",\"storage\"]",
            published: true,
        }
    } else if i == 2 {
        Sample {
            slug: "markdown-parsing-deep-dive",
            title: "Markdown Parsing Deep Dive",
            tags: "[\"markdown\"]",
            published: false,
        }
    } else if i == 3 {
        Sample {
            slug: "building-a-cms-with-rust",
            title: "Building a CMS with Rust",
            tags: "[\"rust\",\"cms\"]",
            published: false,
        }
    } else {
        Sample {
            slug: "deploying-tauri-apps-to-windows",
            title: "Deploying Tauri Apps to Windows",
            tags: "[\"tauri\",\"deployment\"]",
            published: true,
        }
    }
}

/// The post that a sample makes: the samples are a day apart, so that they have an
/// order.
pub open spec fn sample_post(s: SampleRow, id: i32, i: int, now: i64) -> PostRow {
    let at = (now - i * DAY_SECONDS) as i64;
    PostRow {
        id,
        slug: s.slug,
        title: s.title,
        excerpt: None,
        tags: Some(s.tags),
        published: s.published,
        published_at: if s.published {
            Some(at)
        } else {
            None
        },
        series_id: None,
        series_order: None,
        created_at: at,
        updated_at: at,
    }
}

/// The tables with the first `n` samples in them, under the ids from 1 on.
pub open spec fn with_samples(t: Tables, n: int, now: i64) -> Tables
    decreases n,
{
    if n <= 0 {
        t
    } else {
        let before = with_samples(t, n - 1, now);
        let p = sample_post(samples()[n - 1], n as i32, n - 1, now);
        Tables {
            posts: before.posts.insert(p.id, p),
            stages: before.stages.insert(
                p.id,
                StageRow {
                    post_id: p.id,
                    stage: stage_for(p.published),
                    staged_at: p.created_at,
                },
            ),
            ..before
        }
    }
}

/// The slugs of the samples differ.
proof fn lemma_samples_differ(i: int, j: int)
    requires
        0 <= i < j < SAMPLES,
    ensures
        samples()[i].slug != samples()[j].slug,
{
    reveal_strlit("getting-started-with-tauri-and-nextjs");
    reveal_strlit("cloudflare-r2-as-a-blog-storage-backend");
    reveal_strlit("markdown-parsing-deep-dive");
    reveal_strlit("building-a-cms-with-rust");
    reveal_strlit("deploying-tauri-apps-to-windows");
    assert(samples()[0].slug[0] == 'g');
    assert(samples()[1].slug[0] == 'c');
    assert(samples()[2].slug[0] == 'm');
    assert(samples()[3].slug[0] == 'b');
    assert(samples()[4].slug[0] == 'd');
}

/// What stands in an empty library after `n` samples.
proof fn lemma_with_samples(t: Tables, n: int, now: i64)
    requires
        0 <= n <= SAMPLES,
        t.posts == Map::<i32, PostRow>::empty(),
    ensures
        forall|k: i32| #[trigger]
            with_samples(t, n, now).posts.contains_key(k) <==> 1 <= k <= n,
        forall|k: i32|
            1 <= k <= n ==> (#[trigger] with_samples(t, n, now).posts[k]).slug == samples()[k
                - 1].slug,
    decreases n,
{
    if n > 0 {
        lemma_with_samples(t, n - 1, now);
    }
}

/// Fills an empty library with a handful of sample posts, each with its stage. A
/// library that has any post is left alone.
pub fn seed_sample_posts(db: &mut Store, now: i64) -> (r: AppResult<()>)
    requires
        old(db).wf(),
        now >= i64::MIN + 4 * DAY_SECONDS,
    ensures
        final(db).wf(),
        r is Ok,
        final(db)@ == if exists|k: i32| old(db)@.posts.contains_key(k) {
            old(db)@
        } else {
            with_samples(old(db)@, SAMPLES as int, now)
        },
{
    proof {
        db.posts.lemma_listed();
    }
    let ghost t = db@;
    if db.posts.len() > 0 {
        proof {
            let row = db.posts.listed()[0];
            assert(db.posts.listed().contains(row));
            assert(t.posts.contains_key(row.id));
        }
        return Ok(());
    }
    proof {
        assert forall|k: i32| !t.posts.contains_key(k) by {
            if t.posts.contains_key(k) {
                assert(db.posts.listed().contains(t.posts[k]));
            }
        }
        assert(t.posts =~= Map::<i32, PostRow>::empty());
    }
    let mut i: usize = 0;
    while i < SAMPLES
        invariant
            i <= SAMPLES,
            now >= i64::MIN + 4 * DAY_SECONDS,
            db.wf(),
            t.posts == Map::<i32, PostRow>::empty(),
            db@ == with_samples(t, i as int, now),
        decreases SAMPLES - i,
    {
        let s: Sample = sample(i);
        let at: i64 = now - (i as i64) * DAY_SECONDS;
        proof {
            lemma_with_samples(t, i as int, now);
            assert(!slug_taken(db@.posts, s.slug@)) by {
                if slug_taken(db@.posts, s.slug@) {
                    let k = choose|k: i32| has_slug(db@.posts, k, s.slug@);
                    lemma_samples_differ(k - 1, i as int);
                }
            }
            if i == 0 {
                assert(next_id(db@.posts) == 1);
            } else {
                assert(crate::db::is_largest(db@.posts, i as i32));
                crate::db::lemma_next_id_is_free(db@.posts, i as i32);
            }
        }
        let model = post::Model {
            id: 0,
            slug: s.slug.to_owned(),
            title: s.title.to_owned(),
            excerpt: None,
            tags: Some(s.tags.to_owned()),
            published: s.published,
            published_at: if s.published {
                Some(at)
            } else {
                None
            },
            series_id: None,
            series_order: None,
            created_at: at,
            updated_at: at,
        };
        let created: post::Model = match post_create(db, model) {
            Ok(p) => p,
            Err(e) => {
                return Err(e);
            },
        };
        let stage: &'static str = if s.published {
            post_stage::PUBLISHED
        } else {
            post_stage::DRAFT
        };
        let row = post_stage::Model {
            post_id: created.id,
            stage: stage.to_owned(),
            staged_at: at,
        };
        match stage_set(db, row) {
            Err(e) => {
                return Err(e);
            },
            Ok(_) => {},
        }
        i = i + 1;
    }
    Ok(())
}

/// Every column that a table lacks is added, and no other, in their order.
pub proof fn every_missing_column_is_added(
    table: Seq<char>,
    columns: Seq<ColumnDef>,
    existing: Seq<Seq<char>>,
)
    ensures
        additions(table, columns, existing) == columns.filter(
            |c: ColumnDef| !existing.contains(c.name@),
        ).map_values(|c: ColumnDef| addition(table, c)),
    decreases columns.len(),
{
    reveal(Seq::filter);
    let lacks = |c: ColumnDef| !existing.contains(c.name@);
    let made = |c: ColumnDef| addition(table, c);
    if columns.len() > 0 {
        let rest = columns.drop_last();
        every_missing_column_is_added(table, rest, existing);
        if lacks(columns.last()) {
            assert(columns.filter(lacks).map_values(made) =~= rest.filter(lacks).map_values(
                made,
            ).push(addition(table, columns.last())));
        }
    } else {
        assert(columns.filter(lacks).map_values(made) =~= Seq::<Seq<char>>::empty());
    }
}

/// The samples go in under the ids from 1 on, each a day older than the one before it,
/// and staged by whether it is published.
pub proof fn the_samples_go_in(t: Tables, n: int, now: i64, i: int)
    requires
        0 <= i < n <= SAMPLES,
        now >= i64::MIN + 4 * DAY_SECONDS,
    ensures
        ({
            let after = with_samples(t, n, now);
            let id = (i + 1) as i32;
            let row = after.posts[id];
            &&& after.posts.contains_key(id)
            &&& row.id == id
            &&& row.slug == samples()[i].slug
            &&& row.title == samples()[i].title
            &&& row.tags == Some(samples()[i].tags)
            &&& row.published == samples()[i].published
            &&& row.created_at == now - i * DAY_SECONDS
            &&& row.updated_at == now - i * DAY_SECONDS
            &&& row.published ==> row.published_at == Some(row.created_at)
            &&& !row.published ==> row.published_at is None
            &&& after.stages.contains_key(id)
            &&& after.stages[id].stage == if row.published { "published"@ } else { "draft"@ }
        }),
    decreases n,
{
    if i < n - 1 {
        the_samples_go_in(t, n - 1, now, i);
    }
}

}
