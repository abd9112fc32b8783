//! The cloud's database: the statements sent to it, and what its answers say.
//!
//! A statement is SQL with a `?` for each value, and the values in the order of
//! the placeholders. A post is always found by its slug there: the two databases
//! hand out ids independently, so a local id names some other post, or none.

use crate::entities::post;
use crate::entities::post::PostRow;
use crate::entities::post_schedule;
use crate::entities::post_schedule::ScheduleRow;
use crate::entities::series;
use crate::entities::series::SeriesRow;
use crate::error::{AppError, AppResult};
use crate::table::rows_view;
use crate::text::{joined, opt_view, replaced};
use sea_orm::sea_query;
use vstd::prelude::*;

verus! {

// ─── SQL ────────────────────────────────────────────────────────────────────

/// The texts of a list of names.
pub open spec fn names(list: Seq<&'static str>) -> Seq<Seq<char>> {
    Seq::new(list.len(), |i: int| list[i]@)
}

/// A name in SQL: in quotation marks, those within it doubled.
pub open spec fn quoted_name(name: Seq<char>) -> Seq<char> {
    "\""@ + replaced(name, "\""@, "\"\""@) + "\""@
}

/// A column with its table in front.
pub open spec fn qualified(table: Seq<char>, column: Seq<char>) -> Seq<char> {
    quoted_name(table) + "."@ + quoted_name(column)
}

/// Columns as they are listed.
pub open spec fn name_list(columns: Seq<Seq<char>>) -> Seq<char> {
    joined(columns.map_values(|c: Seq<char>| quoted_name(c)), ", "@)
}

/// Columns with their table, as they are listed.
pub open spec fn qualified_list(table: Seq<char>, columns: Seq<Seq<char>>) -> Seq<char> {
    joined(columns.map_values(|c: Seq<char>| qualified(table, c)), ", "@)
}

/// A test that each of these columns has the value given.
pub open spec fn conditions(table: Seq<char>, by: Seq<Seq<char>>) -> Seq<char> {
    joined(by.map_values(|c: Seq<char>| qualified(table, c) + " = ?"@), " AND "@)
}

/// The text of an update.
pub open spec fn update_text(table: Seq<char>, set: Seq<Seq<char>>, by: Seq<Seq<char>>) -> Seq<
    char,
> {
    "UPDATE "@ + quoted_name(table) + " SET "@ + joined(
        set.map_values(|c: Seq<char>| quoted_name(c) + " = ?"@),
        ", "@,
    ) + " WHERE "@ + conditions(table, by)
}

/// The text of an insertion of one row.
pub open spec fn insert_text(table: Seq<char>, columns: Seq<Seq<char>>) -> Seq<char> {
    "INSERT INTO "@ + quoted_name(table) + " ("@ + name_list(columns) + ") VALUES ("@ + joined(
        columns.map_values(|c: Seq<char>| "?"@),
        ", "@,
    ) + ")"@
}

/// The text of an insertion that, where a row has the key already, writes these
/// columns of it.
pub open spec fn upsert_text(
    table: Seq<char>,
    columns: Seq<Seq<char>>,
    key: Seq<char>,
    update: Seq<Seq<char>>,
) -> Seq<char> {
    insert_text(table, columns) + " ON CONFLICT ("@ + quoted_name(key) + ") DO UPDATE SET "@
        + joined(
        update.map_values(
            |c: Seq<char>| quoted_name(c) + " = \"excluded\"."@ + quoted_name(c),
        ),
        ", "@,
    )
}

/// The text of a listing, the largest of `order` first.
pub open spec fn list_text(table: Seq<char>, columns: Seq<Seq<char>>, order: Seq<char>) -> Seq<
    char,
> {
    "SELECT "@ + qualified_list(table, columns) + " FROM "@ + quoted_name(table) + " ORDER BY "@
        + qualified(table, order) + " DESC"@
}

/// The text of a look at the rows with these values.
pub open spec fn get_text(table: Seq<char>, columns: Seq<Seq<char>>, by: Seq<Seq<char>>) -> Seq<
    char,
> {
    "SELECT "@ + qualified_list(table, columns) + " FROM "@ + quoted_name(table) + " WHERE "@
        + conditions(table, by)
}

/// The text of a deletion of the rows with these values.
pub open spec fn delete_text(table: Seq<char>, by: Seq<Seq<char>>) -> Seq<char> {
    "DELETE FROM "@ + quoted_name(table) + " WHERE "@ + conditions(table, by)
}

/// `sea_query`'s `Query::update`, built for SQLite. A value stands in the text as
/// `?`, whatever it is, so the numbers given here do not show.
#[verifier::external_body]
fn update_sql(table: &'static str, set: &Vec<&'static str>, by: &Vec<&'static str>) -> (out: String)
    requires
        set@.len() > 0,
        by@.len() > 0,
    ensures
        out@ == update_text(table@, names(set@), names(by@)),
{
    let mut q = sea_query::Query::update();
    q.table(sea_query::Alias::new(table));
    for c in set {
        q.value(sea_query::Alias::new(*c), 0);
    }
    for c in by {
        let column = (sea_query::Alias::new(table), sea_query::Alias::new(*c));
        q.and_where(sea_query::Expr::col(column).eq(0));
    }
    q.build(sea_query::SqliteQueryBuilder).0
}

/// `sea_query`'s `Query::insert`, built for SQLite, for one row. A value stands
/// in the text as `?`, whatever it is.
#[verifier::external_body]
fn insert_sql(table: &'static str, columns: &Vec<&'static str>) -> (out: String)
    requires
        columns@.len() > 0,
    ensures
        out@ == insert_text(table@, names(columns@)),
{
    let mut q = sea_query::Query::insert();
    q.into_table(sea_query::Alias::new(table));
    q.columns(columns.iter().map(|c| sea_query::Alias::new(*c)));
    q.values_panic(columns.iter().map(|_| 0.into()));
    q.build(sea_query::SqliteQueryBuilder).0
}

/// `sea_query`'s `Query::insert` with `OnConflict::update_columns`, built for
/// SQLite, for one row. A value stands in the text as `?`, whatever it is.
#[verifier::external_body]
fn upsert_sql(
    table: &'static str,
    columns: &Vec<&'static str>,
    key: &'static str,
    update: &Vec<&'static str>,
) -> (out: String)
    requires
        columns@.len() > 0,
        update@.len() > 0,
    ensures
        out@ == upsert_text(table@, names(columns@), key@, names(update@)),
{
    let mut conflict = sea_query::OnConflict::column(sea_query::Alias::new(key));
    conflict.update_columns(update.iter().map(|c| sea_query::Alias::new(*c)));
    let mut q = sea_query::Query::insert();
    q.into_table(sea_query::Alias::new(table));
    q.columns(columns.iter().map(|c| sea_query::Alias::new(*c)));
    q.values_panic(columns.iter().map(|_| 0.into()));
    q.on_conflict(conflict);
    q.build(sea_query::SqliteQueryBuilder).0
}

/// `sea_query`'s `Query::select` with an order, built for SQLite.
#[verifier::external_body]
fn list_sql(table: &'static str, columns: &Vec<&'static str>, order: &'static str) -> (out: String)
    requires
        columns@.len() > 0,
    ensures
        out@ == list_text(table@, names(columns@), order@),
{
    let mut q = sea_query::Query::select();
    q.columns(columns.iter().map(|c| (sea_query::Alias::new(table), sea_query::Alias::new(*c))));
    q.from(sea_query::Alias::new(table));
    let by = (sea_query::Alias::new(table), sea_query::Alias::new(order));
    q.order_by(by, sea_query::Order::Desc);
    q.build(sea_query::SqliteQueryBuilder).0
}

/// `sea_query`'s `Query::select` with conditions, built for SQLite. A value stands
/// in the text as `?`, whatever it is.
#[verifier::external_body]
fn get_sql(table: &'static str, columns: &Vec<&'static str>, by: &Vec<&'static str>) -> (out:
    String)
    requires
        columns@.len() > 0,
        by@.len() > 0,
    ensures
        out@ == get_text(table@, names(columns@), names(by@)),
{
    let mut q = sea_query::Query::select();
    q.columns(columns.iter().map(|c| (sea_query::Alias::new(table), sea_query::Alias::new(*c))));
    q.from(sea_query::Alias::new(table));
    for c in by {
        let column = (sea_query::Alias::new(table), sea_query::Alias::new(*c));
        q.and_where(sea_query::Expr::col(column).eq(0));
    }
    q.build(sea_query::SqliteQueryBuilder).0
}

/// `sea_query`'s `Query::delete`, built for SQLite. A value stands in the text as
/// `?`, whatever it is.
#[verifier::external_body]
fn delete_sql(table: &'static str, by: &Vec<&'static str>) -> (out: String)
    requires
        by@.len() > 0,
    ensures
        out@ == delete_text(table@, names(by@)),
{
    let mut q = sea_query::Query::delete();
    q.from_table(sea_query::Alias::new(table));
    for c in by {
        let column = (sea_query::Alias::new(table), sea_query::Alias::new(*c));
        q.and_where(sea_query::Expr::col(column).eq(0));
    }
    q.build(sea_query::SqliteQueryBuilder).0
}

// ─── Statements ─────────────────────────────────────────────────────────────

/// A value bound to a placeholder. A flag is stored as a number.
#[derive(Debug, PartialEq, Eq)]
pub enum Param {
    Null,
    Int(i64),
    Text(String),
}

/// What a [`Param`] says.
pub enum ParamSpec {
    Null,
    Int(i64),
    Text(Seq<char>),
}

impl View for Param {
    type V = ParamSpec;

    open spec fn view(&self) -> ParamSpec {
        match *self {
            Param::Null => ParamSpec::Null,
            Param::Int(i) => ParamSpec::Int(i),
            Param::Text(s) => ParamSpec::Text(s@),
        }
    }
}

/// A statement and the values for its placeholders, in their order.
#[derive(Debug, PartialEq, Eq)]
pub struct Statement {
    pub sql: String,
    pub params: Vec<Param>,
}

/// What a [`Statement`] says.
pub struct StatementSpec {
    pub sql: Seq<char>,
    pub params: Seq<ParamSpec>,
}

impl View for Statement {
    type V = StatementSpec;

    open spec fn view(&self) -> StatementSpec {
        StatementSpec { sql: self.sql@, params: rows_view(self.params@) }
    }
}

/// A flag as it is stored.
pub open spec fn flag_param(b: bool) -> ParamSpec {
    ParamSpec::Int(
        if b {
            1
        } else {
            0
        },
    )
}

/// A text that may not be there, as it is stored.
pub open spec fn text_param(s: Option<Seq<char>>) -> ParamSpec {
    match s {
        Some(t) => ParamSpec::Text(t),
        None => ParamSpec::Null,
    }
}

/// A number that may not be there, as it is stored.
pub open spec fn int_param(i: Option<i64>) -> ParamSpec {
    match i {
        Some(n) => ParamSpec::Int(n),
        None => ParamSpec::Null,
    }
}

/// An id or a place that may not be there, as it is stored.
pub open spec fn id_param(i: Option<i32>) -> ParamSpec {
    match i {
        Some(n) => ParamSpec::Int(n as i64),
        None => ParamSpec::Null,
    }
}

fn flag(b: bool) -> (p: Param)
    ensures
        p@ == flag_param(b),
{
    Param::Int(
        if b {
            1
        } else {
            0
        },
    )
}

fn text_or_null(s: Option<String>) -> (p: Param)
    ensures
        p@ == text_param(opt_view(s)),
{
    match s {
        Some(t) => Param::Text(t),
        None => Param::Null,
    }
}

fn int_or_null(i: Option<i64>) -> (p: Param)
    ensures
        p@ == int_param(i),
{
    match i {
        Some(n) => Param::Int(n),
        None => Param::Null,
    }
}

fn id_or_null(i: Option<i32>) -> (p: Param)
    ensures
        p@ == id_param(i),
{
    match i {
        Some(n) => Param::Int(n as i64),
        None => Param::Null,
    }
}


/// The cloud's table of posts.
pub const POSTS: &'static str = "blog-db";

/// The cloud's table of series.
pub const SERIES: &'static str = "series";

/// The cloud's table of schedules.
pub const SCHEDULES: &'static str = "post_schedule";

/// Every column of a post.
pub open spec fn post_columns() -> Seq<Seq<char>> {
    seq!["id"@, "slug"@, "title"@, "excerpt"@, "tags"@, "published"@, "published_at"@, "series_id"@, "series_order"@, "created_at"@, "updated_at"@]
}

fn post_names() -> (out: Vec<&'static str>)
    ensures
        names(out@) == post_columns(),
        out@.len() > 0,
{
    let out: Vec<&'static str> = vec!["id", "slug", "title", "excerpt", "tags", "published", "published_at", "series_id", "series_order", "created_at", "updated_at"];
    assert(names(out@) =~= post_columns());
    out
}

/// The columns of a post without its id, which the cloud hands out.
pub open spec fn new_post_columns() -> Seq<Seq<char>> {
    seq!["slug"@, "title"@, "excerpt"@, "tags"@, "published"@, "published_at"@, "series_id"@, "series_order"@, "created_at"@, "updated_at"@]
}

fn new_post_names() -> (out: Vec<&'static str>)
    ensures
        names(out@) == new_post_columns(),
        out@.len() > 0,
{
    let out: Vec<&'static str> = vec!["slug", "title", "excerpt", "tags", "published", "published_at", "series_id", "series_order", "created_at", "updated_at"];
    assert(names(out@) =~= new_post_columns());
    out
}

/// The columns of a post that an update writes: all but its id and its slug.
pub open spec fn post_content_columns() -> Seq<Seq<char>> {
    seq!["title"@, "excerpt"@, "tags"@, "published"@, "published_at"@, "series_id"@, "series_order"@, "created_at"@, "updated_at"@]
}

fn post_content_names() -> (out: Vec<&'static str>)
    ensures
        names(out@) == post_content_columns(),
        out@.len() > 0,
{
    let out: Vec<&'static str> = vec!["title", "excerpt", "tags", "published", "published_at", "series_id", "series_order", "created_at", "updated_at"];
    assert(names(out@) =~= post_content_columns());
    out
}

/// Every column of a series.
pub open spec fn series_columns() -> Seq<Seq<char>> {
    seq!["id"@, "slug"@, "title"@, "description"@, "created_at"@]
}

fn series_names() -> (out: Vec<&'static str>)
    ensures
        names(out@) == series_columns(),
        out@.len() > 0,
{
    let out: Vec<&'static str> = vec!["id", "slug", "title", "description", "created_at"];
    assert(names(out@) =~= series_columns());
    out
}

/// The columns of a series without its id.
pub open spec fn new_series_columns() -> Seq<Seq<char>> {
    seq!["slug"@, "title"@, "description"@, "created_at"@]
}

fn new_series_names() -> (out: Vec<&'static str>)
    ensures
        names(out@) == new_series_columns(),
        out@.len() > 0,
{
    let out: Vec<&'static str> = vec!["slug", "title", "description", "created_at"];
    assert(names(out@) =~= new_series_columns());
    out
}

/// The columns of a series that a push writes where the cloud has it.
pub open spec fn series_content_columns() -> Seq<Seq<char>> {
    seq!["title"@, "description"@, "created_at"@]
}

fn series_content_names() -> (out: Vec<&'static str>)
    ensures
        names(out@) == series_content_columns(),
        out@.len() > 0,
{
    let out: Vec<&'static str> = vec!["title", "description", "created_at"];
    assert(names(out@) =~= series_content_columns());
    out
}

/// Every column of a schedule.
pub open spec fn schedule_columns() -> Seq<Seq<char>> {
    seq!["slug"@, "publish_at"@, "state"@, "error"@, "updated_at"@]
}

fn schedule_names() -> (out: Vec<&'static str>)
    ensures
        names(out@) == schedule_columns(),
        out@.len() > 0,
{
    let out: Vec<&'static str> = vec!["slug", "publish_at", "state", "error", "updated_at"];
    assert(names(out@) =~= schedule_columns());
    out
}

/// The columns of a schedule without its key.
pub open spec fn schedule_content_columns() -> Seq<Seq<char>> {
    seq!["publish_at"@, "state"@, "error"@, "updated_at"@]
}

fn schedule_content_names() -> (out: Vec<&'static str>)
    ensures
        names(out@) == schedule_content_columns(),
        out@.len() > 0,
{
    let out: Vec<&'static str> = vec!["publish_at", "state", "error", "updated_at"];
    assert(names(out@) =~= schedule_content_columns());
    out
}

/// The columns that calling a schedule off writes.
pub open spec fn cancel_columns() -> Seq<Seq<char>> {
    seq!["state"@, "error"@, "updated_at"@]
}

fn cancel_names() -> (out: Vec<&'static str>)
    ensures
        names(out@) == cancel_columns(),
        out@.len() > 0,
{
    let out: Vec<&'static str> = vec!["state", "error", "updated_at"];
    assert(names(out@) =~= cancel_columns());
    out
}

/// The columns by which a schedule that can be called off is found.
pub open spec fn cancel_key_columns() -> Seq<Seq<char>> {
    seq!["slug"@, "state"@]
}

fn cancel_key_names() -> (out: Vec<&'static str>)
    ensures
        names(out@) == cancel_key_columns(),
        out@.len() > 0,
{
    let out: Vec<&'static str> = vec!["slug", "state"];
    assert(names(out@) =~= cancel_key_columns());
    out
}

/// The slug alone.
pub open spec fn slug_columns() -> Seq<Seq<char>> {
    seq!["slug"@]
}

fn slug_names() -> (out: Vec<&'static str>)
    ensures
        names(out@) == slug_columns(),
        out@.len() > 0,
{
    let out: Vec<&'static str> = vec!["slug"];
    assert(names(out@) =~= slug_columns());
    out
}

/// The id alone.
pub open spec fn id_columns() -> Seq<Seq<char>> {
    seq!["id"@]
}

fn id_names() -> (out: Vec<&'static str>)
    ensures
        names(out@) == id_columns(),
        out@.len() > 0,
{
    let out: Vec<&'static str> = vec!["id"];
    assert(names(out@) =~= id_columns());
    out
}

/// The values of a post's columns, without its id and its slug.
pub open spec fn post_values(p: PostRow) -> Seq<ParamSpec> {
    seq![
        ParamSpec::Text(p.title),
        text_param(p.excerpt),
        text_param(p.tags),
        flag_param(p.published),
        int_param(p.published_at),
        id_param(p.series_id),
        id_param(p.series_order),
        ParamSpec::Int(p.created_at),
        ParamSpec::Int(p.updated_at),
    ]
}

fn push_post_values(params: &mut Vec<Param>, p: post::Model)
    ensures
        rows_view(final(params)@) == rows_view(old(params)@) + post_values(p@),
{
    let ghost before = rows_view(params@);
    params.push(Param::Text(p.title));
    params.push(text_or_null(p.excerpt));
    params.push(text_or_null(p.tags));
    params.push(flag(p.published));
    params.push(int_or_null(p.published_at));
    params.push(id_or_null(p.series_id));
    params.push(id_or_null(p.series_order));
    params.push(Param::Int(p.created_at));
    params.push(Param::Int(p.updated_at));
    assert(rows_view(params@) =~= before + post_values(p@));
}

/// The update of a post: everything that a reader is served, found by the slug.
/// The slug is the key, so it is not among the columns written.
pub fn post_update_stmt(model: post::Model) -> (s: Statement)
    ensures
        s@.sql == update_text(POSTS@, post_content_columns(), slug_columns()),
        s@.params == post_values(model@).push(ParamSpec::Text(model.slug@)),
{
    let sql: String = update_sql(POSTS, &post_content_names(), &slug_names());
    let slug: String = model.slug.clone();
    let mut params: Vec<Param> = Vec::new();
    push_post_values(&mut params, model);
    params.push(Param::Text(slug));
    assert(rows_view(params@) =~= post_values(model@).push(ParamSpec::Text(slug@)));
    Statement { sql, params }
}

fn new_post_params(model: post::Model) -> (params: Vec<Param>)
    ensures
        rows_view(params@) == seq![ParamSpec::Text(model.slug@)] + post_values(model@),
{
    let mut params: Vec<Param> = Vec::new();
    params.push(Param::Text(model.slug.clone()));
    assert(rows_view(params@) =~= seq![ParamSpec::Text(model.slug@)]);
    push_post_values(&mut params, model);
    params
}

/// The insertion of a post. The cloud hands out its id.
pub fn post_insert_stmt(model: post::Model) -> (s: Statement)
    ensures
        s@.sql == insert_text(POSTS@, new_post_columns()),
        s@.params == seq![ParamSpec::Text(model.slug@)] + post_values(model@),
{
    Statement { sql: insert_sql(POSTS, &new_post_names()), params: new_post_params(model) }
}

/// The insertion of a post, or the update of the one with its slug: the local copy
/// wins.
pub fn post_upsert_stmt(model: post::Model) -> (s: Statement)
    ensures
        s@.sql == upsert_text(POSTS@, new_post_columns(), "slug"@, post_content_columns()),
        s@.params == seq![ParamSpec::Text(model.slug@)] + post_values(model@),
{
    Statement {
        sql: upsert_sql(POSTS, &new_post_names(), "slug", &post_content_names()),
        params: new_post_params(model),
    }
}

fn one(p: Param) -> (params: Vec<Param>)
    ensures
        rows_view(params@) == seq![p@],
{
    let mut params: Vec<Param> = Vec::new();
    params.push(p);
    assert(rows_view(params@) =~= seq![p@]);
    params
}

fn none() -> (params: Vec<Param>)
    ensures
        rows_view(params@) == Seq::<ParamSpec>::empty(),
{
    let params: Vec<Param> = Vec::new();
    assert(rows_view(params@) =~= Seq::<ParamSpec>::empty());
    params
}

/// Every post, newest first.
pub fn post_list_stmt() -> (s: Statement)
    ensures
        s@.sql == list_text(POSTS@, post_columns(), "created_at"@),
        s@.params == Seq::<ParamSpec>::empty(),
{
    Statement { sql: list_sql(POSTS, &post_names(), "created_at"), params: none() }
}

/// One post, by the cloud's id.
pub fn post_get_stmt(id: i32) -> (s: Statement)
    ensures
        s@.sql == get_text(POSTS@, post_columns(), id_columns()),
        s@.params == seq![ParamSpec::Int(id as i64)],
{
    Statement {
        sql: get_sql(POSTS, &post_names(), &id_names()),
        params: one(Param::Int(id as i64)),
    }
}

/// The deletion of a post, by the cloud's id.
pub fn post_delete_stmt(id: i32) -> (s: Statement)
    ensures
        s@.sql == delete_text(POSTS@, id_columns()),
        s@.params == seq![ParamSpec::Int(id as i64)],
{
    Statement { sql: delete_sql(POSTS, &id_names()), params: one(Param::Int(id as i64)) }
}

/// The values of a series' columns, without its id.
pub open spec fn series_values(s: SeriesRow) -> Seq<ParamSpec> {
    seq![
        ParamSpec::Text(s.slug),
        ParamSpec::Text(s.title),
        text_param(s.description),
        ParamSpec::Int(s.created_at),
    ]
}

fn series_params(m: series::Model) -> (params: Vec<Param>)
    ensures
        rows_view(params@) == series_values(m@),
{
    let mut params: Vec<Param> = Vec::new();
    params.push(Param::Text(m.slug));
    params.push(Param::Text(m.title));
    params.push(text_or_null(m.description));
    params.push(Param::Int(m.created_at));
    assert(rows_view(params@) =~= series_values(m@));
    params
}

/// The insertion of a series. The cloud hands out its id.
pub fn series_insert_stmt(model: series::Model) -> (s: Statement)
    ensures
        s@.sql == insert_text(SERIES@, new_series_columns()),
        s@.params == series_values(model@),
{
    Statement { sql: insert_sql(SERIES, &new_series_names()), params: series_params(model) }
}

/// The insertion of a series, or the update of the one with its slug.
pub fn series_upsert_stmt(model: series::Model) -> (s: Statement)
    ensures
        s@.sql == upsert_text(SERIES@, new_series_columns(), "slug"@, series_content_columns()),
        s@.params == series_values(model@),
{
    Statement {
        sql: upsert_sql(SERIES, &new_series_names(), "slug", &series_content_names()),
        params: series_params(model),
    }
}

/// The update of a series, by the cloud's id.
pub fn series_update_stmt(model: series::Model) -> (s: Statement)
    ensures
        s@.sql == update_text(SERIES@, new_series_columns(), id_columns()),
        s@.params == series_values(model@).push(ParamSpec::Int(model.id as i64)),
{
    let sql: String = update_sql(SERIES, &new_series_names(), &id_names());
    let id: i64 = model.id as i64;
    let mut params: Vec<Param> = series_params(model);
    params.push(Param::Int(id));
    assert(rows_view(params@) =~= series_values(model@).push(ParamSpec::Int(id)));
    Statement { sql, params }
}

/// Every series, newest first.
pub fn series_list_stmt() -> (s: Statement)
    ensures
        s@.sql == list_text(SERIES@, series_columns(), "created_at"@),
        s@.params == Seq::<ParamSpec>::empty(),
{
    Statement { sql: list_sql(SERIES, &series_names(), "created_at"), params: none() }
}

/// One series, by the cloud's id.
pub fn series_get_stmt(id: i32) -> (s: Statement)
    ensures
        s@.sql == get_text(SERIES@, series_columns(), id_columns()),
        s@.params == seq![ParamSpec::Int(id as i64)],
{
    Statement {
        sql: get_sql(SERIES, &series_names(), &id_names()),
        params: one(Param::Int(id as i64)),
    }
}

/// The deletion of a series, by the cloud's id.
pub fn series_delete_stmt(id: i32) -> (s: Statement)
    ensures
        s@.sql == delete_text(SERIES@, id_columns()),
        s@.params == seq![ParamSpec::Int(id as i64)],
{
    Statement { sql: delete_sql(SERIES, &id_names()), params: one(Param::Int(id as i64)) }
}

/// The values of a schedule's columns.
pub open spec fn schedule_values(s: ScheduleRow) -> Seq<ParamSpec> {
    seq![
        ParamSpec::Text(s.slug),
        ParamSpec::Int(s.publish_at),
        ParamSpec::Text(s.state),
        text_param(s.error),
        ParamSpec::Int(s.updated_at),
    ]
}

/// The insertion of a post's schedule, or the replacement of the one it has: this
/// is the row that the worker reads.
pub fn schedule_upsert_stmt(model: post_schedule::Model) -> (s: Statement)
    ensures
        s@.sql == upsert_text(
            SCHEDULES@,
            schedule_columns(),
            "slug"@,
            schedule_content_columns(),
        ),
        s@.params == schedule_values(model@),
{
    let mut params: Vec<Param> = Vec::new();
    params.push(Param::Text(model.slug));
    params.push(Param::Int(model.publish_at));
    params.push(Param::Text(model.state));
    params.push(text_or_null(model.error));
    params.push(Param::Int(model.updated_at));
    assert(rows_view(params@) =~= schedule_values(model@));
    Statement {
        sql: upsert_sql(SCHEDULES, &schedule_names(), "slug", &schedule_content_names()),
        params,
    }
}

/// The cancellation of a schedule that is still pending. A run that has claimed it
/// is not overruled: then no row matches.
pub fn schedule_cancel_stmt(slug: &str, now: i64) -> (s: Statement)
    ensures
        s@.sql == update_text(SCHEDULES@, cancel_columns(), cancel_key_columns()),
        s@.params == seq![
            ParamSpec::Text(post_schedule::CANCELLED@),
            ParamSpec::Null,
            ParamSpec::Int(now),
            ParamSpec::Text(slug@),
            ParamSpec::Text(post_schedule::PENDING@),
        ],
{
    let mut params: Vec<Param> = Vec::new();
    params.push(Param::Text(post_schedule::CANCELLED.to_owned()));
    params.push(Param::Null);
    params.push(Param::Int(now));
    params.push(Param::Text(slug.to_owned()));
    params.push(Param::Text(post_schedule::PENDING.to_owned()));
    let s = Statement {
        sql: update_sql(SCHEDULES, &cancel_names(), &cancel_key_names()),
        params,
    };
    assert(s@.params =~= seq![
        ParamSpec::Text(post_schedule::CANCELLED@),
        ParamSpec::Null,
        ParamSpec::Int(now),
        ParamSpec::Text(slug@),
        ParamSpec::Text(post_schedule::PENDING@),
    ]);
    s
}

/// Every schedule, the last to be carried out first.
pub fn schedule_list_stmt() -> (s: Statement)
    ensures
        s@.sql == list_text(SCHEDULES@, schedule_columns(), "publish_at"@),
        s@.params == Seq::<ParamSpec>::empty(),
{
    Statement { sql: list_sql(SCHEDULES, &schedule_names(), "publish_at"), params: none() }
}

/// A post's schedule.
pub fn schedule_get_stmt(slug: &str) -> (s: Statement)
    ensures
        s@.sql == get_text(SCHEDULES@, schedule_columns(), slug_columns()),
        s@.params == seq![ParamSpec::Text(slug@)],
{
    Statement {
        sql: get_sql(SCHEDULES, &schedule_names(), &slug_names()),
        params: one(Param::Text(slug.to_owned())),
    }
}

// ─── Answers ────────────────────────────────────────────────────────────────

/// What one statement did.
#[derive(Debug, PartialEq, Eq)]
pub struct QueryMeta {
    /// The id of the row that it inserted.
    pub last_row_id: i64,
    /// How many rows it changed.
    pub changes: i64,
}

/// An answer of the database: whether the query ran, what is wrong otherwise, and
/// what each statement did.
#[derive(Debug, PartialEq, Eq)]
pub struct Envelope {
    pub success: bool,
    pub errors: Vec<String>,
    pub result: Vec<QueryMeta>,
}

/// The first of `errors`, or `otherwise` where there is none.
pub open spec fn first_error(errors: Seq<String>, otherwise: Seq<char>) -> Seq<char> {
    if errors.len() > 0 {
        errors[0]@
    } else {
        otherwise
    }
}

/// A success status whose body may say that the call failed: then the first error
/// that it names is the message.
pub(crate) fn require_success(
    service: &'static str,
    op: &'static str,
    success: bool,
    errors: &Vec<String>,
    otherwise: &str,
) -> (r: AppResult<()>)
    ensures
        match r {
            Ok(_) => success,
            Err(e) => !success && (e matches AppError::CloudflareApi { service: s, op: o, message }
                && s == service && o == op && message@ == first_error(errors@, otherwise@)),
        },
{
    if success {
        return Ok(());
    }
    let message: String = if errors.len() > 0 {
        errors[0].clone()
    } else {
        otherwise.to_owned()
    };
    Err(AppError::CloudflareApi { service, op, message })
}

/// Refuses an answer that says that the query failed.
pub fn check_envelope(env: &Envelope) -> (r: AppResult<()>)
    ensures
        match r {
            Ok(_) => env.success,
            Err(e) => !env.success && (e matches AppError::CloudflareApi {
                service,
                op,
                message,
            } && service@ == "D1"@ && op@ == "query"@ && message@ == first_error(
                env.errors@,
                "unknown D1 error"@,
            )),
        },
{
    require_success("D1", "query", env.success, &env.errors, "unknown D1 error")
}

/// The id of the row that an insertion was given.
pub open spec fn row_id_of(env: Envelope) -> i64 {
    if env.result@.len() > 0 {
        env.result@[0].last_row_id
    } else {
        0
    }
}

/// How many rows a statement changed.
pub open spec fn changes_of(env: Envelope) -> i64 {
    if env.result@.len() > 0 {
        env.result@[0].changes
    } else {
        0
    }
}

/// The id of the row that an insertion was given, zero where the answer names
/// none.
pub fn last_row_id(env: &Envelope) -> (r: i64)
    ensures
        r == row_id_of(*env),
{
    if env.result.len() > 0 {
        env.result[0].last_row_id
    } else {
        0
    }
}

/// How many rows a statement changed, zero where the answer does not say.
pub fn rows_changed(env: &Envelope) -> (r: i64)
    ensures
        r == changes_of(*env),
{
    if env.result.len() > 0 {
        env.result[0].changes
    } else {
        0
    }
}

/// The answer to an update of the post `slug`. An update that changed nothing is
/// reported: the local row was written to match a change that did not happen.
pub fn post_updated(env: &Envelope, slug: &str) -> (r: AppResult<()>)
    ensures
        match r {
            Ok(_) => changes_of(*env) != 0,
            Err(e) => changes_of(*env) == 0 && (e matches AppError::RemotePostMissing(s) && s@
                == slug@),
        },
{
    if rows_changed(env) == 0 {
        return Err(AppError::RemotePostMissing(slug.to_owned()));
    }
    Ok(())
}

/// Whether a cancellation found a schedule that was still pending.
pub fn schedule_cancelled(env: &Envelope) -> (r: bool)
    ensures
        r == (changes_of(*env) > 0),
{
    rows_changed(env) > 0
}

/// What is sent for a post is what it says, column by column, in the order of the
/// columns: a flag as one or nought, and nothing for what is not there.
pub proof fn a_post_is_sent_whole(p: PostRow)
    ensures
        ({
            let v = post_values(p);
            &&& v.len() == 9
            &&& v[0] == ParamSpec::Text(p.title)
            &&& p.excerpt is Some ==> v[1] == ParamSpec::Text(p.excerpt->0)
            &&& p.excerpt is None ==> v[1] == ParamSpec::Null
            &&& p.tags is Some ==> v[2] == ParamSpec::Text(p.tags->0)
            &&& p.tags is None ==> v[2] == ParamSpec::Null
            &&& p.published ==> v[3] == ParamSpec::Int(1)
            &&& !p.published ==> v[3] == ParamSpec::Int(0)
            &&& p.published_at is Some ==> v[4] == ParamSpec::Int(p.published_at->0)
            &&& p.published_at is None ==> v[4] == ParamSpec::Null
            &&& p.series_id is Some ==> v[5] == ParamSpec::Int(p.series_id->0 as i64)
            &&& p.series_id is None ==> v[5] == ParamSpec::Null
            &&& p.series_order is Some ==> v[6] == ParamSpec::Int(p.series_order->0 as i64)
            &&& p.series_order is None ==> v[6] == ParamSpec::Null
            &&& v[7] == ParamSpec::Int(p.created_at)
            &&& v[8] == ParamSpec::Int(p.updated_at)
        }),
{
}

/// What is sent for a series and for a schedule is what they say, column by column.
pub proof fn series_and_schedules_are_sent_whole(s: SeriesRow, r: ScheduleRow)
    ensures
        series_values(s).len() == 4,
        series_values(s)[0] == ParamSpec::Text(s.slug),
        series_values(s)[1] == ParamSpec::Text(s.title),
        s.description is Some ==> series_values(s)[2] == ParamSpec::Text(s.description->0),
        s.description is None ==> series_values(s)[2] == ParamSpec::Null,
        series_values(s)[3] == ParamSpec::Int(s.created_at),
        schedule_values(r).len() == 5,
        schedule_values(r)[0] == ParamSpec::Text(r.slug),
        schedule_values(r)[1] == ParamSpec::Int(r.publish_at),
        schedule_values(r)[2] == ParamSpec::Text(r.state),
        r.error is Some ==> schedule_values(r)[3] == ParamSpec::Text(r.error->0),
        r.error is None ==> schedule_values(r)[3] == ParamSpec::Null,
        schedule_values(r)[4] == ParamSpec::Int(r.updated_at),
{
}

/// An answer is read off its first result, and its first error is the one that is told.
pub proof fn an_answer_is_read_off_its_first_result(env: Envelope, otherwise: Seq<char>)
    ensures
        env.result@.len() > 0 ==> row_id_of(env) == env.result@[0].last_row_id && changes_of(env)
            == env.result@[0].changes,
        env.result@.len() == 0 ==> row_id_of(env) == 0 && changes_of(env) == 0,
        env.errors@.len() > 0 ==> first_error(env.errors@, otherwise) == env.errors@[0]@,
        env.errors@.len() == 0 ==> first_error(env.errors@, otherwise) == otherwise,
{
}

}
