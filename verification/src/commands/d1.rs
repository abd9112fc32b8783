//! Writing a single row to the cloud's database.

use crate::commands::sync::post_for_cloud;
use crate::d1::{
    insert_text, new_post_columns, new_series_columns, post_content_columns, post_insert_stmt,
    post_update_stmt, post_values, series_insert_stmt, series_values, slug_columns, update_text,
    ParamSpec, Statement, POSTS, SERIES,
};
use crate::db::mirror::{outbound_post, paired};
use crate::db::Store;
use crate::entities::post;
use crate::entities::post::PostRow;
use crate::entities::series;
use crate::entities::series::SeriesRow;
use crate::table::rows_view;
use vstd::prelude::*;

verus! {

/// The insertion of a post that is new to the cloud, dated `now`.
pub fn d1_create_post(
    db: &Store,
    remote_series: &Vec<series::Model>,
    post: post::Model,
    now: i64,
) -> (s: Statement)
    requires
        db.wf(),
    ensures
        ({
            let dated = PostRow { created_at: now, updated_at: now, ..post@ };
            let sent = outbound_post(dated, paired(db@.series, rows_view(remote_series@)));
            &&& s@.sql == insert_text(POSTS@, new_post_columns())
            &&& s@.params == seq![ParamSpec::Text(post.slug@)] + post_values(sent)
        }),
{
    let mut dated: post::Model = post;
    dated.created_at = now;
    dated.updated_at = now;
    post_insert_stmt(post_for_cloud(db, remote_series, dated))
}

/// The update of the cloud's copy of a post, which is found by its slug: ids are not
/// shared.
pub fn d1_update_post(
    db: &Store,
    remote_series: &Vec<series::Model>,
    post: post::Model,
    now: i64,
) -> (s: Statement)
    requires
        db.wf(),
    ensures
        ({
            let dated = PostRow { updated_at: now, ..post@ };
            let sent = outbound_post(dated, paired(db@.series, rows_view(remote_series@)));
            &&& s@.sql == update_text(POSTS@, post_content_columns(), slug_columns())
            &&& s@.params == post_values(sent).push(ParamSpec::Text(post.slug@))
        }),
{
    let mut dated: post::Model = post;
    dated.updated_at = now;
    post_update_stmt(post_for_cloud(db, remote_series, dated))
}

/// The insertion of a series that is new to the cloud, dated `now`.
pub fn d1_create_series(series: series::Model, now: i64) -> (s: Statement)
    ensures
        s@.sql == insert_text(SERIES@, new_series_columns()),
        s@.params == series_values(SeriesRow { created_at: now, ..series@ }),
{
    let mut dated: series::Model = series;
    dated.created_at = now;
    series_insert_stmt(dated)
}

}
