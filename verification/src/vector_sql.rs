//! Brute-force KNN vector-search SQL builder for the F32_BLOB embedding tables.
//!
//! # Parameter order
//!
//! The first `?` in the built SQL is the query embedding. Any filter params
//! produced by [`crate::filters::build_filter_clause_turso`] follow in the same
//! order they appear in `filter_clause`.

use vstd::prelude::*;
use vstd::string::*;
use crate::text::{decimal, occurs, occurs_at, push_decimal};

verus! {

/// Extra `JOIN` clauses on a line of their own; nothing for none.
pub open spec fn joins_sql(extra_joins: Seq<char>) -> Seq<char> {
    if extra_joins.len() == 0 {
        Seq::empty()
    } else {
        "\n    "@ + extra_joins
    }
}

/// The text of a nearest-neighbour query whose candidates have some columns
/// more than id, path, file size and distance.
pub open spec fn knn_sql_with(
    vt: Seq<char>,
    select: Seq<char>,
    extra_columns: Seq<char>,
    extra_joins: Seq<char>,
    filter_clause: Seq<char>,
    limit: nat,
    offset: nat,
    threshold: Seq<char>,
) -> Seq<char> {
    "SELECT "@ + select
        + " FROM (\n  SELECT i.id AS id, i.path AS path, m.file_size AS file_size,\n         vector_distance_cos(v.embedding, ?) AS distance"@
        + extra_columns + "\n    FROM "@ + vt
        + " v JOIN images i ON i.id = v.image_id\n    LEFT JOIN image_metadata m ON m.image_id = i.id"@
        + joins_sql(extra_joins) + "\n    WHERE 1=1"@ + filter_clause + "\n) WHERE distance <= "@
        + threshold + "\n  ORDER BY distance LIMIT "@ + decimal(limit) + " OFFSET "@ + decimal(
        offset,
    )
}

/// The text of [`knn_query`].
pub open spec fn knn_sql(
    vt: Seq<char>,
    select: Seq<char>,
    extra_joins: Seq<char>,
    filter_clause: Seq<char>,
    limit: nat,
    offset: nat,
    threshold: Seq<char>,
) -> Seq<char> {
    knn_sql_with(vt, select, Seq::empty(), extra_joins, filter_clause, limit, offset, threshold)
}

/// Build a brute-force cosine-distance KNN query over an F32_BLOB embedding table.
///
/// - `vt`: vector table name (e.g. `"image_vectors"`).
/// - `select`: columns to surface in the outer `SELECT` (e.g. `"id, path, distance"`).
/// - `extra_joins`: extra `JOIN` clauses inserted after the `LEFT JOIN image_metadata`;
///   pass `""` for none.
/// - `filter_clause`: SQL predicate fragment from
///   [`crate::filters::build_filter_clause_turso`]; either `""` or starts with
///   `" AND "`. It stands where its aliases `i` and `m` are in scope.
/// - `limit`: max rows to return.
/// - `offset`: result page offset.
/// - `threshold`: maximum cosine distance, written as a number (e.g. `0.5`); rows
///   with `distance > threshold` are excluded.
///
/// Caller must bind: `[embedding_blob, ...filter_params]`.
pub fn knn_query(
    vt: &str,
    select: &str,
    extra_joins: &str,
    filter_clause: &str,
    limit: usize,
    offset: usize,
    threshold: &str,
) -> (r: String)
    ensures
        r@ == knn_sql(
            vt@,
            select@,
            extra_joins@,
            filter_clause@,
            limit as nat,
            offset as nat,
            threshold@,
        ),
{
    let sql: String = knn_query_with(
        vt,
        select,
        "",
        extra_joins,
        filter_clause,
        limit,
        offset,
        threshold,
    );
    proof {
        reveal_strlit("");
        assert(""@ == Seq::<char>::empty());
    }
    sql
}

/// Like [`knn_query`], with columns of the extra joins for the outer `SELECT`
/// to choose from, each behind a comma (e.g. `", t.thumbnail_data AS
/// thumbnail_data"`).
pub(crate) fn knn_query_with(
    vt: &str,
    select: &str,
    extra_columns: &str,
    extra_joins: &str,
    filter_clause: &str,
    limit: usize,
    offset: usize,
    threshold: &str,
) -> (r: String)
    ensures
        r@ == knn_sql_with(
            vt@,
            select@,
            extra_columns@,
            extra_joins@,
            filter_clause@,
            limit as nat,
            offset as nat,
            threshold@,
        ),
{
    let mut out: String = "SELECT ".to_owned();
    out.append(select);
    out.append(
        " FROM (\n  SELECT i.id AS id, i.path AS path, m.file_size AS file_size,\n         vector_distance_cos(v.embedding, ?) AS distance",
    );
    out.append(extra_columns);
    out.append("\n    FROM ");
    out.append(vt);
    out.append(
        " v JOIN images i ON i.id = v.image_id\n    LEFT JOIN image_metadata m ON m.image_id = i.id",
    );
    let ghost head = out@;
    if !extra_joins.is_empty() {
        out.append("\n    ");
        out.append(extra_joins);
    }
    assert(out@ == head + joins_sql(extra_joins@));
    out.append("\n    WHERE 1=1");
    out.append(filter_clause);
    out.append("\n) WHERE distance <= ");
    out.append(threshold);
    out.append("\n  ORDER BY distance LIMIT ");
    push_decimal(&mut out, limit as u64);
    out.append(" OFFSET ");
    push_decimal(&mut out, offset as u64);
    out
}

/// The nearest come first: whatever is asked for, the rows are those within
/// the threshold, in rising order of their distance, and of those the page
/// that limit and offset give.
pub proof fn the_nearest_come_first(
    vt: Seq<char>,
    select: Seq<char>,
    extra_columns: Seq<char>,
    extra_joins: Seq<char>,
    filter_clause: Seq<char>,
    limit: nat,
    offset: nat,
    threshold: Seq<char>,
)
    ensures
        ({
            let sql = knn_sql_with(
                vt,
                select,
                extra_columns,
                extra_joins,
                filter_clause,
                limit,
                offset,
                threshold,
            );
            let end = ") WHERE distance <= "@ + threshold + "\n  ORDER BY distance LIMIT "@
                + decimal(limit) + " OFFSET "@ + decimal(offset);
            &&& sql.len() >= end.len()
            &&& sql.skip(sql.len() - end.len()) == end
        }),
{
    reveal_strlit("\n) WHERE distance <= ");
    reveal_strlit(") WHERE distance <= ");
    let sql = knn_sql_with(
        vt,
        select,
        extra_columns,
        extra_joins,
        filter_clause,
        limit,
        offset,
        threshold,
    );
    let end = ") WHERE distance <= "@ + threshold + "\n  ORDER BY distance LIMIT "@ + decimal(limit)
        + " OFFSET "@ + decimal(offset);
    let head = "SELECT "@ + select
        + " FROM (\n  SELECT i.id AS id, i.path AS path, m.file_size AS file_size,\n         vector_distance_cos(v.embedding, ?) AS distance"@
        + extra_columns + "\n    FROM "@ + vt
        + " v JOIN images i ON i.id = v.image_id\n    LEFT JOIN image_metadata m ON m.image_id = i.id"@
        + joins_sql(extra_joins) + "\n    WHERE 1=1"@ + filter_clause;
    assert("\n) WHERE distance <= "@ == seq!['\n'] + ") WHERE distance <= "@);
    assert(sql == head + (seq!['\n'] + end));
    assert(sql == head.push('\n') + end);
    assert(sql.skip(sql.len() - end.len()) == end);
}

/// Every filter applies to the candidates before they are ranked, and the
/// vectors of the table that was asked for are the ones that are searched:
/// the condition stands in the inner query, which reads that table.
pub proof fn filters_apply_before_ranking(
    vt: Seq<char>,
    select: Seq<char>,
    extra_columns: Seq<char>,
    extra_joins: Seq<char>,
    filter_clause: Seq<char>,
    limit: nat,
    offset: nat,
    threshold: Seq<char>,
)
    ensures
        ({
            let sql = knn_sql_with(
                vt,
                select,
                extra_columns,
                extra_joins,
                filter_clause,
                limit,
                offset,
                threshold,
            );
            &&& occurs("SELECT "@ + select + " FROM (\n"@, sql)
            &&& occurs("vector_distance_cos(v.embedding, ?) AS distance"@ + extra_columns, sql)
            &&& occurs("FROM "@ + vt + " v JOIN images i ON i.id = v.image_id"@, sql)
            &&& occurs("WHERE 1=1"@ + filter_clause + "\n) WHERE distance <= "@ + threshold, sql)
        }),
{
    reveal_strlit("SELECT ");
    reveal_strlit(
        " FROM (\n  SELECT i.id AS id, i.path AS path, m.file_size AS file_size,\n         vector_distance_cos(v.embedding, ?) AS distance",
    );
    reveal_strlit(" FROM (\n");
    reveal_strlit("vector_distance_cos(v.embedding, ?) AS distance");
    reveal_strlit("\n    FROM ");
    reveal_strlit("FROM ");
    reveal_strlit(
        " v JOIN images i ON i.id = v.image_id\n    LEFT JOIN image_metadata m ON m.image_id = i.id",
    );
    reveal_strlit(" v JOIN images i ON i.id = v.image_id");
    reveal_strlit("\n    WHERE 1=1");
    reveal_strlit("WHERE 1=1");
    let columns =
        " FROM (\n  SELECT i.id AS id, i.path AS path, m.file_size AS file_size,\n         vector_distance_cos(v.embedding, ?) AS distance"@;
    let tables =
        " v JOIN images i ON i.id = v.image_id\n    LEFT JOIN image_metadata m ON m.image_id = i.id"@;
    let sql = knn_sql_with(
        vt,
        select,
        extra_columns,
        extra_joins,
        filter_clause,
        limit,
        offset,
        threshold,
    );
    let a = "SELECT "@ + select;
    let b = a + columns + extra_columns;
    let c = b + "\n    FROM "@ + vt + tables + joins_sql(extra_joins);
    let w1 = "SELECT "@ + select + " FROM (\n"@;
    assert(sql.subrange(0, w1.len() as int) == w1);
    assert(occurs_at(w1, sql, 0));
    let w2 = "vector_distance_cos(v.embedding, ?) AS distance"@ + extra_columns;
    let at2 = b.len() - w2.len();
    assert(b.subrange(at2, b.len() as int) == w2);
    assert(sql.subrange(at2, at2 + w2.len()) == w2);
    assert(occurs_at(w2, sql, at2));
    let w3 = "FROM "@ + vt + " v JOIN images i ON i.id = v.image_id"@;
    let at3 = b.len() as int + 5;
    assert(sql.subrange(at3, at3 + w3.len()) == w3);
    assert(occurs_at(w3, sql, at3));
    let w4 = "WHERE 1=1"@ + filter_clause + "\n) WHERE distance <= "@ + threshold;
    let at4 = c.len() as int + 5;
    assert(sql.subrange(at4, at4 + w4.len()) == w4);
    assert(occurs_at(w4, sql, at4));
}

} // verus!
