//! The SQL of chains, statement by statement.

use pg_trickle::dvm::diff::{CteKind, DiffContext, Frontier};
use pg_trickle::dvm::operators::distinct::{diff_distinct, diff_distinct_counts};
use pg_trickle::dvm::parser::{Column, CteRegistry, Expr, OpTree, SortExpr, WindowExpr};

fn names(v: &[&str]) -> Vec<String> {
    v.iter().map(|s| s.to_string()).collect()
}

fn scan(oid: u32, table: &str, alias: &str, cols: &[&str], pk: &[&str]) -> OpTree {
    OpTree::Scan {
        table_oid: oid,
        table_name: table.to_string(),
        schema: "pub".to_string(),
        columns: cols
            .iter()
            .map(|c| Column { name: c.to_string(), type_oid: 23, is_nullable: true })
            .collect(),
        pk_columns: names(pk),
        alias: alias.to_string(),
    }
}

fn a() -> Box<OpTree> {
    Box::new(scan(1, "ta", "a", &["id", "v"], &["id"]))
}

fn b() -> Box<OpTree> {
    Box::new(scan(2, "tb", "b", &["bid", "w"], &["bid", "w"]))
}

fn col(alias: &str, name: &str) -> Expr {
    Expr::ColumnRef { table_alias: Some(alias.to_string()), column_name: name.to_string() }
}

fn on(left: Expr, right: Expr) -> Expr {
    Expr::BinaryOp { op: "=".to_string(), left: Box::new(left), right: Box::new(right) }
}

fn keys() -> Expr {
    on(col("a", "id"), col("b", "bid"))
}

fn windows(partition_by: Vec<Expr>) -> OpTree {
    OpTree::Window {
        window_exprs: vec![WindowExpr {
            func_name: "rank".to_string(),
            args: Vec::new(),
            partition_by: vec![col("a", "v")],
            order_by: vec![SortExpr { expr: col("a", "id"), ascending: false, nulls_first: true }],
            alias: "rk".to_string(),
        }],
        partition_by,
        pass_through: vec![(col("a", "id"), "id".to_string()), (col("a", "v"), "v".to_string())],
        child: a(),
    }
}

fn tree(union_all: bool) -> OpTree {
    OpTree::RecursiveCte {
        alias: "tree".to_string(),
        columns: names(&["id", "v"]),
        base: Box::new(OpTree::Filter {
            predicate: Expr::Raw("v IS NULL".to_string()),
            child: a(),
        }),
        recursive: Box::new(OpTree::Project {
            expressions: vec![col("a", "id"), col("t", "v")],
            aliases: names(&["id", "v"]),
            child: Box::new(OpTree::InnerJoin {
                condition: on(col("a", "v"), col("t", "id")),
                left: a(),
                right: self_ref(),
            }),
        }),
        union_all,
    }
}

fn c_table() -> Box<OpTree> {
    Box::new(scan(3, "tc", "c", &["x"], &[]))
}

fn joined() -> Box<OpTree> {
    Box::new(OpTree::InnerJoin { condition: keys(), left: a(), right: b() })
}

fn self_ref() -> Box<OpTree> {
    Box::new(OpTree::RecursiveSelfRef {
        cte_name: "tree".to_string(),
        alias: "t".to_string(),
        columns: names(&["id", "v"]),
    })
}

fn filtered_step() -> OpTree {
    OpTree::Filter {
        predicate: Expr::Raw("v > 0".to_string()),
        child: Box::new(OpTree::InnerJoin {
            condition: on(col("a", "v"), col("t", "id")),
            left: a(),
            right: self_ref(),
        }),
    }
}

fn left_step() -> OpTree {
    let own = Expr::ColumnRef { table_alias: None, column_name: "v".to_string() };
    OpTree::Project {
        expressions: vec![col("a", "id"), own],
        aliases: names(&["id", "v"]),
        child: Box::new(OpTree::LeftJoin {
            condition: on(col("a", "v"), col("t", "id")),
            left: Box::new(OpTree::Filter {
                predicate: Expr::Raw("id > 1".to_string()),
                child: a(),
            }),
            right: self_ref(),
        }),
    }
}

fn tree_of(recursive: OpTree) -> OpTree {
    OpTree::RecursiveCte {
        alias: "tree".to_string(),
        columns: names(&["id", "v"]),
        base: a(),
        recursive: Box::new(recursive),
        union_all: true,
    }
}

fn ctx() -> DiffContext {
    let mut prev = Frontier::new();
    prev.set_lsn(1, "0/1".to_string());
    prev.set_lsn(2, "0/2".to_string());
    let mut new = Frontier::new();
    new.set_lsn(1, "1/1".to_string());
    new.set_lsn(2, "1/2".to_string());
    DiffContext::new(prev, new).with_st_name("sch", "st")
}

/// Differentiates a tree, and compares the chain after the CTEs of its inputs.
fn check(mut c: DiffContext, op: &OpTree, inputs: usize, expected: &[(&str, CteKind, &str)]) {
    let delta = c.diff_node(op).unwrap();
    assert_eq!(c.ctes.len(), inputs + expected.len());
    for (cte, (name, kind, sql)) in c.ctes[inputs..].iter().zip(expected) {
        assert_eq!(cte.name, *name);
        assert_eq!(cte.kind, *kind);
        assert_eq!(cte.sql, *sql);
    }
    assert_eq!(delta.cte_name, expected[expected.len() - 1].0);
}

#[test]
fn chain_of_scan() {
    let op = *a();
    check(
        ctx(),
        &op,
        0,
        &[
            (
                "__pgs_cte_pk_stats_a_1",
                CteKind::Plain,
                r#"SELECT c.pk_hash AS __pk_hash, count(*) AS cnt
FROM "pgtrickle_changes".changes_1 c
WHERE c.lsn > '0/1'::pg_lsn AND c.lsn <= '1/1'::pg_lsn
GROUP BY c.pk_hash"#,
            ),
            (
                "__pgs_cte_single_a_2",
                CteKind::Plain,
                r#"SELECT c.pk_hash AS __pk_hash,
       pgtrickle.pg_trickle_hash(c."old_id"::TEXT) AS __pk_hash_old,
       c.action,
       c.change_id,
       c."new_id",
       c."old_id",
       c."new_v",
       c."old_v",
       c.action AS __first_action,
       c.action AS __last_action
FROM "pgtrickle_changes".changes_1 c
JOIN __pgs_cte_pk_stats_a_1 p ON p.__pk_hash = c.pk_hash AND p.cnt = 1
WHERE c.lsn > '0/1'::pg_lsn AND c.lsn <= '1/1'::pg_lsn"#,
            ),
            (
                "__pgs_cte_multi_raw_a_3",
                CteKind::Plain,
                r#"SELECT c.pk_hash AS __pk_hash,
       pgtrickle.pg_trickle_hash(c."old_id"::TEXT) AS __pk_hash_old,
       c.action,
       c.change_id,
       c."new_id",
       c."old_id",
       c."new_v",
       c."old_v",
       FIRST_VALUE(c.action) OVER (
           PARTITION BY c.pk_hash ORDER BY c.change_id
       ) AS __first_action,
       LAST_VALUE(c.action) OVER (
           PARTITION BY c.pk_hash ORDER BY c.change_id
           ROWS BETWEEN UNBOUNDED PRECEDING AND UNBOUNDED FOLLOWING
       ) AS __last_action
FROM "pgtrickle_changes".changes_1 c
JOIN __pgs_cte_pk_stats_a_1 p ON p.__pk_hash = c.pk_hash AND p.cnt > 1
WHERE c.lsn > '0/1'::pg_lsn AND c.lsn <= '1/1'::pg_lsn"#,
            ),
            (
                "__pgs_cte_scan_raw_a_4",
                CteKind::Plain,
                r#"SELECT * FROM __pgs_cte_single_a_2
UNION ALL
SELECT * FROM __pgs_cte_multi_raw_a_3"#,
            ),
            (
                "__pgs_cte_scan_a_5",
                CteKind::Plain,
                r#"-- DELETE events: row existed before (first_action != 'I')
-- Uses old_* columns from the earliest non-INSERT change per PK.
-- __pk_hash_old ensures the row_id matches the existing ST row,
-- which is critical for keyless tables where all-column hash changes.
SELECT c.__pk_hash_old AS __pgt_row_id,
       'D'::TEXT AS __pgt_action,
       c."old_id" AS "id",
       c."old_v" AS "v"
FROM (
  SELECT DISTINCT ON (s.__pk_hash)
         s.*
  FROM __pgs_cte_scan_raw_a_4 s
  WHERE s.action != 'I' AND s.__first_action != 'I'
  ORDER BY s.__pk_hash, s.change_id
) c

UNION ALL

-- INSERT events: row exists after (last_action != 'D')
-- Uses new_* columns from the latest non-DELETE change per PK.
SELECT c.__pk_hash AS __pgt_row_id,
       'I'::TEXT AS __pgt_action,
       c."new_id" AS "id",
       c."new_v" AS "v"
FROM (
  SELECT DISTINCT ON (s.__pk_hash)
         s.*
  FROM __pgs_cte_scan_raw_a_4 s
  WHERE s.action != 'D' AND s.__last_action != 'D'
  ORDER BY s.__pk_hash, s.change_id DESC
) c"#,
            ),
        ],
    );
}

#[test]
fn chain_of_scan_once_per_key() {
    let mut c = ctx();
    c.merge_safe_dedup = true;
    let op = *b();
    check(
        c,
        &op,
        0,
        &[
            (
                "__pgs_cte_pk_stats_b_1",
                CteKind::Plain,
                r#"SELECT c.pk_hash AS __pk_hash, count(*) AS cnt
FROM "pgtrickle_changes".changes_2 c
WHERE c.lsn > '0/2'::pg_lsn AND c.lsn <= '1/2'::pg_lsn
GROUP BY c.pk_hash"#,
            ),
            (
                "__pgs_cte_single_b_2",
                CteKind::Plain,
                r#"SELECT c.pk_hash AS __pk_hash,
       pgtrickle.pg_trickle_hash_multi(ARRAY[c."old_bid"::TEXT, c."old_w"::TEXT]) AS __pk_hash_old,
       c.action,
       c.change_id,
       c."new_bid",
       c."old_bid",
       c."new_w",
       c."old_w",
       c.action AS __first_action,
       c.action AS __last_action
FROM "pgtrickle_changes".changes_2 c
JOIN __pgs_cte_pk_stats_b_1 p ON p.__pk_hash = c.pk_hash AND p.cnt = 1
WHERE c.lsn > '0/2'::pg_lsn AND c.lsn <= '1/2'::pg_lsn"#,
            ),
            (
                "__pgs_cte_multi_raw_b_3",
                CteKind::Plain,
                r#"SELECT c.pk_hash AS __pk_hash,
       pgtrickle.pg_trickle_hash_multi(ARRAY[c."old_bid"::TEXT, c."old_w"::TEXT]) AS __pk_hash_old,
       c.action,
       c.change_id,
       c."new_bid",
       c."old_bid",
       c."new_w",
       c."old_w",
       FIRST_VALUE(c.action) OVER (
           PARTITION BY c.pk_hash ORDER BY c.change_id
       ) AS __first_action,
       LAST_VALUE(c.action) OVER (
           PARTITION BY c.pk_hash ORDER BY c.change_id
           ROWS BETWEEN UNBOUNDED PRECEDING AND UNBOUNDED FOLLOWING
       ) AS __last_action
FROM "pgtrickle_changes".changes_2 c
JOIN __pgs_cte_pk_stats_b_1 p ON p.__pk_hash = c.pk_hash AND p.cnt > 1
WHERE c.lsn > '0/2'::pg_lsn AND c.lsn <= '1/2'::pg_lsn"#,
            ),
            (
                "__pgs_cte_scan_raw_b_4",
                CteKind::Plain,
                r#"SELECT * FROM __pgs_cte_single_b_2
UNION ALL
SELECT * FROM __pgs_cte_multi_raw_b_3"#,
            ),
            (
                "__pgs_cte_scan_b_5",
                CteKind::Plain,
                r#"-- DELETE events: row existed before AND was truly deleted, OR
-- the row hash changed (keyless table update — old row must be removed).
-- For PK-based tables __pk_hash_old == __pk_hash always, so the OR
-- clause never fires → no regression.
SELECT c.__pk_hash_old AS __pgt_row_id,
       'D'::TEXT AS __pgt_action,
       c."old_bid" AS "bid",
       c."old_w" AS "w"
FROM (
  SELECT DISTINCT ON (s.__pk_hash_old)
         s.*
  FROM __pgs_cte_scan_raw_b_4 s
  WHERE s.__first_action != 'I'
    AND (s.__last_action = 'D' OR s.__pk_hash_old != s.__pk_hash)
  ORDER BY s.__pk_hash_old, s.change_id
) c

UNION ALL

-- INSERT events: row exists after (handles inserts + updates)
SELECT c.__pk_hash AS __pgt_row_id,
       'I'::TEXT AS __pgt_action,
       c."new_bid" AS "bid",
       c."new_w" AS "w"
FROM (
  SELECT DISTINCT ON (s.__pk_hash)
         s.*
  FROM __pgs_cte_scan_raw_b_4 s
  WHERE s.__last_action != 'D'
  ORDER BY s.__pk_hash, s.change_id DESC
) c"#,
            ),
        ],
    );
}

#[test]
fn chain_of_scan_without_key() {
    let op = scan(7, "tk", "k", &["x", "y"], &[]);
    check(
        ctx(),
        &op,
        0,
        &[
            (
                "__pgs_cte_pk_stats_k_1",
                CteKind::Plain,
                r#"SELECT c.pk_hash AS __pk_hash, count(*) AS cnt
FROM "pgtrickle_changes".changes_7 c
WHERE c.lsn > '0/0'::pg_lsn AND c.lsn <= '0/0'::pg_lsn
GROUP BY c.pk_hash"#,
            ),
            (
                "__pgs_cte_single_k_2",
                CteKind::Plain,
                r#"SELECT c.pk_hash AS __pk_hash,
       pgtrickle.pg_trickle_hash_multi(ARRAY[c."old_x"::TEXT, c."old_y"::TEXT]) AS __pk_hash_old,
       c.action,
       c.change_id,
       c."new_x",
       c."old_x",
       c."new_y",
       c."old_y",
       c.action AS __first_action,
       c.action AS __last_action
FROM "pgtrickle_changes".changes_7 c
JOIN __pgs_cte_pk_stats_k_1 p ON p.__pk_hash = c.pk_hash AND p.cnt = 1
WHERE c.lsn > '0/0'::pg_lsn AND c.lsn <= '0/0'::pg_lsn"#,
            ),
            (
                "__pgs_cte_multi_raw_k_3",
                CteKind::Plain,
                r#"SELECT c.pk_hash AS __pk_hash,
       pgtrickle.pg_trickle_hash_multi(ARRAY[c."old_x"::TEXT, c."old_y"::TEXT]) AS __pk_hash_old,
       c.action,
       c.change_id,
       c."new_x",
       c."old_x",
       c."new_y",
       c."old_y",
       FIRST_VALUE(c.action) OVER (
           PARTITION BY c.pk_hash ORDER BY c.change_id
       ) AS __first_action,
       LAST_VALUE(c.action) OVER (
           PARTITION BY c.pk_hash ORDER BY c.change_id
           ROWS BETWEEN UNBOUNDED PRECEDING AND UNBOUNDED FOLLOWING
       ) AS __last_action
FROM "pgtrickle_changes".changes_7 c
JOIN __pgs_cte_pk_stats_k_1 p ON p.__pk_hash = c.pk_hash AND p.cnt > 1
WHERE c.lsn > '0/0'::pg_lsn AND c.lsn <= '0/0'::pg_lsn"#,
            ),
            (
                "__pgs_cte_scan_raw_k_4",
                CteKind::Plain,
                r#"SELECT * FROM __pgs_cte_single_k_2
UNION ALL
SELECT * FROM __pgs_cte_multi_raw_k_3"#,
            ),
            (
                "__pgs_cte_scan_k_5",
                CteKind::Plain,
                r#"-- DELETE events: row existed before (first_action != 'I')
-- Uses old_* columns from the earliest non-INSERT change per PK.
-- __pk_hash_old ensures the row_id matches the existing ST row,
-- which is critical for keyless tables where all-column hash changes.
SELECT c.__pk_hash_old AS __pgt_row_id,
       'D'::TEXT AS __pgt_action,
       c."old_x" AS "x",
       c."old_y" AS "y"
FROM (
  SELECT DISTINCT ON (s.__pk_hash)
         s.*
  FROM __pgs_cte_scan_raw_k_4 s
  WHERE s.action != 'I' AND s.__first_action != 'I'
  ORDER BY s.__pk_hash, s.change_id
) c

UNION ALL

-- INSERT events: row exists after (last_action != 'D')
-- Uses new_* columns from the latest non-DELETE change per PK.
SELECT c.__pk_hash AS __pgt_row_id,
       'I'::TEXT AS __pgt_action,
       c."new_x" AS "x",
       c."new_y" AS "y"
FROM (
  SELECT DISTINCT ON (s.__pk_hash)
         s.*
  FROM __pgs_cte_scan_raw_k_4 s
  WHERE s.action != 'D' AND s.__last_action != 'D'
  ORDER BY s.__pk_hash, s.change_id DESC
) c"#,
            ),
        ],
    );
}

#[test]
fn chain_of_filter() {
    let op = OpTree::Filter { predicate: on(col("a", "id"), col("a", "v")), child: a() };
    check(
        ctx(),
        &op,
        5,
        &[
            (
                "__pgs_cte_filter_6",
                CteKind::Plain,
                r#"SELECT __pgt_row_id, __pgt_action, "id", "v"
FROM __pgs_cte_scan_a_5
WHERE ("id" = "v")"#,
            ),
        ],
    );
}

#[test]
fn chain_of_inner_join() {
    let op = OpTree::InnerJoin { condition: keys(), left: a(), right: b() };
    check(
        ctx(),
        &op,
        10,
        &[
            (
                "__pgs_cte_join_11",
                CteKind::Plain,
                r#"-- Part 1: delta_left JOIN current_right (semi-join filtered)
SELECT pgstream.pg_stream_hash_multi(ARRAY[dl.__pgs_row_id::TEXT, r."bid"::TEXT, r."w"::TEXT]) AS __pgs_row_id,
       dl.__pgs_action,
       dl."id" AS "a__id", dl."v" AS "a__v", r."bid" AS "b__bid", r."w" AS "b__w"
FROM __pgs_cte_scan_a_5 dl
JOIN (SELECT * FROM "pub"."tb" WHERE bid IN (SELECT DISTINCT id FROM __pgs_cte_scan_a_5)) r ON (dl."id" = r."bid")

UNION ALL

-- Part 2: pre-change_left JOIN delta_right
-- For Scan children: L₀ = L_current EXCEPT ALL Δ_inserts UNION ALL Δ_deletes
-- For nested joins: L₁ = current snapshot (semi-join filtered)
SELECT pgstream.pg_stream_hash_multi(ARRAY[l."id"::TEXT, l."v"::TEXT, dr.__pgs_row_id::TEXT]) AS __pgs_row_id,
       dr.__pgs_action,
       l."id" AS "a__id", l."v" AS "a__v", dr."bid" AS "b__bid", dr."w" AS "b__w"
FROM (SELECT * FROM (SELECT "id", "v" FROM "pub"."ta" "a" EXCEPT ALL SELECT "id", "v" FROM __pgs_cte_scan_a_5 WHERE __pgs_action = 'I' UNION ALL SELECT "id", "v" FROM __pgs_cte_scan_a_5 WHERE __pgs_action = 'D') __l0 WHERE id IN (SELECT DISTINCT bid FROM __pgs_cte_scan_b_10)) l
JOIN __pgs_cte_scan_b_10 dr ON (l."id" = dr."bid")"#,
            ),
        ],
    );
}

#[test]
fn chain_of_nested_inner_join() {
    let op = OpTree::InnerJoin {
        condition: on(col("a", "v"), col("c", "x")),
        left: joined(),
        right: c_table(),
    };
    check(
        ctx(),
        &op,
        16,
        &[
            (
                "__pgs_cte_join_17",
                CteKind::Plain,
                r#"-- Part 1: delta_left JOIN current_right (semi-join filtered)
SELECT pgstream.pg_stream_hash_multi(ARRAY[dl.__pgs_row_id::TEXT, r."x"::TEXT]) AS __pgs_row_id,
       dl.__pgs_action,
       dl."a__id" AS "join__a__id", dl."a__v" AS "join__a__v", dl."b__bid" AS "join__b__bid", dl."b__w" AS "join__b__w", r."x" AS "c__x"
FROM __pgs_cte_join_11 dl
JOIN "pub"."tc" r ON (dl."a__v" = r."x")

UNION ALL

-- Part 2: pre-change_left JOIN delta_right
-- For Scan children: L₀ = L_current EXCEPT ALL Δ_inserts UNION ALL Δ_deletes
-- For nested joins: L₁ = current snapshot (semi-join filtered)
SELECT pgstream.pg_stream_hash_multi(ARRAY[row_to_json(l)::text, dr.__pgs_row_id::TEXT]) AS __pgs_row_id,
       dr.__pgs_action,
       l."a__id" AS "join__a__id", l."a__v" AS "join__a__v", l."b__bid" AS "join__b__bid", l."b__w" AS "join__b__w", dr."x" AS "c__x"
FROM (SELECT "a"."id" AS "a__id", "a"."v" AS "a__v", "b"."bid" AS "b__bid", "b"."w" AS "b__w" FROM "pub"."ta" "a" JOIN "pub"."tb" "b" ON (a."id" = b."bid")) l
JOIN __pgs_cte_scan_c_16 dr ON (l."a__v" = dr."x")"#,
            ),
        ],
    );
}

#[test]
fn chain_of_left_join() {
    let op = OpTree::LeftJoin { condition: keys(), left: a(), right: b() };
    check(
        ctx(),
        &op,
        10,
        &[
            (
                "__pgs_cte_lj_right_flags_11",
                CteKind::Plain,
                r#"SELECT bool_or(__pgt_action = 'I') AS has_ins,bool_or(__pgt_action = 'D') AS has_del FROM __pgs_cte_scan_b_10"#,
            ),
            (
                "__pgs_cte_left_join_12",
                CteKind::Plain,
                r#"-- Part 1: delta_left JOIN current_right (matching rows)
SELECT pgtrickle.pg_trickle_hash_multi(ARRAY[dl.__pgt_row_id::TEXT, pgtrickle.pg_trickle_hash(row_to_json(r)::text)::TEXT]) AS __pgt_row_id,
       dl.__pgt_action,
       dl."id" AS "a__id", dl."v" AS "a__v", r."bid" AS "b__bid", r."w" AS "b__w"
FROM __pgs_cte_scan_a_5 dl
JOIN "pub"."tb" r ON (dl."id" = r."bid")

UNION ALL

-- Part 2: current_left JOIN delta_right
SELECT pgtrickle.pg_trickle_hash_multi(ARRAY[pgtrickle.pg_trickle_hash(row_to_json(l)::text)::TEXT, dr.__pgt_row_id::TEXT]) AS __pgt_row_id,
       dr.__pgt_action,
       l."id" AS "a__id", l."v" AS "a__v", dr."bid" AS "b__bid", dr."w" AS "b__w"
FROM "pub"."ta" l
JOIN __pgs_cte_scan_b_10 dr ON (l."id" = dr."bid")

UNION ALL

-- Part 3: delta_left anti-join right (non-matching left rows get NULL right cols)
SELECT dl.__pgt_row_id,
       dl.__pgt_action,
       dl."id" AS "a__id", dl."v" AS "a__v", NULL AS "b__bid", NULL AS "b__w"
FROM __pgs_cte_scan_a_5 dl
WHERE NOT EXISTS (
    SELECT 1 FROM "pub"."tb" r WHERE (dl."id" = r."bid")
)

UNION ALL

-- Part 4: Delete stale NULL-padded rows when a left row gains its FIRST right match.
-- When a right INSERT creates a new match for a left row that previously had NO
-- matching right rows (was NULL-padded), the NULL-padded ST row must be removed.
-- We check R_old (pre-change right) to verify the left row truly had no matches
-- before. Without this check, left rows that ALREADY had matches would get
-- spurious D(NULL-padded) rows that corrupt intermediate aggregate old-state
-- reconstruction via EXCEPT ALL/UNION ALL.
SELECT 0::BIGINT AS __pgt_row_id,
       'D'::TEXT AS __pgt_action,
       l."id" AS "a__id", l."v" AS "a__v", NULL AS "b__bid", NULL AS "b__w"
FROM "pub"."ta" l
JOIN __pgs_cte_scan_b_10 dr ON (l."id" = dr."bid")
WHERE dr.__pgt_action = 'I'
  AND (SELECT has_ins FROM __pgs_cte_lj_right_flags_11)
  AND NOT EXISTS (
    SELECT 1 FROM (SELECT "bid", "w" FROM "pub"."tb" "b" EXCEPT ALL SELECT "bid", "w" FROM __pgs_cte_scan_b_10 WHERE __pgt_action = 'I' UNION ALL SELECT "bid", "w" FROM __pgs_cte_scan_b_10 WHERE __pgt_action = 'D') __pgt_r_old WHERE (l."id" = __pgt_r_old."bid")
  )

UNION ALL

-- Part 5: Insert NULL-padded rows when a left row loses ALL right matches.
-- When a right DELETE removes the last match for a left row, the left row
-- reverts to NULL-padded. Check current right (post-changes) to verify no
-- remaining matches exist, AND check R_old to confirm the left row previously
-- HAD matches (otherwise it was already NULL-padded — no change needed).
SELECT 0::BIGINT AS __pgt_row_id,
       'I'::TEXT AS __pgt_action,
       l."id" AS "a__id", l."v" AS "a__v", NULL AS "b__bid", NULL AS "b__w"
FROM "pub"."ta" l
JOIN __pgs_cte_scan_b_10 dr ON (l."id" = dr."bid")
WHERE dr.__pgt_action = 'D'
  AND (SELECT has_del FROM __pgs_cte_lj_right_flags_11)
  AND NOT EXISTS (
    SELECT 1 FROM "pub"."tb" r WHERE (l."id" = r."bid")
  )
  AND EXISTS (
    SELECT 1 FROM (SELECT "bid", "w" FROM "pub"."tb" "b" EXCEPT ALL SELECT "bid", "w" FROM __pgs_cte_scan_b_10 WHERE __pgt_action = 'I' UNION ALL SELECT "bid", "w" FROM __pgs_cte_scan_b_10 WHERE __pgt_action = 'D') __pgt_r_old WHERE (l."id" = __pgt_r_old."bid")
  )"#,
            ),
        ],
    );
}

#[test]
fn chain_of_full_join() {
    let op = OpTree::FullJoin { condition: keys(), left: a(), right: b() };
    check(
        ctx(),
        &op,
        10,
        &[
            (
                "__pgs_cte_fj_left_flags_11",
                CteKind::Plain,
                r#"SELECT bool_or(__pgs_action = 'I') AS has_ins,bool_or(__pgs_action = 'D') AS has_del FROM __pgs_cte_scan_a_5"#,
            ),
            (
                "__pgs_cte_fj_right_flags_12",
                CteKind::Plain,
                r#"SELECT bool_or(__pgs_action = 'I') AS has_ins,bool_or(__pgs_action = 'D') AS has_del FROM __pgs_cte_scan_b_10"#,
            ),
            (
                "__pgs_cte_full_join_13",
                CteKind::Plain,
                r#"-- Part 1: delta_left JOIN current_right (matching rows)
SELECT pgstream.pg_stream_hash_multi(ARRAY[dl.__pgs_row_id::TEXT, pgstream.pg_stream_hash(row_to_json(r)::text)::TEXT]) AS __pgs_row_id,
       dl.__pgs_action,
       dl."id" AS "a__id", dl."v" AS "a__v", r."bid" AS "b__bid", r."w" AS "b__w"
FROM __pgs_cte_scan_a_5 dl
JOIN "pub"."tb" r ON (dl."id" = r."bid")

UNION ALL

-- Part 2: current_left JOIN delta_right
SELECT pgstream.pg_stream_hash_multi(ARRAY[pgstream.pg_stream_hash(row_to_json(l)::text)::TEXT, dr.__pgs_row_id::TEXT]) AS __pgs_row_id,
       dr.__pgs_action,
       l."id" AS "a__id", l."v" AS "a__v", dr."bid" AS "b__bid", dr."w" AS "b__w"
FROM "pub"."ta" l
JOIN __pgs_cte_scan_b_10 dr ON (l."id" = dr."bid")

UNION ALL

-- Part 3: delta_left anti-join right (non-matching left rows → NULL right cols)
SELECT dl.__pgs_row_id,
       dl.__pgs_action,
       dl."id" AS "a__id", dl."v" AS "a__v", NULL AS "b__bid", NULL AS "b__w"
FROM __pgs_cte_scan_a_5 dl
WHERE NOT EXISTS (
    SELECT 1 FROM "pub"."tb" r WHERE (dl."id" = r."bid")
)

UNION ALL

-- Part 4: Delete stale NULL-padded left rows when new right matches appear
SELECT 0::BIGINT AS __pgs_row_id,
       'D'::TEXT AS __pgs_action,
       l."id" AS "a__id", l."v" AS "a__v", NULL AS "b__bid", NULL AS "b__w"
FROM "pub"."ta" l
JOIN __pgs_cte_scan_b_10 dr ON (l."id" = dr."bid")
WHERE dr.__pgs_action = 'I'
  AND (SELECT has_ins FROM __pgs_cte_fj_right_flags_12)
  AND NOT EXISTS (
    SELECT 1 FROM (SELECT "bid", "w" FROM "pub"."tb" "b" EXCEPT ALL SELECT "bid", "w" FROM __pgs_cte_scan_b_10 WHERE __pgs_action = 'I' UNION ALL SELECT "bid", "w" FROM __pgs_cte_scan_b_10 WHERE __pgs_action = 'D') __pgs_r_old WHERE (l."id" = __pgs_r_old."bid")
)

UNION ALL

-- Part 5: Insert NULL-padded left rows when left row loses all right matches
SELECT 0::BIGINT AS __pgs_row_id,
       'I'::TEXT AS __pgs_action,
       l."id" AS "a__id", l."v" AS "a__v", NULL AS "b__bid", NULL AS "b__w"
FROM "pub"."ta" l
JOIN __pgs_cte_scan_b_10 dr ON (l."id" = dr."bid")
WHERE dr.__pgs_action = 'D'
  AND (SELECT has_del FROM __pgs_cte_fj_right_flags_12)
  AND NOT EXISTS (
    SELECT 1 FROM "pub"."tb" r WHERE (l."id" = r."bid")
)
  AND EXISTS (
    SELECT 1 FROM (SELECT "bid", "w" FROM "pub"."tb" "b" EXCEPT ALL SELECT "bid", "w" FROM __pgs_cte_scan_b_10 WHERE __pgs_action = 'I' UNION ALL SELECT "bid", "w" FROM __pgs_cte_scan_b_10 WHERE __pgs_action = 'D') __pgs_r_old WHERE (l."id" = __pgs_r_old."bid")
)

UNION ALL

-- Part 6: delta_right anti-join left (non-matching right rows → NULL left cols)
SELECT dr.__pgs_row_id,
       dr.__pgs_action,
       NULL AS "a__id", NULL AS "a__v", dr."bid" AS "b__bid", dr."w" AS "b__w"
FROM __pgs_cte_scan_b_10 dr
WHERE NOT EXISTS (
    SELECT 1 FROM "pub"."ta" l WHERE (l."id" = dr."bid")
)

UNION ALL

-- Part 7a: Delete stale NULL-padded right rows when new left matches appear
SELECT 0::BIGINT AS __pgs_row_id,
       'D'::TEXT AS __pgs_action,
       NULL AS "a__id", NULL AS "a__v", r."bid" AS "b__bid", r."w" AS "b__w"
FROM "pub"."tb" r
JOIN __pgs_cte_scan_a_5 dl ON (dl."id" = r."bid")
WHERE dl.__pgs_action = 'I'
  AND (SELECT has_ins FROM __pgs_cte_fj_left_flags_11)
  AND NOT EXISTS (
    SELECT 1 FROM (SELECT "id", "v" FROM "pub"."ta" "a" EXCEPT ALL SELECT "id", "v" FROM __pgs_cte_scan_a_5 WHERE __pgs_action = 'I' UNION ALL SELECT "id", "v" FROM __pgs_cte_scan_a_5 WHERE __pgs_action = 'D') __pgs_l_old WHERE (__pgs_l_old."id" = r."bid")
)

UNION ALL

-- Part 7b: Insert NULL-padded right rows when right row loses all left matches
SELECT 0::BIGINT AS __pgs_row_id,
       'I'::TEXT AS __pgs_action,
       NULL AS "a__id", NULL AS "a__v", r."bid" AS "b__bid", r."w" AS "b__w"
FROM "pub"."tb" r
JOIN __pgs_cte_scan_a_5 dl ON (dl."id" = r."bid")
WHERE dl.__pgs_action = 'D'
  AND (SELECT has_del FROM __pgs_cte_fj_left_flags_11)
  AND NOT EXISTS (
    SELECT 1 FROM "pub"."ta" l WHERE (l."id" = r."bid")
)
  AND EXISTS (
    SELECT 1 FROM (SELECT "id", "v" FROM "pub"."ta" "a" EXCEPT ALL SELECT "id", "v" FROM __pgs_cte_scan_a_5 WHERE __pgs_action = 'I' UNION ALL SELECT "id", "v" FROM __pgs_cte_scan_a_5 WHERE __pgs_action = 'D') __pgs_l_old WHERE (__pgs_l_old."id" = r."bid")
)"#,
            ),
        ],
    );
}

#[test]
fn chain_of_semi_join() {
    let op = OpTree::SemiJoin { condition: keys(), left: a(), right: b() };
    check(
        ctx(),
        &op,
        10,
        &[
            (
                "__pgs_cte_r_old_11",
                CteKind::Materialized,
                r#"SELECT "bid", "w" FROM "pub"."tb" "b" EXCEPT ALL SELECT "bid", "w" FROM __pgs_cte_scan_b_10 WHERE __pgt_action = 'I' UNION ALL SELECT "bid", "w" FROM __pgs_cte_scan_b_10 WHERE __pgt_action = 'D'"#,
            ),
            (
                "__pgs_cte_semi_join_12",
                CteKind::Plain,
                r#"-- Part 1: delta_left rows that match right (semi-join filter)
-- INSERT: new left row has match in R_current  → emit INSERT
-- DELETE: old left row had match in R_old      → emit DELETE
-- For INSERTs we check the live right table (post-change state).
-- For DELETEs we check R_old (pre-change state) because the matching
-- right rows may also have been deleted in the same mutation cycle
-- (e.g. RF2 deletes both orders AND their lineitems simultaneously).
SELECT dl.__pgt_row_id AS __pgt_row_id,
       dl.__pgt_action,
       dl."id", dl."v"
FROM __pgs_cte_scan_a_5 dl
WHERE CASE WHEN dl.__pgt_action = 'D'
           THEN EXISTS (SELECT 1 FROM __pgs_cte_r_old_11 r_old WHERE (dl."id" = r_old."bid"))
           ELSE EXISTS (SELECT 1 FROM "pub"."tb" r WHERE (dl."id" = r."bid"))
      END

UNION ALL

-- Part 2: left rows whose semi-join status changed due to right-side delta
-- Emit 'I' if row now matches R_current but didn't match R_old
-- Emit 'D' if row matched R_old but no longer matches R_current
-- Left snapshot is pre-filtered by delta-right join keys for performance.
SELECT pgtrickle.pg_trickle_hash_multi(ARRAY[l."id"::TEXT, l."v"::TEXT]) AS __pgt_row_id,
       CASE WHEN EXISTS (SELECT 1 FROM "pub"."tb" r WHERE (l."id" = r."bid"))
            THEN 'I' ELSE 'D'
       END AS __pgt_action,
       l."id", l."v"
FROM (SELECT * FROM "pub"."ta" "__pgt_pre" WHERE __pgt_pre."id" IN (SELECT DISTINCT dr."bid" FROM __pgs_cte_scan_b_10 dr)) l
WHERE EXISTS (SELECT 1 FROM __pgs_cte_scan_b_10 dr WHERE (l."id" = dr."bid"))
  AND (EXISTS (SELECT 1 FROM "pub"."tb" r WHERE (l."id" = r."bid"))
       <> EXISTS (SELECT 1 FROM __pgs_cte_r_old_11 r_old WHERE (l."id" = r_old."bid")))"#,
            ),
        ],
    );
}

#[test]
fn chain_of_anti_join() {
    let op = OpTree::AntiJoin { condition: keys(), left: a(), right: b() };
    check(
        ctx(),
        &op,
        10,
        &[
            (
                "__pgs_cte_anti_join_11",
                CteKind::Plain,
                r#"-- Part 1: delta_left rows that have NO match in current right (anti-join filter)
SELECT dl.__pgs_row_id AS __pgs_row_id,
       dl.__pgs_action,
       dl."id", dl."v"
FROM __pgs_cte_scan_a_5 dl
WHERE NOT EXISTS (SELECT 1 FROM "pub"."tb" r WHERE (dl."id" = r."bid"))

UNION ALL

-- Part 2: left rows whose anti-join status changed due to right-side delta
-- Emit 'I' if row now has no match in R_current but had a match in R_old
-- Emit 'D' if row had no match in R_old but now has a match in R_current
SELECT pgstream.pg_stream_hash_multi(ARRAY[l."id"::TEXT, l."v"::TEXT]) AS __pgs_row_id,
       CASE WHEN NOT EXISTS (SELECT 1 FROM "pub"."tb" r WHERE (l."id" = r."bid"))
            THEN 'I' ELSE 'D'
       END AS __pgs_action,
       l."id", l."v"
FROM "pub"."ta" l
WHERE EXISTS (SELECT 1 FROM __pgs_cte_scan_b_10 dr WHERE (l."id" = dr."bid"))
  AND (EXISTS (SELECT 1 FROM "pub"."tb" r WHERE (l."id" = r."bid"))
       <> EXISTS (SELECT 1 FROM (SELECT "bid", "w" FROM "pub"."tb" "b" EXCEPT ALL SELECT "bid", "w" FROM __pgs_cte_scan_b_10 WHERE __pgs_action = 'I' UNION ALL SELECT "bid", "w" FROM __pgs_cte_scan_b_10 WHERE __pgs_action = 'D')  r_old WHERE (l."id" = r_old."bid")))"#,
            ),
        ],
    );
}

#[test]
fn chain_of_distinct() {
    let op = OpTree::Distinct { child: a() };
    check(
        ctx(),
        &op,
        5,
        &[
            (
                "__pgs_cte_dist_delta_6",
                CteKind::Plain,
                r#"SELECT pgstream.pg_stream_hash_multi(ARRAY[("id"::TEXT)::TEXT, ("v"::TEXT)::TEXT]) AS __pgs_row_id,
"id", "v",
SUM(CASE WHEN __pgs_action = 'I' THEN 1 ELSE -1 END) AS __net_count
FROM __pgs_cte_scan_a_5
GROUP BY "id", "v""#,
            ),
            (
                "__pgs_cte_dist_merge_7",
                CteKind::Plain,
                r#"SELECT d.__pgs_row_id,
d."id", d."v",
d.__net_count,
COALESCE(st.__pgs_count, 0) AS old_count,
COALESCE(st.__pgs_count, 0) + d.__net_count AS new_count
FROM __pgs_cte_dist_delta_6 d
LEFT JOIN "sch"."st" st ON st.__pgs_row_id = d.__pgs_row_id"#,
            ),
            (
                "__pgs_cte_dist_final_8",
                CteKind::Plain,
                r#"-- Row appears: was absent, now present
SELECT __pgs_row_id, 'I' AS __pgs_action,
       "id", "v", new_count AS __pgs_count
FROM __pgs_cte_dist_merge_7
WHERE old_count <= 0 AND new_count > 0

UNION ALL

-- Row vanishes: was present, now absent
SELECT __pgs_row_id, 'D' AS __pgs_action,
       "id", "v", 0 AS __pgs_count
FROM __pgs_cte_dist_merge_7
WHERE old_count > 0 AND new_count <= 0"#,
            ),
        ],
    );
}

#[test]
fn counts_that_do_not_cross_zero_are_stored_apart() {
    let op = OpTree::Distinct { child: a() };
    let mut c = ctx();
    let sql = diff_distinct_counts(&mut c, &op).unwrap();
    assert_eq!(c.ctes.len(), 7);
    assert!(sql.starts_with("WITH "));
    assert!(sql.ends_with(
        r#"
UPDATE "sch"."st" st
SET __pgs_count = m.new_count
FROM __pgs_cte_dist_merge_7 m
WHERE st.__pgs_row_id = m.__pgs_row_id
  AND m.old_count > 0 AND m.new_count > 0 AND m.new_count != m.old_count"#
    ));
    let mut d = ctx();
    let delta = diff_distinct(&mut d, &op).unwrap();
    let query = d.build_with_query(&delta.cte_name);
    assert!(!query.contains("new_count != old_count"));
    assert!(diff_distinct_counts(&mut c, &a()).is_err());
}

#[test]
fn changes_of_match_are_swapped_between_joins_on_existence() {
    let mut c = ctx();
    let anti = OpTree::AntiJoin { condition: keys(), left: a(), right: b() };
    let d = c.diff_node(&anti).unwrap();
    let sql = &c.ctes[c.ctes.len() - 1].sql;
    assert!(sql.contains(
        "CASE WHEN NOT EXISTS (SELECT 1 FROM \"pub\".\"tb\" r WHERE (l.\"id\" = r.\"bid\"))\n            THEN 'I' ELSE 'D'"
    ));
    let mut c = ctx();
    let semi = OpTree::SemiJoin { condition: keys(), left: a(), right: b() };
    let e = c.diff_node(&semi).unwrap();
    let sql = &c.ctes[c.ctes.len() - 1].sql;
    assert!(sql.contains(
        "CASE WHEN EXISTS (SELECT 1 FROM \"pub\".\"tb\" r WHERE (l.\"id\" = r.\"bid\"))\n            THEN 'I' ELSE 'D'"
    ));
    assert_eq!(d.columns, e.columns);
}

#[test]
fn chain_of_window() {
    let op = windows(vec![col("a", "v")]);
    check(
        ctx(),
        &op,
        5,
        &[
            (
                "__pgs_cte_win_parts_6",
                CteKind::Plain,
                r#"SELECT DISTINCT "a.v"
FROM __pgs_cte_scan_a_5"#,
            ),
            (
                "__pgs_cte_win_old_7",
                CteKind::Plain,
                r#"SELECT st."__pgs_row_id", st."id", st."v", st."rk"
FROM "sch"."st" st
WHERE EXISTS (
SELECT 1 FROM __pgs_cte_win_parts_6 cp WHERE st."a.v" = cp."a.v"
)"#,
            ),
            (
                "__pgs_cte_win_input_8",
                CteKind::Plain,
                r#"-- Surviving old rows (pass-through only, window cols stripped)
SELECT o."__pgs_row_id", o."id", o."v"
FROM __pgs_cte_win_old_7 o
WHERE o."__pgs_row_id" NOT IN (
SELECT "__pgs_row_id" FROM __pgs_cte_scan_a_5 WHERE "__pgs_action" = 'D'
)
UNION ALL
-- Newly inserted rows
SELECT d."__pgs_row_id", d."id", d."v"
FROM __pgs_cte_scan_a_5 d
WHERE d."__pgs_action" = 'I'
AND EXISTS (
SELECT 1 FROM __pgs_cte_win_parts_6 cp WHERE d."a.v" = cp."a.v"
)"#,
            ),
            (
                "__pgs_cte_win_recomp_9",
                CteKind::Plain,
                r#"SELECT pgtrickle.pg_trickle_hash_multi(ARRAY[(ci."id"::TEXT)::TEXT, (ci."v"::TEXT)::TEXT]) AS "__pgs_row_id",
ci."id", ci."v",
rank() OVER (PARTITION BY a.v ORDER BY a.id DESC NULLS FIRST) AS "rk"
FROM __pgs_cte_win_input_8 ci"#,
            ),
            (
                "__pgs_cte_win_final_10",
                CteKind::Plain,
                r#"-- Delete old window results for changed partitions
SELECT "__pgs_row_id", 'D' AS "__pgs_action", "id", "v", "rk"
FROM __pgs_cte_win_old_7
UNION ALL
-- Insert recomputed window results
SELECT "__pgs_row_id", 'I' AS "__pgs_action", "id", "v", "rk"
FROM __pgs_cte_win_recomp_9"#,
            ),
        ],
    );
}

#[test]
fn chain_of_window_without_partition() {
    let op = windows(Vec::new());
    check(
        ctx(),
        &op,
        5,
        &[
            (
                "__pgs_cte_win_parts_6",
                CteKind::Plain,
                r#"SELECT 1 AS __pgs_dummy
FROM __pgs_cte_scan_a_5 LIMIT 1"#,
            ),
            (
                "__pgs_cte_win_old_7",
                CteKind::Plain,
                r#"SELECT st."__pgs_row_id", st."id", st."v", st."rk"
FROM "sch"."st" st
WHERE EXISTS (
SELECT 1 FROM __pgs_cte_win_parts_6 cp WHERE TRUE
)"#,
            ),
            (
                "__pgs_cte_win_input_8",
                CteKind::Plain,
                r#"-- Surviving old rows (pass-through only, window cols stripped)
SELECT o."__pgs_row_id", o."id", o."v"
FROM __pgs_cte_win_old_7 o
WHERE o."__pgs_row_id" NOT IN (
SELECT "__pgs_row_id" FROM __pgs_cte_scan_a_5 WHERE "__pgs_action" = 'D'
)
UNION ALL
-- Newly inserted rows
SELECT d."__pgs_row_id", d."id", d."v"
FROM __pgs_cte_scan_a_5 d
WHERE d."__pgs_action" = 'I'
AND EXISTS (
SELECT 1 FROM __pgs_cte_win_parts_6 cp WHERE TRUE
)"#,
            ),
            (
                "__pgs_cte_win_recomp_9",
                CteKind::Plain,
                r#"SELECT pgtrickle.pg_trickle_hash_multi(ARRAY[(ci."id"::TEXT)::TEXT, (ci."v"::TEXT)::TEXT]) AS "__pgs_row_id",
ci."id", ci."v",
rank() OVER (PARTITION BY a.v ORDER BY a.id DESC NULLS FIRST) AS "rk"
FROM __pgs_cte_win_input_8 ci"#,
            ),
            (
                "__pgs_cte_win_final_10",
                CteKind::Plain,
                r#"-- Delete old window results for changed partitions
SELECT "__pgs_row_id", 'D' AS "__pgs_action", "id", "v", "rk"
FROM __pgs_cte_win_old_7
UNION ALL
-- Insert recomputed window results
SELECT "__pgs_row_id", 'I' AS "__pgs_action", "id", "v", "rk"
FROM __pgs_cte_win_recomp_9"#,
            ),
        ],
    );
}

#[test]
fn chain_of_scalar_subquery() {
    let op = OpTree::ScalarSubquery {
        subquery: b(),
        alias: "tot".to_string(),
        subquery_source_oids: vec![2],
        child: a(),
    };
    check(
        ctx(),
        &op,
        10,
        &[
            (
                "__pgs_cte_scalar_sub_11",
                CteKind::Plain,
                r#"-- Part 1: outer child delta rows with current scalar value
SELECT dc.__pgt_row_id,
       dc.__pgt_action,
       dc."id", dc."v",
       (SELECT "b"."bid" FROM "pub"."tb" "b" LIMIT 1) AS "tot"
FROM __pgs_cte_scan_a_5 dc

UNION ALL

-- Part 2: all outer rows re-emitted when scalar subquery value changes (DELETE old)
SELECT pgtrickle.pg_trickle_hash_multi(ARRAY[cs."id"::TEXT, cs."v"::TEXT]) AS __pgt_row_id,
       'D' AS __pgt_action,
       cs."id", cs."v",
       (SELECT "bid" FROM (SELECT "bid", "w" FROM "pub"."tb" "b" EXCEPT ALL SELECT "bid", "w" FROM __pgs_cte_scan_b_10 WHERE __pgt_action = 'I' UNION ALL SELECT "bid", "w" FROM __pgs_cte_scan_b_10 WHERE __pgt_action = 'D') sq_old LIMIT 1) AS "tot"
FROM "pub"."ta" cs
WHERE EXISTS (SELECT 1 FROM __pgs_cte_scan_b_10 WHERE 1=1)
  AND (SELECT "b"."bid" FROM "pub"."tb" "b" LIMIT 1) IS DISTINCT FROM (SELECT "bid" FROM (SELECT "bid", "w" FROM "pub"."tb" "b" EXCEPT ALL SELECT "bid", "w" FROM __pgs_cte_scan_b_10 WHERE __pgt_action = 'I' UNION ALL SELECT "bid", "w" FROM __pgs_cte_scan_b_10 WHERE __pgt_action = 'D') sq_old LIMIT 1)

UNION ALL

-- Part 2b: all outer rows re-emitted when scalar subquery value changes (INSERT new)
SELECT pgtrickle.pg_trickle_hash_multi(ARRAY[cs."id"::TEXT, cs."v"::TEXT]) AS __pgt_row_id,
       'I' AS __pgt_action,
       cs."id", cs."v",
       (SELECT "b"."bid" FROM "pub"."tb" "b" LIMIT 1) AS "tot"
FROM "pub"."ta" cs
WHERE EXISTS (SELECT 1 FROM __pgs_cte_scan_b_10 WHERE 1=1)
  AND (SELECT "b"."bid" FROM "pub"."tb" "b" LIMIT 1) IS DISTINCT FROM (SELECT "bid" FROM (SELECT "bid", "w" FROM "pub"."tb" "b" EXCEPT ALL SELECT "bid", "w" FROM __pgs_cte_scan_b_10 WHERE __pgt_action = 'I' UNION ALL SELECT "bid", "w" FROM __pgs_cte_scan_b_10 WHERE __pgt_action = 'D') sq_old LIMIT 1)"#,
            ),
        ],
    );
}

#[test]
fn chain_of_renaming_reference() {
    let entries = vec![("shared".to_string(), *a())];
    let c = ctx().with_cte_registry(CteRegistry { entries });
    let op = OpTree::CteScan {
        cte_id: 0,
        cte_name: "shared".to_string(),
        alias: "x".to_string(),
        columns: Vec::new(),
        cte_def_aliases: Vec::new(),
        column_aliases: names(&["id", "z"]),
    };
    check(
        c,
        &op,
        5,
        &[
            (
                "__pgs_cte_ctescan_x_6",
                CteKind::Plain,
                r#"SELECT __pgs_row_id, __pgs_action, "id", "v" AS "z"
FROM __pgs_cte_scan_a_5"#,
            ),
        ],
    );
}

#[test]
fn chain_of_recursive_inserts() {
    let mut c = ctx();
    c.st_user_columns = Some(names(&["id", "v"]));
    let op = tree(true);
    check(
        c,
        &op,
        6,
        &[
            (
                "__pgs_cte_rc_snv_tree_7",
                CteKind::Recursive,
                r#"SELECT "id", "v" FROM __pgs_cte_filter_6 WHERE __pgs_action = 'I'
UNION ALL
SELECT a.id AS "id", t.v AS "v"
FROM (SELECT r."id", r."v" FROM "pgtrickle_changes".changes_1 c, LATERAL jsonb_populate_record(NULL::"pub"."ta", c.row_data) r WHERE c.action = 'I' AND c.lsn > '0/1'::pg_lsn) AS "a"
JOIN "sch"."st" AS "t"
  ON (a.v = t.id)
UNION ALL
SELECT a.id AS "id", t.v AS "v"
FROM "pub"."ta" AS "a"
JOIN __pgs_cte_rc_snv_tree_7 AS "t"
  ON (a.v = t.id)"#,
            ),
            (
                "__pgs_cte_rc_final_tree_8",
                CteKind::Plain,
                r#"SELECT pgstream.pg_stream_hash(row_to_json(sub)::text || '/' || row_number() OVER ()::text) AS __pgs_row_id,
'I'::text AS __pgs_action,
"id", "v"
FROM __pgs_cte_rc_snv_tree_7 sub"#,
            ),
        ],
    );
}

#[test]
fn chain_of_recursive_deletes() {
    let mut c = ctx();
    c.st_user_columns = Some(names(&["id", "v"]));
    c.sources_with_deletes = vec![1];
    let op = tree(false);
    check(
        c,
        &op,
        6,
        &[
            (
                "__pgs_cte_dred_ins_tree_7",
                CteKind::Recursive,
                r#"SELECT "id", "v" FROM __pgs_cte_filter_6 WHERE __pgs_action = 'I'
UNION ALL
SELECT a.id AS "id", t.v AS "v"
FROM (SELECT r."id", r."v" FROM "pgtrickle_changes".changes_1 c, LATERAL jsonb_populate_record(NULL::"pub"."ta", c.row_data) r WHERE c.action = 'I' AND c.lsn > '0/1'::pg_lsn) AS "a"
JOIN "sch"."st" AS "t"
  ON (a.v = t.id)
UNION ALL
SELECT a.id AS "id", t.v AS "v"
FROM "pub"."ta" AS "a"
JOIN __pgs_cte_dred_ins_tree_7 AS "t"
  ON (a.v = t.id)"#,
            ),
            (
                "__pgs_cte_dred_ifin_tree_8",
                CteKind::Plain,
                r#"SELECT pgstream.pg_stream_hash(row_to_json(sub)::text || '/' || row_number() OVER ()::text) AS __pgs_row_id,
'I'::text AS __pgs_action,
"id", "v"
FROM __pgs_cte_dred_ins_tree_7 sub"#,
            ),
            (
                "__pgs_cte_dred_dseed_tree_9",
                CteKind::Plain,
                r#"SELECT "id", "v" FROM __pgs_cte_filter_6 WHERE __pgs_action = 'D'"#,
            ),
            (
                "__pgs_cte_dred_dcasc_tree_10",
                CteKind::Recursive,
                r#"SELECT "id", "v" FROM __pgs_cte_dred_dseed_tree_9
UNION ALL
SELECT a.id AS "id", t.v AS "v"
FROM (
SELECT "a"."id", "a"."v", "t"."id", "t"."v"
FROM "sch"."st" AS "a"
JOIN __pgs_cte_dred_dcasc_tree_10 AS "t"
  ON (a.v = t.id)
) __p"#,
            ),
            (
                "__pgs_cte_dred_rfull_tree_11",
                CteKind::Plain,
                r#"WITH RECURSIVE "tree" AS (
SELECT * FROM (
SELECT "a"."id", "a"."v"
FROM "pub"."ta" AS "a"
) __f
WHERE v IS NULL
UNION
SELECT a.id AS "id", t.v AS "v"
FROM "pub"."ta" AS "a"
JOIN tree AS "t"
  ON (a.v = t.id)
)
SELECT "id", "v" FROM "tree""#,
            ),
            (
                "__pgs_cte_dred_rdrv_tree_12",
                CteKind::Plain,
                r#"SELECT "id", "v" FROM __pgs_cte_dred_dcasc_tree_10
INTERSECT
SELECT "id", "v" FROM __pgs_cte_dred_rfull_tree_11"#,
            ),
            (
                "__pgs_cte_dred_ndel_tree_13",
                CteKind::Plain,
                r#"SELECT "id", "v" FROM __pgs_cte_dred_dcasc_tree_10
EXCEPT
SELECT "id", "v" FROM __pgs_cte_dred_rdrv_tree_12"#,
            ),
            (
                "__pgs_cte_dred_dfin_tree_14",
                CteKind::Plain,
                r#"SELECT s.__pgs_row_id, 'D'::text AS __pgs_action, s."id", s."v"
FROM __pgs_cte_dred_ndel_tree_13 d
JOIN "sch"."st" s ON d."id" = s."id" AND d."v" = s."v""#,
            ),
            (
                "__pgs_cte_dred_comb_tree_15",
                CteKind::Plain,
                r#"SELECT * FROM __pgs_cte_dred_ifin_tree_8
UNION ALL
SELECT * FROM __pgs_cte_dred_dfin_tree_14"#,
            ),
        ],
    );
}

#[test]
fn chain_of_recursive_recomputation() {
    let op = tree(false);
    check(
        ctx(),
        &op,
        0,
        &[
            (
                "__pgs_cte_rc_recomp_tree_1",
                CteKind::Plain,
                r#"SELECT pgstream.pg_stream_hash(row_to_json(sub)::text || '/' || row_number() OVER ()::text) AS __pgs_row_id, sub.*
FROM (WITH RECURSIVE "tree" AS (
SELECT * FROM (
SELECT "a"."id", "a"."v"
FROM "pub"."ta" AS "a"
) __f
WHERE v IS NULL
UNION
SELECT a.id AS "id", t.v AS "v"
FROM "pub"."ta" AS "a"
JOIN tree AS "t"
  ON (a.v = t.id)
)
SELECT "id", "v" FROM "tree") sub"#,
            ),
            (
                "__pgs_cte_rc_ins_tree_2",
                CteKind::Plain,
                r#"SELECT n.__pgs_row_id, 'I'::text AS __pgs_action, n."id", n."v"
FROM __pgs_cte_rc_recomp_tree_1 n
LEFT JOIN "sch"."st" s ON s.__pgs_row_id = n.__pgs_row_id
WHERE s.__pgs_row_id IS NULL"#,
            ),
            (
                "__pgs_cte_rc_del_tree_3",
                CteKind::Plain,
                r#"SELECT s.__pgs_row_id, 'D'::text AS __pgs_action, s."id", s."v"
FROM "sch"."st" s
LEFT JOIN __pgs_cte_rc_recomp_tree_1 n ON n.__pgs_row_id = s.__pgs_row_id
WHERE n.__pgs_row_id IS NULL"#,
            ),
            (
                "__pgs_cte_rc_delta_tree_4",
                CteKind::Plain,
                r#"SELECT * FROM __pgs_cte_rc_ins_tree_2
UNION ALL
SELECT * FROM __pgs_cte_rc_del_tree_3"#,
            ),
        ],
    );
}

#[test]
fn chain_of_recursive_filter_inserts() {
    let mut c = ctx();
    c.st_user_columns = Some(names(&["id", "v"]));
    let op = tree_of(filtered_step());
    check(
        c,
        &op,
        5,
        &[
            (
                "__pgs_cte_rc_snv_tree_6",
                CteKind::Recursive,
                r#"SELECT "id", "v" FROM __pgs_cte_scan_a_5 WHERE __pgs_action = 'I'
UNION ALL
SELECT * FROM (
SELECT "a"."id", "a"."v", "t"."id", "t"."v"
FROM (SELECT r."id", r."v" FROM "pgtrickle_changes".changes_1 c, LATERAL jsonb_populate_record(NULL::"pub"."ta", c.row_data) r WHERE c.action = 'I' AND c.lsn > '0/1'::pg_lsn) AS "a"
JOIN "sch"."st" AS "t"
  ON (a.v = t.id)
) __f
WHERE v > 0
UNION ALL
SELECT * FROM (
SELECT "a"."id", "a"."v", "t"."id", "t"."v"
FROM "pub"."ta" AS "a"
JOIN __pgs_cte_rc_snv_tree_6 AS "t"
  ON (a.v = t.id)
) __f
WHERE v > 0"#,
            ),
            (
                "__pgs_cte_rc_final_tree_7",
                CteKind::Plain,
                r#"SELECT pgstream.pg_stream_hash(row_to_json(sub)::text || '/' || row_number() OVER ()::text) AS __pgs_row_id,
'I'::text AS __pgs_action,
"id", "v"
FROM __pgs_cte_rc_snv_tree_6 sub"#,
            ),
        ],
    );
}

#[test]
fn chain_of_recursive_filter_deletes() {
    let mut c = ctx();
    c.st_user_columns = Some(names(&["id", "v"]));
    c.sources_with_deletes = vec![1];
    let op = tree_of(filtered_step());
    check(
        c,
        &op,
        5,
        &[
            (
                "__pgs_cte_dred_ins_tree_6",
                CteKind::Recursive,
                r#"SELECT "id", "v" FROM __pgs_cte_scan_a_5 WHERE __pgs_action = 'I'
UNION ALL
SELECT * FROM (
SELECT "a"."id", "a"."v", "t"."id", "t"."v"
FROM (SELECT r."id", r."v" FROM "pgtrickle_changes".changes_1 c, LATERAL jsonb_populate_record(NULL::"pub"."ta", c.row_data) r WHERE c.action = 'I' AND c.lsn > '0/1'::pg_lsn) AS "a"
JOIN "sch"."st" AS "t"
  ON (a.v = t.id)
) __f
WHERE v > 0
UNION ALL
SELECT * FROM (
SELECT "a"."id", "a"."v", "t"."id", "t"."v"
FROM "pub"."ta" AS "a"
JOIN __pgs_cte_dred_ins_tree_6 AS "t"
  ON (a.v = t.id)
) __f
WHERE v > 0"#,
            ),
            (
                "__pgs_cte_dred_ifin_tree_7",
                CteKind::Plain,
                r#"SELECT pgstream.pg_stream_hash(row_to_json(sub)::text || '/' || row_number() OVER ()::text) AS __pgs_row_id,
'I'::text AS __pgs_action,
"id", "v"
FROM __pgs_cte_dred_ins_tree_6 sub"#,
            ),
            (
                "__pgs_cte_dred_dseed_tree_8",
                CteKind::Plain,
                r#"SELECT "id", "v" FROM __pgs_cte_scan_a_5 WHERE __pgs_action = 'D'"#,
            ),
            (
                "__pgs_cte_dred_dcasc_tree_9",
                CteKind::Recursive,
                r#"SELECT "id", "v" FROM __pgs_cte_dred_dseed_tree_8
UNION ALL
SELECT * FROM (
SELECT "a"."id", "a"."v", "t"."id", "t"."v"
FROM "sch"."st" AS "a"
JOIN __pgs_cte_dred_dcasc_tree_9 AS "t"
  ON (a.v = t.id)
) __f
WHERE v > 0"#,
            ),
            (
                "__pgs_cte_dred_rfull_tree_10",
                CteKind::Plain,
                r#"WITH RECURSIVE "tree" AS (
SELECT "a"."id", "a"."v"
FROM "pub"."ta" AS "a"
UNION ALL
SELECT * FROM (
SELECT "a"."id", "a"."v", "t"."id", "t"."v"
FROM "pub"."ta" AS "a"
JOIN tree AS "t"
  ON (a.v = t.id)
) __f
WHERE v > 0
)
SELECT "id", "v" FROM "tree""#,
            ),
            (
                "__pgs_cte_dred_rdrv_tree_11",
                CteKind::Plain,
                r#"SELECT "id", "v" FROM __pgs_cte_dred_dcasc_tree_9
INTERSECT
SELECT "id", "v" FROM __pgs_cte_dred_rfull_tree_10"#,
            ),
            (
                "__pgs_cte_dred_ndel_tree_12",
                CteKind::Plain,
                r#"SELECT "id", "v" FROM __pgs_cte_dred_dcasc_tree_9
EXCEPT
SELECT "id", "v" FROM __pgs_cte_dred_rdrv_tree_11"#,
            ),
            (
                "__pgs_cte_dred_dfin_tree_13",
                CteKind::Plain,
                r#"SELECT s.__pgs_row_id, 'D'::text AS __pgs_action, s."id", s."v"
FROM __pgs_cte_dred_ndel_tree_12 d
JOIN "sch"."st" s ON d."id" = s."id" AND d."v" = s."v""#,
            ),
            (
                "__pgs_cte_dred_comb_tree_14",
                CteKind::Plain,
                r#"SELECT * FROM __pgs_cte_dred_ifin_tree_7
UNION ALL
SELECT * FROM __pgs_cte_dred_dfin_tree_13"#,
            ),
        ],
    );
}

#[test]
fn chain_of_recursive_left_join_inserts() {
    let mut c = ctx();
    c.st_user_columns = Some(names(&["id", "v"]));
    let op = tree_of(left_step());
    check(
        c,
        &op,
        5,
        &[
            (
                "__pgs_cte_rc_snv_tree_6",
                CteKind::Recursive,
                r#"SELECT "id", "v" FROM __pgs_cte_scan_a_5 WHERE __pgs_action = 'I'
UNION ALL
SELECT a.id AS "id", "v"
FROM (
SELECT * FROM (
SELECT "a"."id", "a"."v"
FROM "pub"."ta" AS "a"
) __f
WHERE id > 1
) AS __sub
LEFT JOIN "sch"."st" AS "t"
  ON (a.v = t.id)
UNION ALL
SELECT a.id AS "id", "v"
FROM (
SELECT * FROM (
SELECT "a"."id", "a"."v"
FROM "pub"."ta" AS "a"
) __f
WHERE id > 1
) AS __sub
LEFT JOIN __pgs_cte_rc_snv_tree_6 AS "t"
  ON (a.v = t.id)"#,
            ),
            (
                "__pgs_cte_rc_final_tree_7",
                CteKind::Plain,
                r#"SELECT pgstream.pg_stream_hash(row_to_json(sub)::text || '/' || row_number() OVER ()::text) AS __pgs_row_id,
'I'::text AS __pgs_action,
"id", "v"
FROM __pgs_cte_rc_snv_tree_6 sub"#,
            ),
        ],
    );
}

#[test]
fn chain_of_filter_over_join() {
    let op = OpTree::Filter { predicate: on(col("a", "v"), col("b", "w")), child: joined() };
    check(
        ctx(),
        &op,
        11,
        &[
            (
                "__pgs_cte_filter_12",
                CteKind::Plain,
                r#"SELECT __pgt_row_id, __pgt_action, "a__id", "a__v", "b__bid", "b__w"
FROM __pgs_cte_join_11
WHERE ("a__v" = "b__w")"#,
            ),
        ],
    );
}

#[test]
fn chain_of_left_join_over_join() {
    let op = OpTree::LeftJoin {
        condition: on(col("b", "w"), col("c", "x")),
        left: joined(),
        right: c_table(),
    };
    check(
        ctx(),
        &op,
        16,
        &[
            (
                "__pgs_cte_lj_right_flags_17",
                CteKind::Plain,
                r#"SELECT bool_or(__pgt_action = 'I') AS has_ins,bool_or(__pgt_action = 'D') AS has_del FROM __pgs_cte_scan_c_16"#,
            ),
            (
                "__pgs_cte_left_join_18",
                CteKind::Plain,
                r#"-- Part 1: delta_left JOIN current_right (matching rows)
SELECT pgtrickle.pg_trickle_hash_multi(ARRAY[dl.__pgt_row_id::TEXT, pgtrickle.pg_trickle_hash(row_to_json(r)::text)::TEXT]) AS __pgt_row_id,
       dl.__pgt_action,
       dl."a__id" AS "join__a__id", dl."a__v" AS "join__a__v", dl."b__bid" AS "join__b__bid", dl."b__w" AS "join__b__w", r."x" AS "c__x"
FROM __pgs_cte_join_11 dl
JOIN "pub"."tc" r ON (dl."b__w" = r."x")

UNION ALL

-- Part 2: current_left JOIN delta_right
SELECT pgtrickle.pg_trickle_hash_multi(ARRAY[pgtrickle.pg_trickle_hash(row_to_json(l)::text)::TEXT, dr.__pgt_row_id::TEXT]) AS __pgt_row_id,
       dr.__pgt_action,
       l."a__id" AS "join__a__id", l."a__v" AS "join__a__v", l."b__bid" AS "join__b__bid", l."b__w" AS "join__b__w", dr."x" AS "c__x"
FROM (SELECT "a"."id" AS "a__id", "a"."v" AS "a__v", "b"."bid" AS "b__bid", "b"."w" AS "b__w" FROM "pub"."ta" "a" JOIN "pub"."tb" "b" ON (a."id" = b."bid")) l
JOIN __pgs_cte_scan_c_16 dr ON (l."b__w" = dr."x")

UNION ALL

-- Part 3: delta_left anti-join right (non-matching left rows get NULL right cols)
SELECT dl.__pgt_row_id,
       dl.__pgt_action,
       dl."a__id" AS "join__a__id", dl."a__v" AS "join__a__v", dl."b__bid" AS "join__b__bid", dl."b__w" AS "join__b__w", NULL AS "c__x"
FROM __pgs_cte_join_11 dl
WHERE NOT EXISTS (
    SELECT 1 FROM "pub"."tc" r WHERE (dl."b__w" = r."x")
)

UNION ALL

-- Part 4: Delete stale NULL-padded rows when a left row gains its FIRST right match.
-- When a right INSERT creates a new match for a left row that previously had NO
-- matching right rows (was NULL-padded), the NULL-padded ST row must be removed.
-- We check R_old (pre-change right) to verify the left row truly had no matches
-- before. Without this check, left rows that ALREADY had matches would get
-- spurious D(NULL-padded) rows that corrupt intermediate aggregate old-state
-- reconstruction via EXCEPT ALL/UNION ALL.
SELECT 0::BIGINT AS __pgt_row_id,
       'D'::TEXT AS __pgt_action,
       l."a__id" AS "join__a__id", l."a__v" AS "join__a__v", l."b__bid" AS "join__b__bid", l."b__w" AS "join__b__w", NULL AS "c__x"
FROM (SELECT "a"."id" AS "a__id", "a"."v" AS "a__v", "b"."bid" AS "b__bid", "b"."w" AS "b__w" FROM "pub"."ta" "a" JOIN "pub"."tb" "b" ON (a."id" = b."bid")) l
JOIN __pgs_cte_scan_c_16 dr ON (l."b__w" = dr."x")
WHERE dr.__pgt_action = 'I'
  AND (SELECT has_ins FROM __pgs_cte_lj_right_flags_17)
  AND NOT EXISTS (
    SELECT 1 FROM (SELECT "x" FROM "pub"."tc" "c" EXCEPT ALL SELECT "x" FROM __pgs_cte_scan_c_16 WHERE __pgt_action = 'I' UNION ALL SELECT "x" FROM __pgs_cte_scan_c_16 WHERE __pgt_action = 'D') __pgt_r_old WHERE (l."b__w" = __pgt_r_old."x")
  )

UNION ALL

-- Part 5: Insert NULL-padded rows when a left row loses ALL right matches.
-- When a right DELETE removes the last match for a left row, the left row
-- reverts to NULL-padded. Check current right (post-changes) to verify no
-- remaining matches exist, AND check R_old to confirm the left row previously
-- HAD matches (otherwise it was already NULL-padded — no change needed).
SELECT 0::BIGINT AS __pgt_row_id,
       'I'::TEXT AS __pgt_action,
       l."a__id" AS "join__a__id", l."a__v" AS "join__a__v", l."b__bid" AS "join__b__bid", l."b__w" AS "join__b__w", NULL AS "c__x"
FROM (SELECT "a"."id" AS "a__id", "a"."v" AS "a__v", "b"."bid" AS "b__bid", "b"."w" AS "b__w" FROM "pub"."ta" "a" JOIN "pub"."tb" "b" ON (a."id" = b."bid")) l
JOIN __pgs_cte_scan_c_16 dr ON (l."b__w" = dr."x")
WHERE dr.__pgt_action = 'D'
  AND (SELECT has_del FROM __pgs_cte_lj_right_flags_17)
  AND NOT EXISTS (
    SELECT 1 FROM "pub"."tc" r WHERE (l."b__w" = r."x")
  )
  AND EXISTS (
    SELECT 1 FROM (SELECT "x" FROM "pub"."tc" "c" EXCEPT ALL SELECT "x" FROM __pgs_cte_scan_c_16 WHERE __pgt_action = 'I' UNION ALL SELECT "x" FROM __pgs_cte_scan_c_16 WHERE __pgt_action = 'D') __pgt_r_old WHERE (l."b__w" = __pgt_r_old."x")
  )"#,
            ),
        ],
    );
}

#[test]
fn chain_of_semi_join_over_filter() {
    let op = OpTree::SemiJoin {
        condition: keys(),
        left: Box::new(OpTree::Filter {
            predicate: Expr::Raw("v > 0".to_string()),
            child: a(),
        }),
        right: b(),
    };
    check(
        ctx(),
        &op,
        11,
        &[
            (
                "__pgs_cte_r_old_12",
                CteKind::Materialized,
                r#"SELECT "bid", "w" FROM "pub"."tb" "b" EXCEPT ALL SELECT "bid", "w" FROM __pgs_cte_scan_b_11 WHERE __pgt_action = 'I' UNION ALL SELECT "bid", "w" FROM __pgs_cte_scan_b_11 WHERE __pgt_action = 'D'"#,
            ),
            (
                "__pgs_cte_semi_join_13",
                CteKind::Plain,
                r#"-- Part 1: delta_left rows that match right (semi-join filter)
-- INSERT: new left row has match in R_current  → emit INSERT
-- DELETE: old left row had match in R_old      → emit DELETE
-- For INSERTs we check the live right table (post-change state).
-- For DELETEs we check R_old (pre-change state) because the matching
-- right rows may also have been deleted in the same mutation cycle
-- (e.g. RF2 deletes both orders AND their lineitems simultaneously).
SELECT dl.__pgt_row_id AS __pgt_row_id,
       dl.__pgt_action,
       dl."id", dl."v"
FROM __pgs_cte_filter_6 dl
WHERE CASE WHEN dl.__pgt_action = 'D'
           THEN EXISTS (SELECT 1 FROM __pgs_cte_r_old_12 r_old WHERE (dl."id" = r_old."bid"))
           ELSE EXISTS (SELECT 1 FROM "pub"."tb" r WHERE (dl."id" = r."bid"))
      END

UNION ALL

-- Part 2: left rows whose semi-join status changed due to right-side delta
-- Emit 'I' if row now matches R_current but didn't match R_old
-- Emit 'D' if row matched R_old but no longer matches R_current
-- Left snapshot is pre-filtered by delta-right join keys for performance.
SELECT pgtrickle.pg_trickle_hash_multi(ARRAY[l."id"::TEXT, l."v"::TEXT]) AS __pgt_row_id,
       CASE WHEN EXISTS (SELECT 1 FROM "pub"."tb" r WHERE (l."id" = r."bid"))
            THEN 'I' ELSE 'D'
       END AS __pgt_action,
       l."id", l."v"
FROM (SELECT * FROM (SELECT * FROM "pub"."ta" "a" WHERE v > 0) "__pgt_pre" WHERE __pgt_pre."id" IN (SELECT DISTINCT dr."bid" FROM __pgs_cte_scan_b_11 dr)) l
WHERE EXISTS (SELECT 1 FROM __pgs_cte_scan_b_11 dr WHERE (l."id" = dr."bid"))
  AND (EXISTS (SELECT 1 FROM "pub"."tb" r WHERE (l."id" = r."bid"))
       <> EXISTS (SELECT 1 FROM __pgs_cte_r_old_12 r_old WHERE (l."id" = r_old."bid")))"#,
            ),
        ],
    );
}

#[test]
fn chain_of_anti_join_over_left_join() {
    let op = OpTree::AntiJoin {
        condition: on(col("a", "v"), col("c", "x")),
        left: Box::new(OpTree::LeftJoin { condition: keys(), left: a(), right: b() }),
        right: c_table(),
    };
    check(
        ctx(),
        &op,
        17,
        &[
            (
                "__pgs_cte_anti_join_18",
                CteKind::Plain,
                r#"-- Part 1: delta_left rows that have NO match in current right (anti-join filter)
SELECT dl.__pgs_row_id AS __pgs_row_id,
       dl.__pgs_action,
       dl."a__id", dl."a__v", dl."b__bid", dl."b__w"
FROM __pgs_cte_left_join_12 dl
WHERE NOT EXISTS (SELECT 1 FROM "pub"."tc" r WHERE (dl."a__v" = r."x"))

UNION ALL

-- Part 2: left rows whose anti-join status changed due to right-side delta
-- Emit 'I' if row now has no match in R_current but had a match in R_old
-- Emit 'D' if row had no match in R_old but now has a match in R_current
SELECT pgstream.pg_stream_hash_multi(ARRAY[l."a__id"::TEXT, l."a__v"::TEXT, l."b__bid"::TEXT, l."b__w"::TEXT]) AS __pgs_row_id,
       CASE WHEN NOT EXISTS (SELECT 1 FROM "pub"."tc" r WHERE (l."a__v" = r."x"))
            THEN 'I' ELSE 'D'
       END AS __pgs_action,
       l."a__id", l."a__v", l."b__bid", l."b__w"
FROM (SELECT "a"."id" AS "a__id", "a"."v" AS "a__v", "b"."bid" AS "b__bid", "b"."w" AS "b__w" FROM "pub"."ta" "a" LEFT JOIN "pub"."tb" "b" ON (a."id" = b."bid")) l
WHERE EXISTS (SELECT 1 FROM __pgs_cte_scan_c_17 dr WHERE (l."a__v" = dr."x"))
  AND (EXISTS (SELECT 1 FROM "pub"."tc" r WHERE (l."a__v" = r."x"))
       <> EXISTS (SELECT 1 FROM (SELECT "x" FROM "pub"."tc" "c" EXCEPT ALL SELECT "x" FROM __pgs_cte_scan_c_17 WHERE __pgs_action = 'I' UNION ALL SELECT "x" FROM __pgs_cte_scan_c_17 WHERE __pgs_action = 'D')  r_old WHERE (l."a__v" = r_old."x")))"#,
            ),
        ],
    );
}

#[test]
fn chain_of_full_join_over_join() {
    let op = OpTree::FullJoin {
        condition: on(col("c", "x"), col("b", "w")),
        left: c_table(),
        right: joined(),
    };
    check(
        ctx(),
        &op,
        16,
        &[
            (
                "__pgs_cte_fj_left_flags_17",
                CteKind::Plain,
                r#"SELECT bool_or(__pgs_action = 'I') AS has_ins,bool_or(__pgs_action = 'D') AS has_del FROM __pgs_cte_scan_c_5"#,
            ),
            (
                "__pgs_cte_fj_right_flags_18",
                CteKind::Plain,
                r#"SELECT bool_or(__pgs_action = 'I') AS has_ins,bool_or(__pgs_action = 'D') AS has_del FROM __pgs_cte_join_16"#,
            ),
            (
                "__pgs_cte_full_join_19",
                CteKind::Plain,
                r#"-- Part 1: delta_left JOIN current_right (matching rows)
SELECT pgstream.pg_stream_hash_multi(ARRAY[dl.__pgs_row_id::TEXT, pgstream.pg_stream_hash(row_to_json(r)::text)::TEXT]) AS __pgs_row_id,
       dl.__pgs_action,
       dl."x" AS "c__x", r."a__id" AS "join__a__id", r."a__v" AS "join__a__v", r."b__bid" AS "join__b__bid", r."b__w" AS "join__b__w"
FROM __pgs_cte_scan_c_5 dl
JOIN (SELECT "a"."id" AS "a__id", "a"."v" AS "a__v", "b"."bid" AS "b__bid", "b"."w" AS "b__w" FROM "pub"."ta" "a" JOIN "pub"."tb" "b" ON (a."id" = b."bid")) r ON (dl."x" = r."b__w")

UNION ALL

-- Part 2: current_left JOIN delta_right
SELECT pgstream.pg_stream_hash_multi(ARRAY[pgstream.pg_stream_hash(row_to_json(l)::text)::TEXT, dr.__pgs_row_id::TEXT]) AS __pgs_row_id,
       dr.__pgs_action,
       l."x" AS "c__x", dr."a__id" AS "join__a__id", dr."a__v" AS "join__a__v", dr."b__bid" AS "join__b__bid", dr."b__w" AS "join__b__w"
FROM "pub"."tc" l
JOIN __pgs_cte_join_16 dr ON (l."x" = dr."b__w")

UNION ALL

-- Part 3: delta_left anti-join right (non-matching left rows → NULL right cols)
SELECT dl.__pgs_row_id,
       dl.__pgs_action,
       dl."x" AS "c__x", NULL AS "join__a__id", NULL AS "join__a__v", NULL AS "join__b__bid", NULL AS "join__b__w"
FROM __pgs_cte_scan_c_5 dl
WHERE NOT EXISTS (
    SELECT 1 FROM (SELECT "a"."id" AS "a__id", "a"."v" AS "a__v", "b"."bid" AS "b__bid", "b"."w" AS "b__w" FROM "pub"."ta" "a" JOIN "pub"."tb" "b" ON (a."id" = b."bid")) r WHERE (dl."x" = r."b__w")
)

UNION ALL

-- Part 4: Delete stale NULL-padded left rows when new right matches appear
SELECT 0::BIGINT AS __pgs_row_id,
       'D'::TEXT AS __pgs_action,
       l."x" AS "c__x", NULL AS "join__a__id", NULL AS "join__a__v", NULL AS "join__b__bid", NULL AS "join__b__w"
FROM "pub"."tc" l
JOIN __pgs_cte_join_16 dr ON (l."x" = dr."b__w")
WHERE dr.__pgs_action = 'I'
  AND (SELECT has_ins FROM __pgs_cte_fj_right_flags_18)
  AND NOT EXISTS (
    SELECT 1 FROM (SELECT "a__id", "a__v", "b__bid", "b__w" FROM (SELECT "a"."id" AS "a__id", "a"."v" AS "a__v", "b"."bid" AS "b__bid", "b"."w" AS "b__w" FROM "pub"."ta" "a" JOIN "pub"."tb" "b" ON (a."id" = b."bid")) "join" EXCEPT ALL SELECT "a__id", "a__v", "b__bid", "b__w" FROM __pgs_cte_join_16 WHERE __pgs_action = 'I' UNION ALL SELECT "a__id", "a__v", "b__bid", "b__w" FROM __pgs_cte_join_16 WHERE __pgs_action = 'D') __pgs_r_old WHERE (l."x" = __pgs_r_old."b__w")
)

UNION ALL

-- Part 5: Insert NULL-padded left rows when left row loses all right matches
SELECT 0::BIGINT AS __pgs_row_id,
       'I'::TEXT AS __pgs_action,
       l."x" AS "c__x", NULL AS "join__a__id", NULL AS "join__a__v", NULL AS "join__b__bid", NULL AS "join__b__w"
FROM "pub"."tc" l
JOIN __pgs_cte_join_16 dr ON (l."x" = dr."b__w")
WHERE dr.__pgs_action = 'D'
  AND (SELECT has_del FROM __pgs_cte_fj_right_flags_18)
  AND NOT EXISTS (
    SELECT 1 FROM (SELECT "a"."id" AS "a__id", "a"."v" AS "a__v", "b"."bid" AS "b__bid", "b"."w" AS "b__w" FROM "pub"."ta" "a" JOIN "pub"."tb" "b" ON (a."id" = b."bid")) r WHERE (l."x" = r."b__w")
)
  AND EXISTS (
    SELECT 1 FROM (SELECT "a__id", "a__v", "b__bid", "b__w" FROM (SELECT "a"."id" AS "a__id", "a"."v" AS "a__v", "b"."bid" AS "b__bid", "b"."w" AS "b__w" FROM "pub"."ta" "a" JOIN "pub"."tb" "b" ON (a."id" = b."bid")) "join" EXCEPT ALL SELECT "a__id", "a__v", "b__bid", "b__w" FROM __pgs_cte_join_16 WHERE __pgs_action = 'I' UNION ALL SELECT "a__id", "a__v", "b__bid", "b__w" FROM __pgs_cte_join_16 WHERE __pgs_action = 'D') __pgs_r_old WHERE (l."x" = __pgs_r_old."b__w")
)

UNION ALL

-- Part 6: delta_right anti-join left (non-matching right rows → NULL left cols)
SELECT dr.__pgs_row_id,
       dr.__pgs_action,
       NULL AS "c__x", dr."a__id" AS "join__a__id", dr."a__v" AS "join__a__v", dr."b__bid" AS "join__b__bid", dr."b__w" AS "join__b__w"
FROM __pgs_cte_join_16 dr
WHERE NOT EXISTS (
    SELECT 1 FROM "pub"."tc" l WHERE (l."x" = dr."b__w")
)

UNION ALL

-- Part 7a: Delete stale NULL-padded right rows when new left matches appear
SELECT 0::BIGINT AS __pgs_row_id,
       'D'::TEXT AS __pgs_action,
       NULL AS "c__x", r."a__id" AS "join__a__id", r."a__v" AS "join__a__v", r."b__bid" AS "join__b__bid", r."b__w" AS "join__b__w"
FROM (SELECT "a"."id" AS "a__id", "a"."v" AS "a__v", "b"."bid" AS "b__bid", "b"."w" AS "b__w" FROM "pub"."ta" "a" JOIN "pub"."tb" "b" ON (a."id" = b."bid")) r
JOIN __pgs_cte_scan_c_5 dl ON (dl."x" = r."b__w")
WHERE dl.__pgs_action = 'I'
  AND (SELECT has_ins FROM __pgs_cte_fj_left_flags_17)
  AND NOT EXISTS (
    SELECT 1 FROM (SELECT "x" FROM "pub"."tc" "c" EXCEPT ALL SELECT "x" FROM __pgs_cte_scan_c_5 WHERE __pgs_action = 'I' UNION ALL SELECT "x" FROM __pgs_cte_scan_c_5 WHERE __pgs_action = 'D') __pgs_l_old WHERE (__pgs_l_old."x" = r."b__w")
)

UNION ALL

-- Part 7b: Insert NULL-padded right rows when right row loses all left matches
SELECT 0::BIGINT AS __pgs_row_id,
       'I'::TEXT AS __pgs_action,
       NULL AS "c__x", r."a__id" AS "join__a__id", r."a__v" AS "join__a__v", r."b__bid" AS "join__b__bid", r."b__w" AS "join__b__w"
FROM (SELECT "a"."id" AS "a__id", "a"."v" AS "a__v", "b"."bid" AS "b__bid", "b"."w" AS "b__w" FROM "pub"."ta" "a" JOIN "pub"."tb" "b" ON (a."id" = b."bid")) r
JOIN __pgs_cte_scan_c_5 dl ON (dl."x" = r."b__w")
WHERE dl.__pgs_action = 'D'
  AND (SELECT has_del FROM __pgs_cte_fj_left_flags_17)
  AND NOT EXISTS (
    SELECT 1 FROM "pub"."tc" l WHERE (l."x" = r."b__w")
)
  AND EXISTS (
    SELECT 1 FROM (SELECT "x" FROM "pub"."tc" "c" EXCEPT ALL SELECT "x" FROM __pgs_cte_scan_c_5 WHERE __pgs_action = 'I' UNION ALL SELECT "x" FROM __pgs_cte_scan_c_5 WHERE __pgs_action = 'D') __pgs_l_old WHERE (__pgs_l_old."x" = r."b__w")
)"#,
            ),
        ],
    );
}

#[test]
fn no_cascade_through_a_filtered_table() {
    let mut c = ctx();
    c.st_user_columns = Some(names(&["id", "v"]));
    c.sources_with_deletes = vec![1];
    let e = c.diff_node(&tree_of(left_step())).unwrap_err();
    assert_eq!(
        e.to_string(),
        r#"internal error: generate_query_sql_cascade: unsupported OpTree variant "a""#
    );
    assert_eq!(c.ctes.len(), 8);
}
