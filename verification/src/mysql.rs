//! The MySQL adapter's computation: URL assembly, introspection-row
//! conversion, regrouping the per-column statistics rows into index
//! descriptions, and statistics shaping. The driver calls stand outside
//! the library.

use vstd::prelude::*;

use crate::model::{AdapterStats, ColumnInfo, ConnectParams, IndexInfo, TableSchema};
use crate::text::dec_rep;
use crate::text::{str_chars, u64_to_string};

verus! {

/// One row of the column-introspection query.
#[derive(Debug, Clone)]
pub struct MySqlColumnRow {
    pub name: String,
    pub column_type: String,
    pub is_nullable: String,
    pub column_key: String,
}

/// How one introspection row converts to a column: nullable exactly when
/// the catalog says "YES", a key column exactly when the key kind is "PRI".
pub open spec fn mysql_column_matches(row: MySqlColumnRow, c: ColumnInfo) -> bool {
    &&& c.name@ == row.name@
    &&& c.data_type@ == row.column_type@
    &&& c.nullable == (row.is_nullable@ == "YES"@)
    &&& c.primary_key == (row.column_key@ == "PRI"@)
}

/// Converts one column-introspection row.
pub fn mysql_column(row: &MySqlColumnRow) -> (c: ColumnInfo)
    ensures
        mysql_column_matches(*row, c),
{
    let nullable_chars = str_chars(row.is_nullable.as_str());
    let key_chars = str_chars(row.column_key.as_str());
    ColumnInfo {
        name: row.name.clone(),
        data_type: row.column_type.clone(),
        nullable: crate::text::chars_eq_str(nullable_chars.as_slice(), "YES"),
        primary_key: crate::text::chars_eq_str(key_chars.as_slice(), "PRI"),
    }
}

/// Builds one table's schema: columns in the given (ordinal) order, the row
/// count from the backend's cached estimate, zero when none came back.
pub fn mysql_table_schema(name: String, cols: Vec<MySqlColumnRow>, counts: Vec<u64>) -> (t:
    TableSchema)
    ensures
        t.name == name,
        t.row_count == if counts@.len() > 0 {
            counts@[0]
        } else {
            0u64
        },
        t.columns@.len() == cols@.len(),
        forall|i: int|
            0 <= i < cols@.len() ==> mysql_column_matches(cols@[i], #[trigger] t.columns@[i]),
{
    let n = cols.len();
    let mut columns: Vec<ColumnInfo> = Vec::new();
    let mut i: usize = 0;
    while i < n
        invariant
            n == cols@.len(),
            i <= n,
            columns@.len() == i,
            forall|j: int| 0 <= j < i ==> mysql_column_matches(cols@[j], #[trigger] columns@[j]),
        decreases n - i,
    {
        columns.push(mysql_column(&cols[i]));
        i = i + 1;
    }
    let row_count: u64 = if counts.len() > 0 {
        counts[0]
    } else {
        0
    };
    TableSchema { name, columns, row_count }
}

/// The driver URL for the given parameters.
pub open spec fn mysql_url_spec(p: ConnectParams) -> Seq<char> {
    "mysql://"@ + p.username@ + ":"@ + p.password@ + "@"@ + p.host@ + ":"@ + dec_rep(p.port as nat)
        + "/"@ + p.database@
}

/// Assembles the driver URL.
pub fn mysql_url(p: &ConnectParams) -> (r: String)
    ensures
        r@ == mysql_url_spec(*p),
{
    let mut r = String::from_str("mysql://");
    r.append(p.username.as_str());
    r.append(":");
    r.append(p.password.as_str());
    r.append("@");
    r.append(p.host.as_str());
    r.append(":");
    r.append(u64_to_string(p.port as u64).as_str());
    r.append("/");
    r.append(p.database.as_str());
    proof {
        assert(r@ =~= mysql_url_spec(*p));
    }
    r
}

/// One row of the per-column index statistics: the index it belongs to,
/// the column, and the non-uniqueness flag.
#[derive(Debug, Clone)]
pub struct MySqlIndexRow {
    pub index_name: String,
    pub column_name: String,
    pub non_unique: i32,
}

/// The distinct index names, in order of first appearance.
pub open spec fn idx_names(rows: Seq<MySqlIndexRow>) -> Seq<Seq<char>>
    decreases rows.len(),
{
    if rows.len() == 0 {
        Seq::empty()
    } else {
        let prior = idx_names(rows.drop_last());
        if prior.contains(rows.last().index_name@) {
            prior
        } else {
            prior.push(rows.last().index_name@)
        }
    }
}

/// The columns of one index, in the order its rows appear.
pub open spec fn idx_columns(rows: Seq<MySqlIndexRow>, name: Seq<char>) -> Seq<Seq<char>>
    decreases rows.len(),
{
    if rows.len() == 0 {
        Seq::empty()
    } else {
        let prior = idx_columns(rows.drop_last(), name);
        if rows.last().index_name@ == name {
            prior.push(rows.last().column_name@)
        } else {
            prior
        }
    }
}

/// Whether one index is unique: decided by its first row's flag.
pub open spec fn idx_unique(rows: Seq<MySqlIndexRow>, name: Seq<char>) -> bool
    decreases rows.len(),
{
    if rows.len() == 0 {
        false
    } else {
        let prior = rows.drop_last();
        if idx_names(prior).contains(name) || rows.last().index_name@ != name {
            idx_unique(prior, name)
        } else {
            rows.last().non_unique == 0
        }
    }
}

proof fn lemma_idx_absent(rows: Seq<MySqlIndexRow>, name: Seq<char>)
    requires
        !idx_names(rows).contains(name),
    ensures
        idx_columns(rows, name).len() == 0,
    decreases rows.len(),
{
    if rows.len() > 0 {
        let prior = rows.drop_last();
        if idx_names(prior).contains(name) {
            if idx_names(prior).contains(rows.last().index_name@) {
                assert(idx_names(rows).contains(name));
            } else {
                let i = choose|i: int|
                    0 <= i < idx_names(prior).len() && idx_names(prior)[i] == name;
                assert(idx_names(rows)[i] == name);
                assert(idx_names(rows).contains(name));
            }
        }
        if rows.last().index_name@ == name {
            if idx_names(prior).contains(name) {
                assert(false);
            } else {
                assert(idx_names(rows).last() == name);
                assert(idx_names(rows).contains(name));
                assert(false);
            }
        }
        lemma_idx_absent(prior, name);
    }
}

/// How the grouped index list relates to the statistics rows: one entry per
/// distinct index name in order of first appearance, each holding that
/// index's columns in row order and its first row's uniqueness flag.
pub open spec fn indexes_grouped(rows: Seq<MySqlIndexRow>, r: Seq<IndexInfo>) -> bool {
    &&& r.len() == idx_names(rows).len()
    &&& forall|i: int|
        0 <= i < r.len() ==> (#[trigger] r[i]).name@ == idx_names(rows)[i]
    &&& forall|i: int|
        0 <= i < r.len() ==> (#[trigger] r[i]).columns@.map_values(|c: String| c@) == idx_columns(
            rows,
            idx_names(rows)[i],
        )
    &&& forall|i: int|
        0 <= i < r.len() ==> (#[trigger] r[i]).unique == idx_unique(rows, idx_names(rows)[i])
}

/// The position of the index already grouped under the given name, if any.
fn index_position(r: &Vec<IndexInfo>, name: &String) -> (p: Option<usize>)
    ensures
        match p {
            Some(p) => p < r@.len() && r@[p as int].name@ == name@,
            None => forall|j: int| 0 <= j < r@.len() ==> (#[trigger] r@[j]).name@ != name@,
        },
{
    let m = r.len();
    let mut p: usize = 0;
    while p < m
        invariant
            m == r@.len(),
            p <= m,
            forall|j: int| 0 <= j < p ==> (#[trigger] r@[j]).name@ != name@,
        decreases m - p,
    {
        if r[p].name == *name {
            return Some(p);
        }
        p = p + 1;
    }
    None
}

/// Regroups the per-column statistics rows into one description per index:
/// column order within an index follows the rows, the uniqueness flag comes
/// from the index's first row.
pub fn mysql_group_indexes(rows: &Vec<MySqlIndexRow>) -> (r: Vec<IndexInfo>)
    ensures
        indexes_grouped(rows@, r@),
{
    let n = rows.len();
    let mut r: Vec<IndexInfo> = Vec::new();
    proof {
        assert(rows@.take(0) =~= Seq::<MySqlIndexRow>::empty());
    }
    let mut k: usize = 0;
    while k < n
        invariant
            n == rows@.len(),
            k <= n,
            indexes_grouped(rows@.take(k as int), r@),
            forall|i: int, j: int|
                0 <= i < j < r@.len() ==> (#[trigger] r@[i]).name@ != (#[trigger] r@[j]).name@,
        decreases n - k,
    {
        let ghost pre = rows@.take(k as int);
        let ghost pre_r = r@;
        let row = &rows[k];
        let ghost nm = row.index_name@;
        proof {
            assert(rows@.take(k + 1 as int).drop_last() =~= pre);
            assert(rows@.take(k + 1 as int).last() == rows@[k as int]);
        }
        let pos = index_position(&r, &row.index_name);
        if let Some(p) = pos {
            proof {
                assert(r@[p as int].name@ == nm);
                assert(idx_names(pre).contains(nm)) by {
                    assert(idx_names(pre)[p as int] == nm);
                }
                assert(idx_names(rows@.take(k + 1 as int)) == idx_names(pre));
            }
            let mut e = r.remove(p);
            e.columns.push(row.column_name.clone());
            r.insert(p, e);
            proof {
                assert(r@ =~= pre_r.update(p as int, e));
                let post = rows@.take(k + 1 as int);
                assert forall|i: int| 0 <= i < r@.len() implies (#[trigger] r@[i]).columns@
                    .map_values(|c: String| c@) == idx_columns(post, idx_names(post)[i]) by {
                    if i == p {
                        assert(e.columns@.map_values(|c: String| c@) =~= pre_r[p as int].columns@
                            .map_values(|c: String| c@).push(row.column_name@));
                        assert(idx_columns(post, nm) == idx_columns(pre, nm).push(
                            row.column_name@,
                        ));
                    } else {
                        assert(r@[i] == pre_r[i]);
                        assert(idx_names(post)[i] != nm);
                        assert(idx_columns(post, idx_names(post)[i]) == idx_columns(
                            pre,
                            idx_names(pre)[i],
                        ));
                    }
                }
            }
        } else {
            proof {
                assert(!idx_names(pre).contains(nm)) by {
                    if idx_names(pre).contains(nm) {
                        let i = choose|i: int|
                            0 <= i < idx_names(pre).len() && idx_names(pre)[i] == nm;
                        assert(r@[i].name@ == nm);
                    }
                }
                assert(idx_names(rows@.take(k + 1 as int)) == idx_names(pre).push(nm));
                lemma_idx_absent(pre, nm);
            }
            let mut columns: Vec<String> = Vec::new();
            columns.push(row.column_name.clone());
            let e = IndexInfo {
                name: row.index_name.clone(),
                columns,
                unique: row.non_unique == 0,
            };
            r.push(e);
            proof {
                let post = rows@.take(k + 1 as int);
                assert(e.columns@.map_values(|c: String| c@) =~= idx_columns(pre, nm).push(
                    row.column_name@,
                ));
                assert forall|i: int| 0 <= i < r@.len() implies (#[trigger] r@[i]).columns@
                    .map_values(|c: String| c@) == idx_columns(post, idx_names(post)[i]) by {
                    if i < pre_r.len() {
                        assert(r@[i] == pre_r[i]);
                        assert(idx_names(post)[i] == idx_names(pre)[i]);
                        assert(idx_names(pre)[i] != nm) by {
                            if idx_names(pre)[i] == nm {
                                assert(idx_names(pre).contains(nm));
                            }
                        }
                    } else {
                        assert(r@[i] == e);
                        assert(idx_names(post)[i] == nm);
                    }
                }
                assert forall|i: int| 0 <= i < r@.len() implies (#[trigger] r@[i]).unique
                    == idx_unique(post, idx_names(post)[i]) by {
                    if i < pre_r.len() {
                        assert(idx_names(pre)[i] != nm) by {
                            if idx_names(pre)[i] == nm {
                                assert(idx_names(pre).contains(nm));
                            }
                        }
                    }
                }
            }
        }
        k = k + 1;
    }
    proof {
        assert(rows@.take(n as int) =~= rows@);
    }
    r
}

/// Builds the statistics report from the catalog's summary row, zero-filled
/// when the catalog returned none; an oversized table count saturates.
pub fn mysql_stats(row: Option<(u64, u64, u64)>) -> (r: AdapterStats)
    ensures
        match row {
            Some(v) => {
                &&& r.table_count == if v.0 > u32::MAX as u64 {
                    u32::MAX
                } else {
                    v.0 as u32
                }
                &&& r.total_row_count == v.1
                &&& r.disk_usage_bytes == v.2
            },
            None => r.table_count == 0 && r.total_row_count == 0 && r.disk_usage_bytes == 0,
        },
{
    match row {
        Some((tc, total, disk)) => AdapterStats {
            table_count: if tc > u32::MAX as u64 {
                u32::MAX
            } else {
                tc as u32
            },
            total_row_count: total,
            disk_usage_bytes: disk,
        },
        None => AdapterStats { table_count: 0, total_row_count: 0, disk_usage_bytes: 0 },
    }
}

} // verus!
