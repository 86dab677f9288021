//! The SQLite adapter's computation: pragma-row conversion, synthesized
//! foreign-key names, and statistics derived from the schema and the page
//! figures. The file I/O stands outside the library.

use vstd::prelude::*;

use crate::model::{AdapterStats, ColumnInfo, ForeignKeyInfo, TableSchema};
use crate::text::{dec_rep_i, i64_to_string, str_chars, string_from_chars};

verus! {

/// One row of the table-info pragma: name, declared type, the not-null
/// flag, and the primary-key ordinal (zero when not part of the key).
#[derive(Debug, Clone)]
pub struct SqliteColumnRow {
    pub name: String,
    pub data_type: String,
    pub notnull: i32,
    pub pk: i32,
}

/// How one pragma row converts to a column: nullable exactly when the
/// not-null flag is clear, part of the primary key exactly when the key
/// ordinal is positive.
pub open spec fn sqlite_column_matches(row: SqliteColumnRow, c: ColumnInfo) -> bool {
    &&& c.name@ == row.name@
    &&& c.data_type@ == row.data_type@
    &&& c.nullable == (row.notnull == 0)
    &&& c.primary_key == (row.pk > 0)
}

/// Converts one table-info pragma row.
pub fn sqlite_column(row: &SqliteColumnRow) -> (c: ColumnInfo)
    ensures
        sqlite_column_matches(*row, c),
{
    ColumnInfo {
        name: row.name.clone(),
        data_type: row.data_type.clone(),
        nullable: row.notnull == 0,
        primary_key: row.pk > 0,
    }
}

/// Builds one table's schema from its pragma rows: the columns keep the
/// given order, and the row count is the exact count the adapter measured.
pub fn sqlite_table_schema(name: String, cols: Vec<SqliteColumnRow>, count: u64) -> (t: TableSchema)
    ensures
        t.name == name,
        t.row_count == count,
        t.columns@.len() == cols@.len(),
        forall|i: int|
            0 <= i < cols@.len() ==> sqlite_column_matches(cols@[i], #[trigger] t.columns@[i]),
{
    let n = cols.len();
    let mut columns: Vec<ColumnInfo> = Vec::new();
    let mut i: usize = 0;
    while i < n
        invariant
            n == cols@.len(),
            i <= n,
            columns@.len() == i,
            forall|j: int| 0 <= j < i ==> sqlite_column_matches(cols@[j], #[trigger] columns@[j]),
        decreases n - i,
    {
        columns.push(sqlite_column(&cols[i]));
        i = i + 1;
    }
    TableSchema { name, columns, row_count: count }
}

/// The synthesized name of a foreign key, from its pragma identifier.
pub open spec fn sqlite_fk_name_spec(id: int) -> Seq<char> {
    "fk_"@ + dec_rep_i(id)
}

/// Converts one foreign-key pragma row. The pragma reports no constraint
/// name, so one is synthesized from the key's identifier.
pub fn sqlite_fk(id: i32, from_column: String, to_table: String, to_column: String) -> (r:
    ForeignKeyInfo)
    ensures
        r.name@ == sqlite_fk_name_spec(id as int),
        r.from_column == from_column,
        r.to_table == to_table,
        r.to_column == to_column,
{
    let mut chars = str_chars("fk_");
    let mut digits_str = i64_to_string(id as i64);
    let mut digits = str_chars(digits_str.as_str());
    chars.append(&mut digits);
    proof {
        assert(chars@ =~= sqlite_fk_name_spec(id as int));
    }
    ForeignKeyInfo { name: string_from_chars(chars.as_slice()), from_column, to_table, to_column }
}

/// The total of the schema's per-table row counts.
pub open spec fn rows_total(s: Seq<TableSchema>) -> int
    decreases s.len(),
{
    if s.len() == 0 {
        0
    } else {
        rows_total(s.drop_last()) + s.last().row_count
    }
}

proof fn lemma_rows_total_nonneg(s: Seq<TableSchema>)
    ensures
        rows_total(s) >= 0,
    decreases s.len(),
{
    if s.len() > 0 {
        lemma_rows_total_nonneg(s.drop_last());
    }
}

/// Builds the statistics report: the table count and total row count come
/// from the schema just introspected, the disk figure from the page count
/// and page size; a figure beyond its type's bound saturates.
pub fn sqlite_stats(schema: &Vec<TableSchema>, page_count: u64, page_size: u64) -> (r: AdapterStats)
    ensures
        r.table_count == if schema@.len() > u32::MAX as int {
            u32::MAX
        } else {
            schema@.len() as u32
        },
        r.total_row_count == if rows_total(schema@) > u64::MAX as int {
            u64::MAX
        } else {
            rows_total(schema@) as u64
        },
        r.disk_usage_bytes == if page_count * page_size > u64::MAX as int {
            u64::MAX
        } else {
            (page_count * page_size) as u64
        },
{
    let n = schema.len();
    let tc: u32 = if n > u32::MAX as usize {
        u32::MAX
    } else {
        n as u32
    };
    let mut total: u64 = 0;
    let mut i: usize = 0;
    proof {
        lemma_rows_total_nonneg(schema@.take(0));
    }
    while i < n
        invariant
            n == schema@.len(),
            i <= n,
            total == if rows_total(schema@.take(i as int)) > u64::MAX as int {
                u64::MAX as int
            } else {
                rows_total(schema@.take(i as int))
            },
        decreases n - i,
    {
        let ghost pre = schema@.take(i as int);
        total = total.saturating_add(schema[i].row_count);
        proof {
            assert(schema@.take(i + 1 as int).drop_last() =~= pre);
            assert(schema@.take(i + 1 as int).last() == schema@[i as int]);
            lemma_rows_total_nonneg(pre);
        }
        i = i + 1;
    }
    proof {
        assert(schema@.take(n as int) =~= schema@);
    }
    let disk: u64 = match page_count.checked_mul(page_size) {
        Some(p) => p,
        None => u64::MAX,
    };
    AdapterStats { table_count: tc, total_row_count: total, disk_usage_bytes: disk }
}

} // verus!
