//! The PostgreSQL adapter's computation: connection-string assembly,
//! introspection-row conversion, planner-estimate clamping, statistics
//! clamping, and driver-error message expansion. The driver calls
//! themselves stand outside the library and hand these functions plain
//! values.

use vstd::prelude::*;

use crate::model::{AdapterStats, ColumnInfo, ConnectParams, TableSchema};
use crate::text::dec_rep;
use crate::text::{push_char, str_chars, string_from_chars, u64_to_string};

verus! {

/// One row of the column-introspection query: name, type label, the
/// "YES"/"NO" nullability text, and the primary-key flag from the
/// constraint join.
#[derive(Debug, Clone)]
pub struct PgColumnRow {
    pub name: String,
    pub data_type: String,
    pub is_nullable: String,
    pub is_pk: bool,
}

/// How one introspection row converts to a column: nullable exactly when
/// the catalog says "YES".
pub open spec fn pg_column_matches(row: PgColumnRow, c: ColumnInfo) -> bool {
    &&& c.name@ == row.name@
    &&& c.data_type@ == row.data_type@
    &&& c.nullable == (row.is_nullable@ == "YES"@)
    &&& c.primary_key == row.is_pk
}

/// Converts one column-introspection row.
pub fn pg_column(row: &PgColumnRow) -> (c: ColumnInfo)
    ensures
        pg_column_matches(*row, c),
{
    let chars = str_chars(row.is_nullable.as_str());
    ColumnInfo {
        name: row.name.clone(),
        data_type: row.data_type.clone(),
        nullable: crate::text::chars_eq_str(chars.as_slice(), "YES"),
        primary_key: row.is_pk,
    }
}

/// Clamps the planner's row estimate to zero: the statistic is approximate
/// and may come back negative, but a row count never is.
pub fn pg_row_count(reltuples: i64) -> (r: u64)
    ensures
        r == if reltuples >= 0 {
            reltuples as u64
        } else {
            0u64
        },
{
    if reltuples >= 0 {
        reltuples as u64
    } else {
        0
    }
}

/// Builds one table's schema from its introspection rows: the columns keep
/// the given (ordinal) order, and the row estimate is clamped to zero.
pub fn pg_table_schema(name: String, cols: Vec<PgColumnRow>, reltuples: i64) -> (t: TableSchema)
    ensures
        t.name == name,
        t.row_count == if reltuples >= 0 {
            reltuples as u64
        } else {
            0u64
        },
        t.columns@.len() == cols@.len(),
        forall|i: int|
            0 <= i < cols@.len() ==> pg_column_matches(cols@[i], #[trigger] t.columns@[i]),
{
    let n = cols.len();
    let mut columns: Vec<ColumnInfo> = Vec::new();
    let mut i: usize = 0;
    while i < n
        invariant
            n == cols@.len(),
            i <= n,
            columns@.len() == i,
            forall|j: int| 0 <= j < i ==> pg_column_matches(cols@[j], #[trigger] columns@[j]),
        decreases n - i,
    {
        columns.push(pg_column(&cols[i]));
        i = i + 1;
    }
    TableSchema { name, columns, row_count: pg_row_count(reltuples) }
}

/// How one character is escaped inside a single-quoted connection-string
/// value: backslashes and single quotes take a backslash escape.
pub open spec fn pg_esc_char(c: char) -> Seq<char> {
    if c == '\\' {
        seq!['\\', '\\']
    } else if c == '\'' {
        seq!['\\', '\'']
    } else {
        seq![c]
    }
}

/// The escaped body of a connection-string value.
pub open spec fn pg_esc_body(s: Seq<char>) -> Seq<char>
    decreases s.len(),
{
    if s.len() == 0 {
        Seq::empty()
    } else {
        pg_esc_body(s.drop_last()) + pg_esc_char(s.last())
    }
}

/// A value quoted for the driver's connection-string format: single quotes
/// around the escaped body.
pub open spec fn pg_escaped(s: Seq<char>) -> Seq<char> {
    seq!['\''] + pg_esc_body(s) + seq!['\'']
}

/// Single-quotes and escapes one connection-string value.
pub fn pg_escape(s: &str) -> (r: String)
    ensures
        r@ == pg_escaped(s@),
{
    let chars = str_chars(s);
    let n = chars.len();
    let mut out: Vec<char> = Vec::new();
    out.push('\'');
    proof {
        assert(out@ =~= seq!['\''] + pg_esc_body(chars@.take(0)));
    }
    let mut i: usize = 0;
    while i < n
        invariant
            n == chars@.len(),
            chars@ == s@,
            i <= n,
            out@ == seq!['\''] + pg_esc_body(s@.take(i as int)),
        decreases n - i,
    {
        let c = chars[i];
        if c == '\\' {
            out.push('\\');
            out.push('\\');
        } else if c == '\'' {
            out.push('\\');
            out.push('\'');
        } else {
            out.push(c);
        }
        proof {
            assert(s@.take(i + 1 as int).drop_last() =~= s@.take(i as int));
            assert(s@.take(i + 1 as int).last() == s@[i as int]);
            assert(out@ =~= seq!['\''] + pg_esc_body(s@.take(i + 1 as int)));
        }
        i = i + 1;
    }
    out.push('\'');
    proof {
        assert(s@.take(n as int) =~= s@);
        assert(out@ =~= pg_escaped(s@));
    }
    string_from_chars(out.as_slice())
}

/// The full connection string for the given parameters.
pub open spec fn pg_connect_string_spec(p: ConnectParams) -> Seq<char> {
    "host="@ + pg_escaped(p.host@) + " port="@ + dec_rep(p.port as nat) + " dbname="@ + pg_escaped(
        p.database@,
    ) + " user="@ + pg_escaped(p.username@) + " password="@ + pg_escaped(p.password@) + " sslmode="@
        + (if p.use_ssl {
        "require"@
    } else {
        "disable"@
    })
}

/// Assembles the driver's connection string: each value quoted and escaped,
/// and the TLS mode required exactly when the parameters ask for it.
pub fn pg_connect_string(p: &ConnectParams) -> (r: String)
    ensures
        r@ == pg_connect_string_spec(*p),
{
    let mut r = String::from_str("host=");
    r.append(pg_escape(p.host.as_str()).as_str());
    r.append(" port=");
    r.append(u64_to_string(p.port as u64).as_str());
    r.append(" dbname=");
    r.append(pg_escape(p.database.as_str()).as_str());
    r.append(" user=");
    r.append(pg_escape(p.username.as_str()).as_str());
    r.append(" password=");
    r.append(pg_escape(p.password.as_str()).as_str());
    r.append(" sslmode=");
    if p.use_ssl {
        r.append("require");
    } else {
        r.append("disable");
    }
    proof {
        assert(r@ =~= pg_connect_string_spec(*p));
    }
    r
}

/// The structured fields of a database-reported error, as the driver
/// exposes them.
#[derive(Debug, Clone)]
pub struct PgErrorInfo {
    pub severity: String,
    pub message: String,
    pub detail: Option<String>,
    pub hint: Option<String>,
}

/// The expanded text of a database-reported error: severity and message,
/// then the detail and the hint when present.
pub open spec fn pg_error_text_spec(e: PgErrorInfo) -> Seq<char> {
    let base = e.severity@ + ": "@ + e.message@;
    let with_detail = match e.detail {
        Some(d) => base + " — "@ + d@,
        None => base,
    };
    match e.hint {
        Some(h) => with_detail + " (hint: "@ + h@ + ")"@,
        None => with_detail,
    }
}

/// Expands a database-reported error so no context is dropped: severity,
/// message, detail and hint, as far as the server supplied them.
pub fn pg_error_text(e: &PgErrorInfo) -> (r: String)
    ensures
        r@ == pg_error_text_spec(*e),
{
    let mut r = e.severity.clone();
    r.append(": ");
    r.append(e.message.as_str());
    match &e.detail {
        Some(d) => {
            r.append(" — ");
            r.append(d.as_str());
        },
        None => {},
    }
    match &e.hint {
        Some(h) => {
            r.append(" (hint: ");
            r.append(h.as_str());
            r.append(")");
        },
        None => {},
    }
    proof {
        assert(r@ =~= pg_error_text_spec(*e));
    }
    r
}

/// A top-level error text followed by its whole cause chain.
pub open spec fn chained_text(top: Seq<char>, causes: Seq<String>) -> Seq<char>
    decreases causes.len(),
{
    if causes.len() == 0 {
        top
    } else {
        chained_text(top, causes.drop_last()) + ": "@ + causes.last()@
    }
}

/// Joins an error's text with every cause below it, so no context is
/// silently dropped.
pub fn chain_error_text(top: String, causes: &Vec<String>) -> (r: String)
    ensures
        r@ == chained_text(top@, causes@),
{
    let ghost top_view = top@;
    let n = causes.len();
    let mut r = top;
    let mut i: usize = 0;
    while i < n
        invariant
            n == causes@.len(),
            i <= n,
            r@ == chained_text(top_view, causes@.take(i as int)),
        decreases n - i,
    {
        r.append(": ");
        r.append(causes[i].as_str());
        proof {
            assert(causes@.take(i + 1 as int).drop_last() =~= causes@.take(i as int));
            assert(causes@.take(i + 1 as int).last() == causes@[i as int]);
        }
        i = i + 1;
    }
    proof {
        assert(causes@.take(n as int) =~= causes@);
    }
    r
}

/// Builds the statistics report from the three catalog figures, clamping a
/// negative figure to zero and an oversized table count to its bound.
pub fn pg_stats(table_count: i64, total_rows: i64, disk_usage: i64) -> (r: AdapterStats)
    ensures
        r.table_count == if table_count < 0 {
            0u32
        } else if table_count > u32::MAX as i64 {
            u32::MAX
        } else {
            table_count as u32
        },
        r.total_row_count == if total_rows >= 0 {
            total_rows as u64
        } else {
            0u64
        },
        r.disk_usage_bytes == if disk_usage >= 0 {
            disk_usage as u64
        } else {
            0u64
        },
{
    let tc: u32 = if table_count < 0 {
        0
    } else if table_count > u32::MAX as i64 {
        u32::MAX
    } else {
        table_count as u32
    };
    AdapterStats {
        table_count: tc,
        total_row_count: if total_rows >= 0 {
            total_rows as u64
        } else {
            0
        },
        disk_usage_bytes: if disk_usage >= 0 {
            disk_usage as u64
        } else {
            0
        },
    }
}

} // verus!
