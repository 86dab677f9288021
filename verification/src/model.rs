//! The normalized data model shared by every backend: connection
//! parameters, schema and metadata shapes, query results, and the error
//! type, together with the cell normalization every backend funnels its
//! values through.

use vstd::prelude::*;

use crate::text::{dec_rep, lower_spec};
use crate::text::{chars_eq_str, lower_chars, str_chars, string_from_chars, u64_to_chars};

verus! {

/// The flavour of a database backend.
#[derive(Debug, Clone, Copy, PartialEq, Eq, Hash, Structural)]
pub enum DatabaseKind {
    PostgreSQL,
    MySQL,
    SQLite,
    Redis,
}

impl DatabaseKind {
    /// The backend named by an alias, compared without regard to ASCII case;
    /// an unrecognized alias names no backend.
    pub open spec fn of_alias(s: Seq<char>) -> Option<DatabaseKind> {
        let l = lower_spec(s);
        if l == "postgresql"@ || l == "postgres"@ || l == "pg"@ {
            Some(DatabaseKind::PostgreSQL)
        } else if l == "mysql"@ || l == "mariadb"@ {
            Some(DatabaseKind::MySQL)
        } else if l == "sqlite"@ || l == "sqlite3"@ {
            Some(DatabaseKind::SQLite)
        } else if l == "redis"@ {
            Some(DatabaseKind::Redis)
        } else {
            None
        }
    }

    /// Parses a backend name leniently: known aliases in any ASCII case;
    /// anything else yields no match, never a default.
    pub fn from_str_loose(s: &str) -> (r: Option<DatabaseKind>)
        ensures
            r == DatabaseKind::of_alias(s@),
    {
        let chars = str_chars(s);
        let low = lower_chars(chars.as_slice());
        let l = low.as_slice();
        if chars_eq_str(l, "postgresql") || chars_eq_str(l, "postgres") || chars_eq_str(l, "pg") {
            Some(DatabaseKind::PostgreSQL)
        } else if chars_eq_str(l, "mysql") || chars_eq_str(l, "mariadb") {
            Some(DatabaseKind::MySQL)
        } else if chars_eq_str(l, "sqlite") || chars_eq_str(l, "sqlite3") {
            Some(DatabaseKind::SQLite)
        } else if chars_eq_str(l, "redis") {
            Some(DatabaseKind::Redis)
        } else {
            None
        }
    }
}

/// Everything needed to open a connection to any backend. For SQLite the
/// `database` field is the file path. Immutable once handed to `connect`.
#[derive(Debug, Clone)]
pub struct ConnectParams {
    pub kind: DatabaseKind,
    pub host: String,
    pub port: u16,
    pub database: String,
    pub username: String,
    pub password: String,
    pub use_ssl: bool,
}

/// One column of a table: the type label stays backend-native.
#[derive(Debug, Clone)]
pub struct ColumnInfo {
    pub name: String,
    pub data_type: String,
    pub nullable: bool,
    pub primary_key: bool,
}

/// One table: columns in ordinal position order; the row count is exact or
/// estimated depending on the backend.
#[derive(Debug, Clone)]
pub struct TableSchema {
    pub name: String,
    pub columns: Vec<ColumnInfo>,
    pub row_count: u64,
}

/// Index metadata returned from introspection.
#[derive(Debug, Clone)]
pub struct IndexInfo {
    pub name: String,
    pub columns: Vec<String>,
    pub unique: bool,
}

/// Foreign key metadata.
#[derive(Debug, Clone)]
pub struct ForeignKeyInfo {
    pub name: String,
    pub from_column: String,
    pub to_table: String,
    pub to_column: String,
}

/// Extended metadata for one table: schema plus indexes plus foreign keys.
#[derive(Debug, Clone)]
pub struct TableMetadata {
    pub schema: TableSchema,
    pub indexes: Vec<IndexInfo>,
    pub foreign_keys: Vec<ForeignKeyInfo>,
}

/// Summary statistics reported by an adapter: always present, zero-filled
/// where the backend offers no figure.
#[derive(Debug, Clone)]
pub struct AdapterStats {
    pub table_count: u32,
    pub total_row_count: u64,
    pub disk_usage_bytes: u64,
}

/// A stored connection record, as the surrounding application keeps it.
#[derive(Debug, Clone)]
pub struct DatabaseConnection {
    pub id: String,
    pub name: String,
    pub db_type: String,
    pub host: String,
    pub port: u16,
    pub database: String,
    pub username: String,
    pub connected: bool,
    pub password: String,
    pub use_ssl: bool,
}

/// Adapter statistics tagged with the connection they describe.
#[derive(Debug, Clone)]
pub struct DatabaseStats {
    pub connection_id: String,
    pub table_count: u32,
    pub total_row_count: u64,
    pub disk_usage_bytes: u64,
    pub connected: bool,
}

/// The numeric payload of a normalized cell. The verified core computes
/// with integers only; a non-integral number carries the decimal rendering
/// its driver produced.
#[derive(Debug, Clone)]
pub enum NumberValue {
    Int(i64),
    UInt(u64),
    Decimal(String),
}

/// The only shapes a result cell may take after backend-specific coercion.
#[derive(Debug, Clone)]
pub enum NormalizedValue {
    Null,
    Bool(bool),
    Number(NumberValue),
    Text(String),
}

/// A cell as a driver hands it over, before normalization: plain values
/// only. A floating-point cell arrives as its decimal rendering; a binary
/// payload arrives as its length.
#[derive(Debug, Clone)]
pub enum RawCell {
    Null,
    Bool(bool),
    Int(i64),
    UInt(u64),
    FloatText(String),
    Text(String),
    Blob(usize),
}

/// The descriptive string a binary payload degrades to.
pub open spec fn blob_summary(n: nat) -> Seq<char> {
    "<blob "@ + dec_rep(n) + " bytes>"@
}

/// How one raw cell normalizes: null, booleans, numbers and text map
/// directly; a binary payload degrades to a descriptive string.
pub open spec fn cell_normalizes(c: RawCell, v: NormalizedValue) -> bool {
    match c {
        RawCell::Null => v is Null,
        RawCell::Bool(b) => v == NormalizedValue::Bool(b),
        RawCell::Int(i) => v == NormalizedValue::Number(NumberValue::Int(i)),
        RawCell::UInt(u) => v == NormalizedValue::Number(NumberValue::UInt(u)),
        RawCell::FloatText(s) => v == NormalizedValue::Number(NumberValue::Decimal(s)),
        RawCell::Text(s) => v == NormalizedValue::Text(s),
        RawCell::Blob(n) => v matches NormalizedValue::Text(m) && m@ == blob_summary(n as nat),
    }
}

/// Coerces one raw cell into its normalized value.
pub fn normalize_cell(c: &RawCell) -> (v: NormalizedValue)
    ensures
        cell_normalizes(*c, v),
{
    match c {
        RawCell::Null => NormalizedValue::Null,
        RawCell::Bool(b) => NormalizedValue::Bool(*b),
        RawCell::Int(i) => NormalizedValue::Number(NumberValue::Int(*i)),
        RawCell::UInt(u) => NormalizedValue::Number(NumberValue::UInt(*u)),
        RawCell::FloatText(s) => NormalizedValue::Number(NumberValue::Decimal(s.clone())),
        RawCell::Text(s) => NormalizedValue::Text(s.clone()),
        RawCell::Blob(n) => {
            let mut chars = str_chars("<blob ");
            let mut digits = u64_to_chars(*n as u64);
            chars.append(&mut digits);
            let mut tail = str_chars(" bytes>");
            chars.append(&mut tail);
            proof {
                assert(chars@ =~= blob_summary(*n as nat));
            }
            NormalizedValue::Text(string_from_chars(chars.as_slice()))
        },
    }
}

/// A fully materialized query result.
#[derive(Debug, Clone)]
pub struct QueryResult {
    pub columns: Vec<String>,
    pub rows: Vec<Vec<NormalizedValue>>,
    pub row_count: usize,
    pub execution_time_ms: u64,
}

impl QueryResult {
    /// The result-shape invariant: the row count equals the number of rows,
    /// and every row is as wide as the column list.
    pub open spec fn wf(&self) -> bool {
        &&& self.row_count == self.rows@.len()
        &&& forall|i: int|
            0 <= i < self.rows@.len() ==> (#[trigger] self.rows@[i])@.len() == self.columns@.len()
    }
}

/// Assembles a query result from the column names and the raw cell matrix a
/// driver produced. Every row of the result is exactly as wide as the column
/// list: a missing cell becomes null, an extra cell is dropped.
pub fn build_query_result(columns: Vec<String>, raw: Vec<Vec<RawCell>>, elapsed_ms: u64) -> (r:
    QueryResult)
    ensures
        r.wf(),
        r.columns == columns,
        r.rows@.len() == raw@.len(),
        r.row_count == raw@.len(),
        r.execution_time_ms == elapsed_ms,
        forall|i: int, j: int|
            0 <= i < raw@.len() && 0 <= j < columns@.len() && j < (#[trigger] raw@[i])@.len()
                ==> cell_normalizes(raw@[i]@[j], #[trigger] r.rows@[i]@[j]),
        forall|i: int, j: int|
            0 <= i < raw@.len() && 0 <= j < columns@.len() && j >= (#[trigger] raw@[i])@.len() ==> (
            #[trigger] r.rows@[i]@[j]) is Null,
{
    let ncols = columns.len();
    let nrows = raw.len();
    let mut rows: Vec<Vec<NormalizedValue>> = Vec::new();
    let mut i: usize = 0;
    while i < nrows
        invariant
            ncols == columns@.len(),
            nrows == raw@.len(),
            i <= nrows,
            rows@.len() == i,
            forall|k: int| 0 <= k < i ==> (#[trigger] rows@[k])@.len() == ncols,
            forall|k: int, j: int|
                0 <= k < i && 0 <= j < ncols && j < (#[trigger] raw@[k])@.len() ==> cell_normalizes(
                    raw@[k]@[j],
                    #[trigger] rows@[k]@[j],
                ),
            forall|k: int, j: int|
                0 <= k < i && 0 <= j < ncols && j >= (#[trigger] raw@[k])@.len() ==> (
                #[trigger] rows@[k]@[j]) is Null,
        decreases nrows - i,
    {
        let src = &raw[i];
        let m = src.len();
        let mut row: Vec<NormalizedValue> = Vec::new();
        let mut j: usize = 0;
        while j < ncols
            invariant
                m == src@.len(),
                src == raw@[i as int],
                j <= ncols,
                row@.len() == j,
                forall|q: int|
                    0 <= q < j && q < m ==> cell_normalizes(src@[q], #[trigger] row@[q]),
                forall|q: int| 0 <= q < j && q >= m ==> (#[trigger] row@[q]) is Null,
            decreases ncols - j,
        {
            if j < m {
                row.push(normalize_cell(&src[j]));
            } else {
                row.push(NormalizedValue::Null);
            }
            j = j + 1;
        }
        rows.push(row);
        i = i + 1;
    }
    QueryResult { columns, rows, row_count: nrows, execution_time_ms: elapsed_ms }
}

/// The error kinds this layer reports. Every payload is the full
/// descriptive text shown to a caller.
#[derive(Debug, Clone)]
pub enum AppError {
    NotFound(String),
    ConnectionFailed(String),
    QueryError(String),
    CsvParseError(String),
    ScanError(String),
    DatabaseError(String),
}

/// The error surfaced when an operation's time bound elapses: during
/// adapter construction the connect timeout, afterwards the query timeout.
/// A timeout is reported as a connection failure, distinct from any
/// driver-reported error.
pub fn timeout_error(during_connect: bool) -> (r: AppError)
    ensures
        r matches AppError::ConnectionFailed(m) && m@ == if during_connect {
            "Connection timed out"@
        } else {
            "Operation timed out"@
        },
{
    if during_connect {
        AppError::ConnectionFailed(String::from_str("Connection timed out"))
    } else {
        AppError::ConnectionFailed(String::from_str("Operation timed out"))
    }
}

/// Tags an adapter's statistics with the connection they describe and
/// whether a live adapter produced them.
pub fn merge_stats(connection_id: String, stats: &AdapterStats, connected: bool) -> (r:
    DatabaseStats)
    ensures
        r.connection_id == connection_id,
        r.table_count == stats.table_count,
        r.total_row_count == stats.total_row_count,
        r.disk_usage_bytes == stats.disk_usage_bytes,
        r.connected == connected,
{
    DatabaseStats {
        connection_id,
        table_count: stats.table_count,
        total_row_count: stats.total_row_count,
        disk_usage_bytes: stats.disk_usage_bytes,
        connected,
    }
}

/// Index metadata in the shape the boundary serializes.
#[derive(Debug, Clone)]
pub struct IndexInfoResult {
    pub name: String,
    pub columns: Vec<String>,
    pub unique: bool,
}

/// Foreign-key metadata in the shape the boundary serializes.
#[derive(Debug, Clone)]
pub struct ForeignKeyResult {
    pub name: String,
    pub from_column: String,
    pub to_table: String,
    pub to_column: String,
}

/// Table metadata in the shape the boundary serializes.
#[derive(Debug, Clone)]
pub struct TableMetadataResult {
    pub schema: TableSchema,
    pub indexes: Vec<IndexInfoResult>,
    pub foreign_keys: Vec<ForeignKeyResult>,
}

/// Reshapes table metadata for the boundary, field for field.
pub fn to_metadata_result(meta: TableMetadata) -> (r: TableMetadataResult)
    ensures
        r.schema == meta.schema,
        r.indexes@.len() == meta.indexes@.len(),
        forall|i: int|
            0 <= i < meta.indexes@.len() ==> {
                &&& (#[trigger] r.indexes@[i]).name == meta.indexes@[i].name
                &&& r.indexes@[i].columns == meta.indexes@[i].columns
                &&& r.indexes@[i].unique == meta.indexes@[i].unique
            },
        r.foreign_keys@.len() == meta.foreign_keys@.len(),
        forall|i: int|
            0 <= i < meta.foreign_keys@.len() ==> {
                &&& (#[trigger] r.foreign_keys@[i]).name == meta.foreign_keys@[i].name
                &&& r.foreign_keys@[i].from_column == meta.foreign_keys@[i].from_column
                &&& r.foreign_keys@[i].to_table == meta.foreign_keys@[i].to_table
                &&& r.foreign_keys@[i].to_column == meta.foreign_keys@[i].to_column
            },
{
    let TableMetadata { schema, indexes, foreign_keys } = meta;
    let ghost idx_view = indexes@;
    let ghost fk_view = foreign_keys@;
    let mut src_idx = indexes;
    let mut out_idx: Vec<IndexInfoResult> = Vec::new();
    while src_idx.len() > 0
        invariant
            out_idx@.len() + src_idx@.len() == idx_view.len(),
            src_idx@ == idx_view.skip(out_idx@.len() as int),
            forall|i: int|
                0 <= i < out_idx@.len() ==> {
                    &&& (#[trigger] out_idx@[i]).name == idx_view[i].name
                    &&& out_idx@[i].columns == idx_view[i].columns
                    &&& out_idx@[i].unique == idx_view[i].unique
                },
        decreases src_idx@.len(),
    {
        let ghost k = out_idx@.len() as int;
        let e = src_idx.remove(0);
        proof {
            assert(e == idx_view[k]);
            assert(src_idx@ =~= idx_view.skip(k + 1));
        }
        out_idx.push(IndexInfoResult { name: e.name, columns: e.columns, unique: e.unique });
    }
    let mut src_fk = foreign_keys;
    let mut out_fk: Vec<ForeignKeyResult> = Vec::new();
    while src_fk.len() > 0
        invariant
            out_fk@.len() + src_fk@.len() == fk_view.len(),
            src_fk@ == fk_view.skip(out_fk@.len() as int),
            forall|i: int|
                0 <= i < out_fk@.len() ==> {
                    &&& (#[trigger] out_fk@[i]).name == fk_view[i].name
                    &&& out_fk@[i].from_column == fk_view[i].from_column
                    &&& out_fk@[i].to_table == fk_view[i].to_table
                    &&& out_fk@[i].to_column == fk_view[i].to_column
                },
        decreases src_fk@.len(),
    {
        let ghost k = out_fk@.len() as int;
        let e = src_fk.remove(0);
        proof {
            assert(e == fk_view[k]);
            assert(src_fk@ =~= fk_view.skip(k + 1));
        }
        out_fk.push(
            ForeignKeyResult {
                name: e.name,
                from_column: e.from_column,
                to_table: e.to_table,
                to_column: e.to_column,
            },
        );
    }
    TableMetadataResult { schema, indexes: out_idx, foreign_keys: out_fk }
}

impl AppError {
    /// The message text of an error, with its kind prefix.
    pub open spec fn message_spec(&self) -> Seq<char> {
        match self {
            AppError::NotFound(m) => "Not found: "@ + m@,
            AppError::ConnectionFailed(m) => "Connection failed: "@ + m@,
            AppError::QueryError(m) => "Query error: "@ + m@,
            AppError::CsvParseError(m) => "CSV parse error: "@ + m@,
            AppError::ScanError(m) => "Scan error: "@ + m@,
            AppError::DatabaseError(m) => "Database error: "@ + m@,
        }
    }

    /// Serializes the error as one descriptive string, so that any caller
    /// can display it directly.
    pub fn message(&self) -> (r: String)
        ensures
            r@ == self.message_spec(),
    {
        match self {
            AppError::NotFound(m) => String::from_str("Not found: ").concat(m.as_str()),
            AppError::ConnectionFailed(m) => String::from_str("Connection failed: ").concat(
                m.as_str(),
            ),
            AppError::QueryError(m) => String::from_str("Query error: ").concat(m.as_str()),
            AppError::CsvParseError(m) => String::from_str("CSV parse error: ").concat(m.as_str()),
            AppError::ScanError(m) => String::from_str("Scan error: ").concat(m.as_str()),
            AppError::DatabaseError(m) => String::from_str("Database error: ").concat(m.as_str()),
        }
    }
}

} // verus!
