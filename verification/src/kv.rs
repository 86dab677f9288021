//! The key-value backend's logic. This backend has no relational
//! semantics: queries are a fixed command subset (a pattern scan capped at
//! 100 keys, or a single-key lookup), statements support only SET and DEL,
//! and the schema is one synthesized pseudo-table of keys.

use vstd::prelude::*;

use crate::model::{AdapterStats, AppError, ColumnInfo, NormalizedValue, NumberValue, QueryResult, TableMetadata, TableSchema};
use crate::text::{tok_len, trim_spec, upper_spec};
use crate::text::{split_first, str_chars, string_from_chars, trim_chars, upper_chars, chars_eq_str};
use crate::text::{has_prefix, starts_with_str, subrange_chars};

verus! {

/// A parsed key-value query: a pattern scan, a single-key lookup, or an
/// unsupported command (carrying the offending command word).
#[derive(Debug, Clone)]
pub enum KvCommand {
    Scan { pattern: String },
    Get { key: String },
    Unsupported { cmd: String },
}

/// A parsed key-value statement: SET, DEL, or an unsupported command.
#[derive(Debug, Clone)]
pub enum KvStatement {
    Put { key: String, value: String },
    Del { key: String },
    Unsupported { cmd: String },
}

/// The leading command word of a query, upper-cased.
pub open spec fn kv_query_cmd(s: Seq<char>) -> Seq<char> {
    let t = trim_spec(s);
    upper_spec(t.take(tok_len(t, ' ') as int))
}

/// The argument of a query: what follows the first space, trimmed; a lone
/// command word gets the match-all pattern.
pub open spec fn kv_query_arg(s: Seq<char>) -> Seq<char> {
    let t = trim_spec(s);
    if tok_len(t, ' ') < t.len() {
        trim_spec(t.skip(tok_len(t, ' ') + 1 as int))
    } else {
        "*"@
    }
}

/// Parses a query against the key-value backend. A leading KEYS or SCAN
/// scans for the given pattern; SELECT scans for every key; GET looks one
/// key up; any other leading word is unsupported.
pub fn parse_kv_query(sql: &str) -> (r: KvCommand)
    ensures
        ({
            let cmd = kv_query_cmd(sql@);
            let arg = kv_query_arg(sql@);
            if cmd == "KEYS"@ || cmd == "SCAN"@ {
                r matches KvCommand::Scan { pattern } && pattern@ == arg
            } else if cmd == "SELECT"@ {
                r matches KvCommand::Scan { pattern } && pattern@ == "*"@
            } else if cmd == "GET"@ {
                r matches KvCommand::Get { key } && key@ == arg
            } else {
                r matches KvCommand::Unsupported { cmd: c } && c@ == cmd
            }
        }),
{
    let chars = str_chars(sql);
    let t = trim_chars(chars.as_slice());
    let (head, rest) = split_first(t.as_slice(), ' ');
    let cmd = upper_chars(head.as_slice());
    let arg: Vec<char> = match rest {
        Some(r) => trim_chars(r.as_slice()),
        None => str_chars("*"),
    };
    let c = cmd.as_slice();
    if chars_eq_str(c, "KEYS") || chars_eq_str(c, "SCAN") {
        KvCommand::Scan { pattern: string_from_chars(arg.as_slice()) }
    } else if chars_eq_str(c, "SELECT") {
        KvCommand::Scan { pattern: String::from_str("*") }
    } else if chars_eq_str(c, "GET") {
        KvCommand::Get { key: string_from_chars(arg.as_slice()) }
    } else {
        KvCommand::Unsupported { cmd: string_from_chars(cmd.as_slice()) }
    }
}

/// The leading command word of a statement, upper-cased.
pub open spec fn kv_stmt_cmd(s: Seq<char>) -> Seq<char> {
    let t = trim_spec(s);
    upper_spec(t.take(tok_len(t, ' ') as int))
}

/// The second word of a statement (the key), or empty when there is none.
pub open spec fn kv_stmt_key(s: Seq<char>) -> Seq<char> {
    let t = trim_spec(s);
    if tok_len(t, ' ') < t.len() {
        let rest = t.skip(tok_len(t, ' ') + 1 as int);
        rest.take(tok_len(rest, ' ') as int)
    } else {
        Seq::empty()
    }
}

/// Everything after the second space of a statement (the value), or empty.
pub open spec fn kv_stmt_value(s: Seq<char>) -> Seq<char> {
    let t = trim_spec(s);
    if tok_len(t, ' ') < t.len() {
        let rest = t.skip(tok_len(t, ' ') + 1 as int);
        if tok_len(rest, ' ') < rest.len() {
            rest.skip(tok_len(rest, ' ') + 1 as int)
        } else {
            Seq::empty()
        }
    } else {
        Seq::empty()
    }
}

/// Parses a mutating statement against the key-value backend: only SET and
/// DEL (or DELETE) are supported.
pub fn parse_kv_statement(sql: &str) -> (r: KvStatement)
    ensures
        ({
            let cmd = kv_stmt_cmd(sql@);
            if cmd == "SET"@ {
                r matches KvStatement::Put { key, value } && key@ == kv_stmt_key(sql@) && value@
                    == kv_stmt_value(sql@)
            } else if cmd == "DEL"@ || cmd == "DELETE"@ {
                r matches KvStatement::Del { key } && key@ == kv_stmt_key(sql@)
            } else {
                r matches KvStatement::Unsupported { cmd: c } && c@ == cmd
            }
        }),
{
    let chars = str_chars(sql);
    let t = trim_chars(chars.as_slice());
    let (head, rest) = split_first(t.as_slice(), ' ');
    let cmd = upper_chars(head.as_slice());
    let (key, value): (Vec<char>, Vec<char>) = match rest {
        Some(r) => {
            let (k, v) = split_first(r.as_slice(), ' ');
            match v {
                Some(v) => (k, v),
                None => (k, Vec::new()),
            }
        },
        None => (Vec::new(), Vec::new()),
    };
    let c = cmd.as_slice();
    if chars_eq_str(c, "SET") {
        KvStatement::Put {
            key: string_from_chars(key.as_slice()),
            value: string_from_chars(value.as_slice()),
        }
    } else if chars_eq_str(c, "DEL") || chars_eq_str(c, "DELETE") {
        KvStatement::Del { key: string_from_chars(key.as_slice()) }
    } else {
        KvStatement::Unsupported { cmd: string_from_chars(cmd.as_slice()) }
    }
}

/// How many rows a statement reports as affected: SET touches one key; DEL
/// reports the count the store returned.
pub fn kv_statement_effect(stmt: &KvStatement, deleted: u64) -> (r: u64)
    requires
        !(stmt is Unsupported),
    ensures
        stmt is Put ==> r == 1,
        stmt is Del ==> r == deleted,
{
    match stmt {
        KvStatement::Put { .. } => 1,
        _ => deleted,
    }
}

/// The error for a query command outside the supported subset.
pub fn kv_unsupported_query_error(cmd: &str) -> (r: AppError)
    ensures
        r matches AppError::QueryError(m) && m@ == "Unsupported Redis command: "@ + cmd@
            + ". Use KEYS, SCAN, GET, or SELECT."@,
{
    AppError::QueryError(
        String::from_str("Unsupported Redis command: ").concat(cmd).concat(
            ". Use KEYS, SCAN, GET, or SELECT.",
        ),
    )
}

/// The error for a statement command outside the supported subset.
pub fn kv_unsupported_statement_error(cmd: &str) -> (r: AppError)
    ensures
        r matches AppError::QueryError(m) && m@ == "Unsupported Redis write command: "@ + cmd@
            + ". Use SET or DEL."@,
{
    AppError::QueryError(
        String::from_str("Unsupported Redis write command: ").concat(cmd).concat(
            ". Use SET or DEL.",
        ),
    )
}

/// The synthesized schema: exactly one pseudo-table named "keys" with four
/// fixed columns, whose row count is the total key count of the store.
pub fn kv_schema(db_size: u64) -> (r: Vec<TableSchema>)
    ensures
        r@.len() == 1,
        r@[0].name@ == "keys"@,
        r@[0].row_count == db_size,
        r@[0].columns@.len() == 4,
        r@[0].columns@[0].name@ == "key"@ && r@[0].columns@[0].data_type@ == "string"@ && !r@[0]
            .columns@[0].nullable && r@[0].columns@[0].primary_key,
        r@[0].columns@[1].name@ == "value"@ && r@[0].columns@[1].data_type@ == "string"@ && r@[0]
            .columns@[1].nullable && !r@[0].columns@[1].primary_key,
        r@[0].columns@[2].name@ == "type"@ && r@[0].columns@[2].data_type@ == "string"@ && !r@[0]
            .columns@[2].nullable && !r@[0].columns@[2].primary_key,
        r@[0].columns@[3].name@ == "ttl"@ && r@[0].columns@[3].data_type@ == "integer"@ && r@[0]
            .columns@[3].nullable && !r@[0].columns@[3].primary_key,
{
    let mut columns: Vec<ColumnInfo> = Vec::new();
    columns.push(
        ColumnInfo {
            name: String::from_str("key"),
            data_type: String::from_str("string"),
            nullable: false,
            primary_key: true,
        },
    );
    columns.push(
        ColumnInfo {
            name: String::from_str("value"),
            data_type: String::from_str("string"),
            nullable: true,
            primary_key: false,
        },
    );
    columns.push(
        ColumnInfo {
            name: String::from_str("type"),
            data_type: String::from_str("string"),
            nullable: false,
            primary_key: false,
        },
    );
    columns.push(
        ColumnInfo {
            name: String::from_str("ttl"),
            data_type: String::from_str("integer"),
            nullable: true,
            primary_key: false,
        },
    );
    let mut r: Vec<TableSchema> = Vec::new();
    r.push(TableSchema { name: String::from_str("keys"), columns, row_count: db_size });
    r
}

/// A one-table schema is in table-name order, so the key-value backend
/// meets the same ordering guarantee as the relational ones.
pub proof fn lemma_kv_schema_sorted(s: Seq<TableSchema>)
    requires
        s.len() <= 1,
    ensures
        crate::schema::tables_sorted(s),
{
}

/// Table metadata for the key-value backend: the one pseudo-table, with no
/// indexes and no foreign keys, whatever table name was asked for.
pub fn kv_table_metadata(db_size: u64) -> (r: TableMetadata)
    ensures
        r.schema.name@ == "keys"@,
        r.schema.row_count == db_size,
        r.schema.columns@.len() == 4,
        r.indexes@.len() == 0,
        r.foreign_keys@.len() == 0,
{
    let mut schema = kv_schema(db_size);
    let first = schema.remove(0);
    TableMetadata { schema: first, indexes: Vec::new(), foreign_keys: Vec::new() }
}

/// Statistics for the key-value backend: one pseudo-table, the key count as
/// the row count, and the store's reported memory use as the disk figure.
pub fn kv_stats(db_size: u64, memory_bytes: u64) -> (r: AdapterStats)
    ensures
        r.table_count == 1,
        r.total_row_count == db_size,
        r.disk_usage_bytes == memory_bytes,
{
    AdapterStats { table_count: 1, total_row_count: db_size, disk_usage_bytes: memory_bytes }
}

/// The store URL for the given parameters: the password is included only
/// when one is set.
pub open spec fn kv_url_spec(p: crate::model::ConnectParams) -> Seq<char> {
    if p.password@.len() == 0 {
        "redis://"@ + p.host@ + ":"@ + crate::text::dec_rep(p.port as nat)
    } else {
        "redis://:"@ + p.password@ + "@"@ + p.host@ + ":"@ + crate::text::dec_rep(p.port as nat)
    }
}

/// Assembles the store URL.
pub fn kv_url(p: &crate::model::ConnectParams) -> (r: String)
    ensures
        r@ == kv_url_spec(*p),
{
    let port = crate::text::u64_to_string(p.port as u64);
    let mut r: String;
    if p.password.as_str().is_empty() {
        r = String::from_str("redis://");
    } else {
        r = String::from_str("redis://:");
        r.append(p.password.as_str());
        r.append("@");
    }
    r.append(p.host.as_str());
    r.append(":");
    r.append(port.as_str());
    proof {
        assert(r@ =~= kv_url_spec(*p));
    }
    r
}

/// What probing a key's value yielded: the stored text for a string key,
/// the element count for a collection, or nothing when the probe failed.
#[derive(Debug, Clone)]
pub enum KvContent {
    Value(String),
    Size(i64),
    Missing,
}

/// One scanned key, as the probes report it: its native type name, its
/// probed content, and its time-to-live (negative when none is set).
#[derive(Debug, Clone)]
pub struct KvKeyInfo {
    pub key: String,
    pub kind_name: String,
    pub content: KvContent,
    pub ttl: i64,
}

/// The element count a probe reported, or zero.
pub open spec fn kv_content_size(content: KvContent) -> int {
    match content {
        KvContent::Size(n) => n as int,
        _ => 0,
    }
}

/// The human-readable value summary of a scanned key: a string key shows
/// its content; a collection shows a count placeholder; any other type
/// shows its type name.
pub open spec fn kv_value_summary(kind_name: Seq<char>, content: KvContent) -> Seq<char> {
    if kind_name == "string"@ {
        match content {
            KvContent::Value(s) => s@,
            _ => "<error>"@,
        }
    } else if kind_name == "list"@ {
        "<list: "@ + crate::text::dec_rep_i(kv_content_size(content)) + " items>"@
    } else if kind_name == "set"@ {
        "<set: "@ + crate::text::dec_rep_i(kv_content_size(content)) + " members>"@
    } else if kind_name == "hash"@ {
        "<hash: "@ + crate::text::dec_rep_i(kv_content_size(content)) + " fields>"@
    } else {
        "<"@ + kind_name + ">"@
    }
}

fn size_summary(prefix: &str, content: &KvContent, suffix: &str) -> (r: String)
    ensures
        r@ == prefix@ + crate::text::dec_rep_i(kv_content_size(*content)) + suffix@,
{
    let n: i64 = match content {
        KvContent::Size(n) => *n,
        _ => 0,
    };
    let count = crate::text::i64_to_string(n);
    String::from_str(prefix).concat(count.as_str()).concat(suffix)
}

/// Renders the value summary of one scanned key.
pub fn kv_value_summary_text(kind_name: &str, content: &KvContent) -> (r: String)
    ensures
        r@ == kv_value_summary(kind_name@, *content),
{
    let chars = str_chars(kind_name);
    let t = chars.as_slice();
    if chars_eq_str(t, "string") {
        match content {
            KvContent::Value(s) => s.clone(),
            _ => String::from_str("<error>"),
        }
    } else if chars_eq_str(t, "list") {
        size_summary("<list: ", content, " items>")
    } else if chars_eq_str(t, "set") {
        size_summary("<set: ", content, " members>")
    } else if chars_eq_str(t, "hash") {
        size_summary("<hash: ", content, " fields>")
    } else {
        String::from_str("<").concat(kind_name).concat(">")
    }
}

/// How one scanned key appears as a result row: its name, its value
/// summary, its type name, and its time-to-live (null when negative).
pub open spec fn kv_key_row_matches(info: KvKeyInfo, row: Seq<NormalizedValue>) -> bool {
    &&& row.len() == 4
    &&& row[0] matches NormalizedValue::Text(k) && k@ == info.key@
    &&& row[1] matches NormalizedValue::Text(v) && v@ == kv_value_summary(
        info.kind_name@,
        info.content,
    )
    &&& row[2] matches NormalizedValue::Text(t) && t@ == info.kind_name@
    &&& if info.ttl >= 0 {
        row[3] == NormalizedValue::Number(NumberValue::Int(info.ttl))
    } else {
        row[3] is Null
    }
}

fn kv_key_row(info: &KvKeyInfo) -> (row: Vec<NormalizedValue>)
    ensures
        kv_key_row_matches(*info, row@),
{
    let mut row: Vec<NormalizedValue> = Vec::new();
    row.push(NormalizedValue::Text(info.key.clone()));
    row.push(NormalizedValue::Text(kv_value_summary_text(info.kind_name.as_str(), &info.content)));
    row.push(NormalizedValue::Text(info.kind_name.clone()));
    if info.ttl >= 0 {
        row.push(NormalizedValue::Number(NumberValue::Int(info.ttl)));
    } else {
        row.push(NormalizedValue::Null);
    }
    row
}

/// How many keys a pattern scan reports at most.
pub const KV_SCAN_CAP: usize = 100;

/// The keys a scan goes on to probe: the first hundred matches, in order.
pub fn kv_scan_keys(keys: Vec<String>) -> (r: Vec<String>)
    ensures
        r@.len() <= KV_SCAN_CAP,
        r@ == keys@.take(
            if keys@.len() < KV_SCAN_CAP {
                keys@.len() as int
            } else {
                KV_SCAN_CAP as int
            },
        ),
{
    let ghost orig = keys@;
    let mut keys = keys;
    keys.truncate(KV_SCAN_CAP);
    proof {
        assert(keys@ =~= orig.take(
            if orig.len() < KV_SCAN_CAP {
                orig.len() as int
            } else {
                KV_SCAN_CAP as int
            },
        ));
    }
    keys
}

/// Assembles the result of a pattern scan: the four fixed columns, one row
/// per probed key.
pub fn kv_scan_result(infos: &Vec<KvKeyInfo>, elapsed_ms: u64) -> (r: QueryResult)
    ensures
        r.wf(),
        r.columns@.len() == 4,
        r.columns@[0]@ == "key"@,
        r.columns@[1]@ == "value"@,
        r.columns@[2]@ == "type"@,
        r.columns@[3]@ == "ttl"@,
        r.row_count == infos@.len(),
        r.execution_time_ms == elapsed_ms,
        forall|i: int|
            0 <= i < infos@.len() ==> kv_key_row_matches(infos@[i], (#[trigger] r.rows@[i])@),
{
    let mut columns: Vec<String> = Vec::new();
    columns.push(String::from_str("key"));
    columns.push(String::from_str("value"));
    columns.push(String::from_str("type"));
    columns.push(String::from_str("ttl"));
    let n = infos.len();
    let mut rows: Vec<Vec<NormalizedValue>> = Vec::new();
    let mut i: usize = 0;
    while i < n
        invariant
            n == infos@.len(),
            i <= n,
            rows@.len() == i,
            forall|k: int| 0 <= k < i ==> kv_key_row_matches(infos@[k], (#[trigger] rows@[k])@),
        decreases n - i,
    {
        rows.push(kv_key_row(&infos[i]));
        i = i + 1;
    }
    QueryResult { columns, rows, row_count: n, execution_time_ms: elapsed_ms }
}

/// A scan over the capped key list yields at most the cap's worth of rows,
/// however many keys matched the pattern.
pub proof fn lemma_scan_row_cap(
    keys: Seq<String>,
    capped: Seq<String>,
    infos: Seq<KvKeyInfo>,
    r: QueryResult,
)
    requires
        capped == keys.take(
            if keys.len() < KV_SCAN_CAP {
                keys.len() as int
            } else {
                KV_SCAN_CAP as int
            },
        ),
        infos.len() == capped.len(),
        r.row_count == infos.len(),
    ensures
        r.row_count <= KV_SCAN_CAP,
{
}

/// Assembles the result of a single-key lookup: one row holding the key and
/// its value, null when the key is absent.
pub fn kv_get_result(key: &str, value: Option<String>, elapsed_ms: u64) -> (r: QueryResult)
    ensures
        r.wf(),
        r.columns@.len() == 2,
        r.columns@[0]@ == "key"@,
        r.columns@[1]@ == "value"@,
        r.row_count == 1,
        r.rows@.len() == 1,
        r.rows@[0]@.len() == 2,
        r.rows@[0]@[0] matches NormalizedValue::Text(k) && k@ == key@,
        match value {
            Some(s) => r.rows@[0]@[1] == NormalizedValue::Text(s),
            None => r.rows@[0]@[1] is Null,
        },
        r.execution_time_ms == elapsed_ms,
{
    let mut columns: Vec<String> = Vec::new();
    columns.push(String::from_str("key"));
    columns.push(String::from_str("value"));
    let mut row: Vec<NormalizedValue> = Vec::new();
    row.push(NormalizedValue::Text(String::from_str(key)));
    match value {
        Some(s) => row.push(NormalizedValue::Text(s)),
        None => row.push(NormalizedValue::Null),
    }
    let mut rows: Vec<Vec<NormalizedValue>> = Vec::new();
    rows.push(row);
    QueryResult { columns, rows, row_count: 1, execution_time_ms: elapsed_ms }
}

/// One line of a command's info text, its trailing carriage return removed.
pub open spec fn strip_cr(l: Seq<char>) -> Seq<char> {
    if l.len() > 0 && l.last() == '\r' {
        l.drop_last()
    } else {
        l
    }
}

/// The lines of a text: split at newlines, carriage returns stripped.
pub open spec fn lines_spec(s: Seq<char>) -> Seq<Seq<char>>
    decreases s.len(),
{
    let k = tok_len(s, '\n');
    if k >= s.len() {
        seq![strip_cr(s)]
    } else {
        seq![strip_cr(s.take(k as int))] + lines_spec(s.skip(k + 1 as int))
    }
}

/// The number read off a "used_memory:" line: what stands between the first
/// and second colon, trimmed; zero when that is no number.
pub open spec fn used_memory_line_value(l: Seq<char>) -> u64 {
    let rest = l.skip(12);
    let seg = rest.take(tok_len(rest, ':') as int);
    match crate::text::parse_u64_spec(trim_spec(seg)) {
        Some(v) => v,
        None => 0,
    }
}

/// The value of the first "used_memory" line, or zero when none is found.
pub open spec fn find_used_memory(ls: Seq<Seq<char>>) -> u64
    decreases ls.len(),
{
    if ls.len() == 0 {
        0
    } else if has_prefix(ls[0], "used_memory:"@) {
        used_memory_line_value(ls[0])
    } else {
        find_used_memory(ls.drop_first())
    }
}

/// The memory figure in a store's info text.
pub open spec fn used_memory_of(s: Seq<char>) -> u64 {
    find_used_memory(lines_spec(s))
}

/// Reads the used-memory figure out of the store's info text: the first
/// line starting "used_memory:" gives the value; anything else gives zero.
pub fn parse_used_memory(info: &str) -> (r: u64)
    ensures
        r == used_memory_of(info@),
{
    let mut rem: Vec<char> = str_chars(info);
    loop
        invariant
            used_memory_of(info@) == find_used_memory(lines_spec(rem@)),
        decreases rem@.len(),
    {
        let ghost pre = rem@;
        let (mut line, rest) = split_first(rem.as_slice(), '\n');
        let ghost k = tok_len(pre, '\n');
        if line.len() > 0 && line[line.len() - 1] == '\r' {
            line.pop();
        }
        proof {
            if k >= pre.len() {
                assert(pre.take(k as int) =~= pre);
                assert(lines_spec(pre) == seq![strip_cr(pre)]);
            }
            assert(line@ == strip_cr(pre.take(k as int)));
            assert(lines_spec(pre)[0] == line@);
        }
        if starts_with_str(line.as_slice(), "used_memory:") {
            proof {
                reveal_strlit("used_memory:");
                assert(line@.len() >= 12);
            }
            let after = subrange_chars(line.as_slice(), 12, line.len());
            proof {
                assert(after@ =~= line@.skip(12));
            }
            let (seg, _) = split_first(after.as_slice(), ':');
            let seg_t = trim_chars(seg.as_slice());
            let parsed = crate::text::parse_u64_chars(seg_t.as_slice());
            return match parsed {
                Some(v) => v,
                None => 0,
            };
        }
        match rest {
            Some(r2) => {
                proof {
                    assert(lines_spec(pre) == seq![line@] + lines_spec(pre.skip(k + 1 as int)));
                    assert((seq![line@] + lines_spec(pre.skip(k + 1 as int))).drop_first()
                        =~= lines_spec(pre.skip(k + 1 as int)));
                    assert(find_used_memory(lines_spec(pre)) == find_used_memory(
                        lines_spec(pre.skip(k + 1 as int)),
                    ));
                }
                rem = r2;
            },
            None => {
                proof {
                    assert(lines_spec(pre) == seq![line@]);
                    assert(lines_spec(pre).drop_first() =~= Seq::<Seq<char>>::empty());
                    assert(find_used_memory(lines_spec(pre)) == find_used_memory(
                        lines_spec(pre).drop_first(),
                    ));
                    assert(find_used_memory(Seq::<Seq<char>>::empty()) == 0);
                }
                return 0;
            },
        }
    }
}

} // verus!
