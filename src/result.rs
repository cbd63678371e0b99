use vstd::prelude::*;
use crate::statement::{get_statement_type, leading_upper, statement_type_of, StatementType};
use crate::text::{decimal_of, push_decimal, push_text, string_of, text_eq, to_lower, lower_of};

verus! {

/// Column definition in a query result.
///
/// `from_catalog` tells whether nullability, key status and default come from
/// catalog metadata. A column known only from a result set carries best-effort
/// values there, and says so.
#[derive(Debug, Clone)]
pub struct ColumnDefinition {
    pub name: String,
    pub data_type: String,
    pub nullable: bool,
    pub primary_key: bool,
    pub default_value: Option<String>,
    pub from_catalog: bool,
}

impl ColumnDefinition {
    /// A column described by a result set only: key status and default are
    /// unknown and reported as `false` and `None`.
    pub fn from_result_set(name: String, data_type: String, nullable: bool) -> (r: Self)
        ensures
            r.name == name,
            r.data_type == data_type,
            r.nullable == nullable,
            !r.primary_key,
            r.default_value is None,
            !r.from_catalog,
    {
        ColumnDefinition {
            name,
            data_type,
            nullable,
            primary_key: false,
            default_value: None,
            from_catalog: false,
        }
    }
}

/// A typed cell value. A float arrives as its decimal text; a blob only by
/// its length.
#[derive(Debug, Clone)]
pub enum CellValue {
    Null,
    Integer(i64),
    Number(String),
    Boolean(bool),
    Text(String),
    Json(String),
    Binary(u64),
}

/// A result row: values keyed by column name. A later value for a name
/// replaces an earlier one, so equal column names collide.
#[derive(Debug, Clone)]
pub struct Row {
    pub values: Vec<(String, CellValue)>,
}

/// The map that a list of (name, value) entries denotes, later entries winning.
pub open spec fn entries_map(s: Seq<(String, CellValue)>) -> Map<Seq<char>, CellValue>
    decreases s.len(),
{
    if s.len() == 0 {
        Map::empty()
    } else {
        entries_map(s.drop_last()).insert(s.last().0@, s.last().1)
    }
}

impl View for Row {
    type V = Map<Seq<char>, CellValue>;

    open spec fn view(&self) -> Map<Seq<char>, CellValue> {
        entries_map(self.values@)
    }
}

/// The row that pairs each column's name with the cell at its position.
pub open spec fn row_of(columns: Seq<ColumnDefinition>, cells: Seq<CellValue>) -> Map<Seq<char>, CellValue>
    decreases columns.len(),
{
    if columns.len() == 0 || cells.len() == 0 {
        Map::empty()
    } else {
        row_of(columns.drop_last(), cells.drop_last()).insert(columns.last().name@, cells.last())
    }
}

impl Row {
    pub fn new() -> (r: Row)
        ensures
            r@ == Map::<Seq<char>, CellValue>::empty(),
    {
        Row { values: Vec::new() }
    }

    /// Sets the value for a column name, replacing any earlier one.
    pub fn insert(&mut self, name: String, value: CellValue)
        ensures
            final(self)@ == old(self)@.insert(name@, value),
    {
        self.values.push((name, value));
        assert(self.values@.drop_last() =~= old(self).values@);
    }

    /// The value for a column name.
    pub fn get(&self, name: &str) -> (r: Option<&CellValue>)
        ensures
            match r {
                Some(v) => self@.contains_key(name@) && self@[name@] == *v,
                None => !self@.contains_key(name@),
            },
    {
        let mut i = self.values.len();
        while i > 0
            invariant
                i <= self.values@.len(),
                forall|j: int| i <= j < self.values@.len() ==> #[trigger] self.values@[j].0@ != name@,
            decreases i,
        {
            if text_eq(self.values[i - 1].0.as_str(), name) {
                proof {
                    let s = self.values@;
                    lemma_entries_split(s, i as int);
                    lemma_entries_dom(s.skip(i as int), name@);
                    assert(s.take(i as int).drop_last() =~= s.take(i - 1));
                    if entries_map(s.skip(i as int)).contains_key(name@) {
                        let j = choose|j: int| 0 <= j < s.skip(i as int).len() && #[trigger] s.skip(i as int)[j].0@ == name@;
                        assert(s[i + j].0@ == name@);
                    }
                }
                return Some(&self.values[i - 1].1);
            }
            i = i - 1;
        }
        proof {
            lemma_entries_dom(self.values@, name@);
            if self@.contains_key(name@) {
                let j = choose|j: int| 0 <= j < self.values@.len() && #[trigger] self.values@[j].0@ == name@;
                assert(self.values@[j].0@ == name@);
            }
        }
        None
    }
}

/// A name is in the map of a list of entries exactly when some entry has it.
pub proof fn lemma_entries_dom(s: Seq<(String, CellValue)>, key: Seq<char>)
    ensures
        entries_map(s).contains_key(key) <==> exists|j: int| 0 <= j < s.len() && #[trigger] s[j].0@ == key,
    decreases s.len(),
{
    if s.len() > 0 {
        lemma_entries_dom(s.drop_last(), key);
        if entries_map(s.drop_last()).contains_key(key) {
            let j = choose|j: int| 0 <= j < s.drop_last().len() && #[trigger] s.drop_last()[j].0@ == key;
            assert(s[j].0@ == key);
        }
        if exists|j: int| 0 <= j < s.len() && #[trigger] s[j].0@ == key {
            let j = choose|j: int| 0 <= j < s.len() && #[trigger] s[j].0@ == key;
            if j < s.len() - 1 {
                assert(s.drop_last()[j].0@ == key);
            }
        }
    }
}

/// Splitting a list of entries at `k` splits its map: the later part wins.
pub proof fn lemma_entries_split(s: Seq<(String, CellValue)>, k: int)
    requires
        0 <= k <= s.len(),
    ensures
        entries_map(s) == entries_map(s.take(k)).union_prefer_right(entries_map(s.skip(k))),
    decreases s.len(),
{
    if k == s.len() {
        assert(s.take(k) =~= s);
        assert(s.skip(k) =~= Seq::<(String, CellValue)>::empty());
        assert(entries_map(s) =~= entries_map(s.take(k)).union_prefer_right(Map::empty()));
    } else {
        lemma_entries_split(s.drop_last(), k);
        assert(s.drop_last().take(k) =~= s.take(k));
        assert(s.skip(k).drop_last() =~= s.drop_last().skip(k));
        assert(s.skip(k).last() == s.last());
        assert(entries_map(s) =~= entries_map(s.take(k)).union_prefer_right(entries_map(s.skip(k))));
    }
}

/// Builds a row from column definitions and the cells at the same positions.
pub fn build_row(columns: &[ColumnDefinition], cells: Vec<CellValue>) -> (r: Row)
    requires
        columns@.len() == cells@.len(),
    ensures
        r@ == row_of(columns@, cells@),
{
    let mut row = Row::new();
    let mut rest = cells;
    let mut i: usize = 0;
    while i < columns.len()
        invariant
            columns@.len() == cells@.len(),
            i <= columns@.len(),
            rest@ == cells@.skip(i as int),
            row@ == row_of(columns@.take(i as int), cells@.take(i as int)),
        decreases columns@.len() - i,
    {
        assert(columns@.take(i + 1).drop_last() =~= columns@.take(i as int));
        assert(cells@.take(i + 1).drop_last() =~= cells@.take(i as int));
        let cell = rest.remove(0);
        assert(rest@ =~= cells@.skip(i + 1));
        row.insert(columns[i].name.clone(), cell);
        i = i + 1;
    }
    assert(columns@.take(columns@.len() as int) =~= columns@);
    assert(cells@.take(cells@.len() as int) =~= cells@);
    row
}

} // verus!

verus! {

/// Database query result.
#[derive(Debug)]
pub struct QueryResult {
    /// Execution timestamp, in seconds since the Unix epoch
    pub timestamp: u64,
    /// Query that was executed
    pub query: String,
    /// Rows affected, for statements that do not return rows
    pub rows_affected: Option<u64>,
    /// Execution time in milliseconds
    pub execution_time_ms: u64,
    /// Column definitions
    pub columns: Vec<ColumnDefinition>,
    /// Result rows
    pub rows: Vec<Row>,
    /// Any warning messages
    pub warnings: Vec<String>,
    /// Position of the statement within a batch
    pub result_index: usize,
}

/// Relies on `SystemTime::now` and `duration_since(UNIX_EPOCH)`: the clock's
/// reading in whole seconds, or zero for a clock set before the epoch.
#[verifier::external_body]
fn now_secs() -> (r: u64) {
    std::time::SystemTime::now().duration_since(std::time::UNIX_EPOCH).unwrap_or_default().as_secs()
}

/// Builds a query result stamped with the current time and no warnings.
pub fn create_query_result(
    query: String,
    columns: Vec<ColumnDefinition>,
    rows: Vec<Row>,
    rows_affected: Option<u64>,
    execution_time_ms: u64,
    result_index: usize,
) -> (r: QueryResult)
    ensures
        r.query == query,
        r.columns == columns,
        r.rows == rows,
        r.rows_affected == rows_affected,
        r.execution_time_ms == execution_time_ms,
        r.result_index == result_index,
        r.warnings@.len() == 0,
{
    QueryResult {
        timestamp: now_secs(),
        query,
        rows_affected,
        execution_time_ms,
        columns,
        rows,
        warnings: Vec::new(),
        result_index,
    }
}

/// How a single statement is run against the backend.
#[derive(Debug, Clone, Copy, PartialEq, Eq, Structural)]
pub enum ExecutionPlan {
    /// Fetch the rows the statement returns
    FetchRows,
    /// Execute and report the affected-row count
    Execute,
}

/// The plan for a statement: rows are fetched exactly for a `SELECT`-class
/// statement, told by its leading keyword without regard to case.
pub fn plan_query(sql: &str) -> (r: ExecutionPlan)
    ensures
        (r == ExecutionPlan::FetchRows) == (statement_type_of(leading_upper(sql@))
            == StatementType::Select),
{
    if get_statement_type(sql).returns_rows() {
        ExecutionPlan::FetchRows
    } else {
        ExecutionPlan::Execute
    }
}

/// The result of a row-returning statement: its columns and rows, and no
/// affected-row count, even when no row matched.
pub fn rows_result(query: String, columns: Vec<ColumnDefinition>, rows: Vec<Row>, execution_time_ms: u64) -> (r: QueryResult)
    ensures
        r.query == query,
        r.columns == columns,
        r.rows == rows,
        r.rows_affected is None,
        r.execution_time_ms == execution_time_ms,
        r.result_index == 0,
        r.warnings@.len() == 0,
{
    create_query_result(query, columns, rows, None, execution_time_ms, 0)
}

/// The result of a statement that returns no rows: no columns, no rows, and
/// the count of affected rows the driver reported.
pub fn affected_result(query: String, rows_affected: u64, execution_time_ms: u64) -> (r: QueryResult)
    ensures
        r.query == query,
        r.columns@.len() == 0,
        r.rows@.len() == 0,
        r.rows_affected == Some(rows_affected),
        r.execution_time_ms == execution_time_ms,
        r.result_index == 0,
        r.warnings@.len() == 0,
{
    create_query_result(query, Vec::new(), Vec::new(), Some(rows_affected), execution_time_ms, 0)
}

/// How a cell of a given backend type is read.
#[derive(Debug, Clone, Copy, PartialEq, Eq, Structural)]
pub enum ValueKind {
    Integer,
    Float,
    Boolean,
    Text,
    Timestamp,
    Json,
    Uuid,
    Binary,
    /// Unrecognised type: read as text if possible, else null
    Fallback,
}

/// The read for a lower-cased backend type name.
pub open spec fn value_kind_of(t: Seq<char>) -> ValueKind {
    if t == "int"@ || t == "integer"@ || t == "int2"@ || t == "int4"@ || t == "int8"@
        || t == "smallint"@ || t == "bigint"@ {
        ValueKind::Integer
    } else if t == "float"@ || t == "double"@ || t == "real"@ || t == "float4"@ || t == "float8"@ {
        ValueKind::Float
    } else if t == "bool"@ || t == "boolean"@ {
        ValueKind::Boolean
    } else if t == "char"@ || t == "varchar"@ || t == "text"@ || t == "name"@ || t == "citext"@ {
        ValueKind::Text
    } else if t == "timestamp"@ || t == "timestamptz"@ || t == "date"@ || t == "time"@
        || t == "timetz"@ {
        ValueKind::Timestamp
    } else if t == "json"@ || t == "jsonb"@ {
        ValueKind::Json
    } else if t == "uuid"@ {
        ValueKind::Uuid
    } else if t == "bytea"@ || t == "blob"@ || t == "binary"@ {
        ValueKind::Binary
    } else {
        ValueKind::Fallback
    }
}

/// The read for a backend type name that is already lower-cased.
pub fn value_kind_for_lowercase(t: &str) -> (r: ValueKind)
    ensures
        r == value_kind_of(t@),
{
    if text_eq(t, "int") || text_eq(t, "integer") || text_eq(t, "int2") || text_eq(t, "int4")
        || text_eq(t, "int8") || text_eq(t, "smallint") || text_eq(t, "bigint") {
        ValueKind::Integer
    } else if text_eq(t, "float") || text_eq(t, "double") || text_eq(t, "real") || text_eq(t, "float4")
        || text_eq(t, "float8") {
        ValueKind::Float
    } else if text_eq(t, "bool") || text_eq(t, "boolean") {
        ValueKind::Boolean
    } else if text_eq(t, "char") || text_eq(t, "varchar") || text_eq(t, "text") || text_eq(t, "name")
        || text_eq(t, "citext") {
        ValueKind::Text
    } else if text_eq(t, "timestamp") || text_eq(t, "timestamptz") || text_eq(t, "date")
        || text_eq(t, "time") || text_eq(t, "timetz") {
        ValueKind::Timestamp
    } else if text_eq(t, "json") || text_eq(t, "jsonb") {
        ValueKind::Json
    } else if text_eq(t, "uuid") {
        ValueKind::Uuid
    } else if text_eq(t, "bytea") || text_eq(t, "blob") || text_eq(t, "binary") {
        ValueKind::Binary
    } else {
        ValueKind::Fallback
    }
}

/// The read for a backend type name, compared without regard to case.
pub fn value_kind(data_type: &str) -> (r: ValueKind)
    ensures
        r == value_kind_of(lower_of(data_type@)),
{
    let lower = to_lower(data_type);
    value_kind_for_lowercase(lower.as_str())
}

/// The text shown for a blob of `n` bytes.
pub open spec fn binary_marker(n: nat) -> Seq<char> {
    "<binary data: "@ + decimal_of(n) + " bytes>"@
}

impl CellValue {
    /// The text shown for this value: `NULL` for null, the number or text
    /// itself, `true`/`false`, and a marker with the byte count for a blob.
    pub fn display_text(&self) -> (r: String)
        ensures
            r@ == match self {
                CellValue::Null => "NULL"@,
                CellValue::Integer(n) => if *n < 0 { seq!['-'] + decimal_of((-*n) as nat) } else { decimal_of(*n as nat) },
                CellValue::Number(t) => t@,
                CellValue::Boolean(b) => if *b { "true"@ } else { "false"@ },
                CellValue::Text(t) => t@,
                CellValue::Json(t) => t@,
                CellValue::Binary(n) => binary_marker(*n as nat),
            },
    {
        let mut out: Vec<char> = Vec::new();
        match self {
            CellValue::Null => push_text(&mut out, "NULL"),
            CellValue::Integer(n) => {
                if *n < 0 {
                    out.push('-');
                    let m: u64 = if *n == i64::MIN { 9223372036854775808u64 } else { (-*n) as u64 };
                    push_decimal(m, &mut out);
                } else {
                    push_decimal(*n as u64, &mut out);
                }
            },
            CellValue::Number(t) => push_text(&mut out, t.as_str()),
            CellValue::Boolean(b) => {
                if *b {
                    push_text(&mut out, "true")
                } else {
                    push_text(&mut out, "false")
                }
            },
            CellValue::Text(t) => push_text(&mut out, t.as_str()),
            CellValue::Json(t) => push_text(&mut out, t.as_str()),
            CellValue::Binary(n) => {
                push_text(&mut out, "<binary data: ");
                push_decimal(*n, &mut out);
                push_text(&mut out, " bytes>");
            },
        }
        proof {
            if let CellValue::Integer(n) = self {
                if *n < 0 {
                    assert(out@ =~= seq!['-'] + decimal_of((-*n) as nat));
                }
            }
        }
        string_of(out.as_slice())
    }
}

} // verus!
