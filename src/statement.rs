use vstd::prelude::*;
use crate::text::{chars_of, string_of, skip_spaces};

verus! {

/// SQL statement types, told apart by the leading keyword.
#[derive(Debug, Clone, Copy, PartialEq, Eq, Structural)]
pub enum StatementType {
    Select,
    Insert,
    Update,
    Delete,
    CreateTable,
    AlterTable,
    DropTable,
    CreateView,
    CreateFunction,
    BeginTransaction,
    CommitTransaction,
    RollbackTransaction,
    Other,
}

/// Upper-case form of a text, as `str::to_uppercase` gives it.
pub uninterp spec fn upper_of(s: Seq<char>) -> Seq<char>;

/// Relies on `str::to_uppercase`: the Unicode upper-case mapping of the text,
/// which depends on its characters alone.
#[verifier::external_body]
fn to_upper(s: &str) -> (r: String)
    ensures
        r@ == upper_of(s@),
{
    s.to_uppercase()
}

pub open spec fn starts_with(s: Seq<char>, p: Seq<char>) -> bool {
    p.len() <= s.len() && s.take(p.len() as int) == p
}

/// The statement type of an upper-cased statement text.
pub open spec fn statement_type_of(u: Seq<char>) -> StatementType {
    if starts_with(u, "SELECT"@) {
        StatementType::Select
    } else if starts_with(u, "INSERT"@) {
        StatementType::Insert
    } else if starts_with(u, "UPDATE"@) {
        StatementType::Update
    } else if starts_with(u, "DELETE"@) {
        StatementType::Delete
    } else if starts_with(u, "CREATE TABLE"@) {
        StatementType::CreateTable
    } else if starts_with(u, "ALTER TABLE"@) {
        StatementType::AlterTable
    } else if starts_with(u, "DROP TABLE"@) {
        StatementType::DropTable
    } else if starts_with(u, "CREATE VIEW"@) {
        StatementType::CreateView
    } else if starts_with(u, "CREATE FUNCTION"@) || starts_with(u, "CREATE PROCEDURE"@) {
        StatementType::CreateFunction
    } else if starts_with(u, "BEGIN"@) || starts_with(u, "START TRANSACTION"@) {
        StatementType::BeginTransaction
    } else if starts_with(u, "COMMIT"@) {
        StatementType::CommitTransaction
    } else if starts_with(u, "ROLLBACK"@) {
        StatementType::RollbackTransaction
    } else {
        StatementType::Other
    }
}

/// Whether `s` starts with the characters of `p`.
pub fn has_prefix(s: &[char], p: &str) -> (r: bool)
    ensures
        r == starts_with(s@, p@),
{
    let pc = chars_of(p);
    if pc.len() > s.len() {
        return false;
    }
    let mut i: usize = 0;
    while i < pc.len()
        invariant
            pc@ == p@,
            pc@.len() <= s@.len(),
            i <= pc@.len(),
            s@.take(i as int) == pc@.take(i as int),
        decreases pc@.len() - i,
    {
        if s[i] != pc[i] {
            assert(s@.take(pc@.len() as int)[i as int] != pc@[i as int]);
            return false;
        }
        assert(s@.take(i + 1) =~= s@.take(i as int).push(s@[i as int]));
        assert(pc@.take(i + 1) =~= pc@.take(i as int).push(pc@[i as int]));
        i = i + 1;
    }
    assert(pc@.take(pc@.len() as int) =~= pc@);
    true
}

/// The statement type of a statement text that is already upper-cased.
pub fn classify_uppercase(u: &str) -> (r: StatementType)
    ensures
        r == statement_type_of(u@),
{
    let s = chars_of(u);
    let s = s.as_slice();
    if has_prefix(s, "SELECT") {
        StatementType::Select
    } else if has_prefix(s, "INSERT") {
        StatementType::Insert
    } else if has_prefix(s, "UPDATE") {
        StatementType::Update
    } else if has_prefix(s, "DELETE") {
        StatementType::Delete
    } else if has_prefix(s, "CREATE TABLE") {
        StatementType::CreateTable
    } else if has_prefix(s, "ALTER TABLE") {
        StatementType::AlterTable
    } else if has_prefix(s, "DROP TABLE") {
        StatementType::DropTable
    } else if has_prefix(s, "CREATE VIEW") {
        StatementType::CreateView
    } else if has_prefix(s, "CREATE FUNCTION") || has_prefix(s, "CREATE PROCEDURE") {
        StatementType::CreateFunction
    } else if has_prefix(s, "BEGIN") || has_prefix(s, "START TRANSACTION") {
        StatementType::BeginTransaction
    } else if has_prefix(s, "COMMIT") {
        StatementType::CommitTransaction
    } else if has_prefix(s, "ROLLBACK") {
        StatementType::RollbackTransaction
    } else {
        StatementType::Other
    }
}

/// The statement text without leading white space, upper-cased.
pub open spec fn leading_upper(sql: Seq<char>) -> Seq<char> {
    upper_of(crate::text::trim_start(sql))
}

/// Detects the type of a SQL statement from its leading keyword, compared
/// without regard to case.
pub fn get_statement_type(sql: &str) -> (r: StatementType)
    ensures
        r == statement_type_of(leading_upper(sql@)),
{
    let cs = chars_of(sql);
    assert(cs@.subrange(0, cs@.len() as int) =~= cs@);
    let lo = skip_spaces(cs.as_slice(), 0);
    let rest = crate::text::copy_range(cs.as_slice(), lo, cs.len());
    let upper = to_upper(string_of(rest.as_slice()).as_str());
    classify_uppercase(upper.as_str())
}

impl StatementType {
    /// Whether this statement is expected to return rows.
    pub fn returns_rows(&self) -> (r: bool)
        ensures
            r == (*self == StatementType::Select),
    {
        matches!(self, StatementType::Select)
    }

    /// Whether this statement is a DML statement.
    pub fn is_dml(&self) -> (r: bool)
        ensures
            r == (*self == StatementType::Insert || *self == StatementType::Update || *self
                == StatementType::Delete),
    {
        matches!(self, StatementType::Insert | StatementType::Update | StatementType::Delete)
    }

    /// Whether this statement is a DDL statement.
    pub fn is_ddl(&self) -> (r: bool)
        ensures
            r == (*self == StatementType::CreateTable || *self == StatementType::AlterTable
                || *self == StatementType::DropTable || *self == StatementType::CreateView
                || *self == StatementType::CreateFunction),
    {
        matches!(
            self,
            StatementType::CreateTable | StatementType::AlterTable | StatementType::DropTable
                | StatementType::CreateView | StatementType::CreateFunction
        )
    }

    /// Whether this statement is a transaction control statement.
    pub fn is_transaction_control(&self) -> (r: bool)
        ensures
            r == (*self == StatementType::BeginTransaction || *self
                == StatementType::CommitTransaction || *self
                == StatementType::RollbackTransaction),
    {
        matches!(
            self,
            StatementType::BeginTransaction | StatementType::CommitTransaction
                | StatementType::RollbackTransaction
        )
    }
}

} // verus!
