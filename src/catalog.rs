use vstd::prelude::*;
use crate::error::{DbError, ErrorKind};
use crate::text::text_eq;

verus! {

/// Full metadata of a column, from the catalog.
#[derive(Debug, Clone)]
pub struct ColumnInfo {
    pub name: String,
    pub position: i32,
    pub data_type: String,
    pub char_max_length: Option<i32>,
    pub nullable: bool,
    pub default_value: Option<String>,
    pub comment: Option<String>,
    pub is_primary_key: bool,
    pub foreign_key_ref: Option<String>,
}

/// Full metadata of a table.
#[derive(Debug, Clone)]
pub struct TableInfo {
    pub name: String,
    pub schema: Option<String>,
    pub columns: Vec<ColumnInfo>,
    pub row_count: Option<u64>,
    pub size_bytes: Option<u64>,
    pub comment: Option<String>,
}

/// One row of the column stream: the table it belongs to and the column.
#[derive(Debug, Clone)]
pub struct ColumnRow {
    pub schema: String,
    pub table: String,
    pub column: ColumnInfo,
}

pub type TableKey = (Seq<char>, Seq<char>);

pub open spec fn row_key(r: ColumnRow) -> TableKey {
    (r.schema@, r.table@)
}

/// The maximal runs of consecutive rows with the same (schema, table) key,
/// each with its columns in stream order.
pub open spec fn runs(s: Seq<ColumnRow>) -> Seq<(TableKey, Seq<ColumnInfo>)>
    decreases s.len(),
{
    if s.len() == 0 {
        Seq::empty()
    } else {
        let rs = runs(s.drop_last());
        let r = s.last();
        if rs.len() > 0 && rs.last().0 == row_key(r) {
            rs.update(rs.len() - 1, (rs.last().0, rs.last().1.push(r.column)))
        } else {
            rs.push((row_key(r), seq![r.column]))
        }
    }
}

/// Every table's rows stand together: no key has two runs.
pub open spec fn grouped(s: Seq<ColumnRow>) -> bool {
    let rs = runs(s);
    forall|a: int, b: int| 0 <= a < b < rs.len() ==> #[trigger] rs[a].0 != #[trigger] rs[b].0
}

/// `t` is the table of a run, with no size, count or comment.
pub open spec fn is_table_of(t: TableInfo, run: (TableKey, Seq<ColumnInfo>)) -> bool {
    &&& t.schema is Some
    &&& t.schema->Some_0@ == run.0.0
    &&& t.name@ == run.0.1
    &&& t.columns@ == run.1
    &&& t.row_count is None
    &&& t.size_bytes is None
    &&& t.comment is None
}

pub open spec fn ungrouped_message() -> Seq<char> {
    "Column rows are not grouped by schema and table"@
}

proof fn lemma_runs_extend(s: Seq<ColumnRow>, r: ColumnRow)
    ensures
        runs(s.push(r)).len() >= runs(s).len(),
        forall|j: int| 0 <= j < runs(s).len() ==> #[trigger] runs(s.push(r))[j].0 == runs(s)[j].0,
{
    assert(s.push(r).drop_last() =~= s);
}

proof fn lemma_ungrouped_stays(s: Seq<ColumnRow>, n: int)
    requires
        0 <= n <= s.len(),
        !grouped(s.take(n)),
    ensures
        !grouped(s),
    decreases s.len() - n,
{
    if n == s.len() {
        assert(s.take(n) =~= s);
    } else {
        let t = s.take(n);
        assert(s.take(n + 1) =~= t.push(s[n]));
        lemma_runs_extend(t, s[n]);
        let rs = runs(t);
        let (a, b) = choose|a: int, b: int| 0 <= a < b < rs.len() && #[trigger] rs[a].0 == #[trigger] rs[b].0;
        assert(runs(s.take(n + 1))[a].0 == runs(s.take(n + 1))[b].0);
        lemma_ungrouped_stays(s, n + 1);
    }
}

/// Groups a column stream into tables in one pass, flushing the current table
/// whenever the (schema, table) key changes. The stream must hold each
/// table's rows together; when a table's rows come back after another
/// table's, the grouping fails rather than split the table.
pub fn group_columns(rows: Vec<ColumnRow>) -> (r: Result<Vec<TableInfo>, DbError>)
    ensures
        grouped(rows@) ==> r is Ok && r->Ok_0@.len() == runs(rows@).len() && forall|i: int|
            0 <= i < r->Ok_0@.len() ==> #[trigger] is_table_of(r->Ok_0@[i], runs(rows@)[i]),
        !grouped(rows@) ==> r is Err && r->Err_0@ == (ErrorKind::Other, ungrouped_message()),
{
    let ghost all = rows@;
    let total = rows.len();
    let mut rest = rows;
    let mut done: Vec<TableInfo> = Vec::new();
    let mut has_cur = false;
    let mut cur_schema = String::new();
    let mut cur_table = String::new();
    let mut cur_cols: Vec<ColumnInfo> = Vec::new();
    let mut i: usize = 0;
    assert(all.take(0) =~= Seq::<ColumnRow>::empty());
    assert(all.skip(0) =~= all);
    while rest.len() > 0
        invariant
            all == rows@,
            total == all.len(),
            i <= all.len(),
            rest@ == all.skip(i as int),
            grouped(all.take(i as int)),
            has_cur == (runs(all.take(i as int)).len() > 0),
            done@.len() + (if has_cur { 1int } else { 0int }) == runs(all.take(i as int)).len(),
            forall|j: int| 0 <= j < done@.len() ==> #[trigger] is_table_of(done@[j], runs(all.take(i as int))[j]),
            has_cur ==> runs(all.take(i as int)).last() == ((cur_schema@, cur_table@), cur_cols@),
        decreases rest@.len(),
    {
        let ghost rs = runs(all.take(i as int));
        let ghost old_key = (cur_schema@, cur_table@);
        let ghost was_cur = has_cur;
        let ghost n_done = done@.len();
        let row = rest.remove(0);
        assert(row == all[i as int]);
        assert(rest@ =~= all.skip(i + 1));
        assert(all.take(i + 1) =~= all.take(i as int).push(row));
        assert(all.take(i + 1).drop_last() =~= all.take(i as int));
        if has_cur && text_eq(cur_schema.as_str(), row.schema.as_str()) && text_eq(cur_table.as_str(), row.table.as_str()) {
            cur_cols.push(row.column);
            assert(runs(all.take(i + 1)) == rs.update(rs.len() - 1, (rs.last().0, rs.last().1.push(row.column))));
            assert(grouped(all.take(i + 1))) by {
                let rs2 = runs(all.take(i + 1));
                assert forall|a: int, b: int| 0 <= a < b < rs2.len() implies #[trigger] rs2[a].0 != #[trigger] rs2[b].0 by {
                    assert(rs2[a].0 == rs[a].0);
                    assert(rs2[b].0 == rs[b].0);
                };
            };
        } else {
            // A new run starts: its key must not be that of a finished table.
            assert(runs(all.take(i + 1)) == rs.push((row_key(row), seq![row.column])));
            let mut j: usize = 0;
            while j < done.len()
                invariant
                    i < all.len(),
                    all.take(i + 1) == all.take(i as int).push(row),
                    rs == runs(all.take(i as int)),
                    runs(all.take(i + 1)) == rs.push((row_key(row), seq![row.column])),
                    done@.len() <= rs.len(),
                    all == rows@,
                    j <= done@.len(),
                    forall|q: int| 0 <= q < done@.len() ==> #[trigger] is_table_of(done@[q], rs[q]),
                    forall|q: int| 0 <= q < j ==> #[trigger] rs[q].0 != row_key(row),
                decreases done@.len() - j,
            {
                proof {
                    assert(is_table_of(done@[j as int], rs[j as int]));
                }
                let same = match &done[j].schema {
                    Some(s) => text_eq(s.as_str(), row.schema.as_str()) && text_eq(done[j].name.as_str(), row.table.as_str()),
                    None => false,
                };
                if same {
                    proof {
                        assert(is_table_of(done@[j as int], rs[j as int]));
                        assert(rs[j as int].0 == row_key(row));
                        let rs2 = runs(all.take(i + 1));
                        assert(rs2[j as int].0 == rs[j as int].0);
                        assert(rs2[rs.len() as int].0 == row_key(row));
                        assert(rs2[j as int].0 == rs2[rs.len() as int].0);
                        lemma_ungrouped_stays(all, i + 1);
                    }
                    return Err(DbError::Other(String::from_str("Column rows are not grouped by schema and table")));
                }
                j = j + 1;
            }
            if has_cur {
                let t = TableInfo {
                    name: cur_table,
                    schema: Some(cur_schema),
                    columns: cur_cols,
                    row_count: None,
                    size_bytes: None,
                    comment: None,
                };
                done.push(t);
            }
            let ghost rs2 = runs(all.take(i + 1));
            assert(rs2 == rs.push((row_key(row), seq![row.column])));
            cur_schema = row.schema;
            cur_table = row.table;
            cur_cols = Vec::new();
            cur_cols.push(row.column);
            assert(cur_cols@ =~= seq![row.column]);
            has_cur = true;
            assert(grouped(all.take(i + 1))) by {
                assert forall|a: int, b: int| 0 <= a < b < rs2.len() implies #[trigger] rs2[a].0 != #[trigger] rs2[b].0 by {
                    assert(rs2[a].0 == rs[a].0);
                    if b == rs.len() {
                        assert(rs2[b].0 == row_key(row));
                        if a < n_done {
                            assert(rs[a].0 != row_key(row));
                        } else {
                            assert(was_cur);
                            assert(a == rs.len() - 1);
                            assert(rs[a].0 == old_key);
                        }
                    } else {
                        assert(rs2[b].0 == rs[b].0);
                    }
                };
            };
        }
        i = i + 1;
    }
    assert(rest@.len() == 0);
    assert(all.take(i as int) =~= all);
    if has_cur {
        done.push(TableInfo {
            name: cur_table,
            schema: Some(cur_schema),
            columns: cur_cols,
            row_count: None,
            size_bytes: None,
            comment: None,
        });
    }
    Ok(done)
}

} // verus!
