//! The store model: tables of named columns and rows of plain values, plus
//! the applied-version ledger, and the statements a migration script may
//! run against them.
//!
//! A statement is a structured schema change, not a free-form query string:
//! the engine migrates schemas, it does not parse or execute SQL. Each
//! statement has a mathematical meaning, `apply_stmt`, over the store's
//! view, and the executable functions are proved to match it exactly.

use vstd::pervasive::VecAdditionalExecFns;
use vstd::prelude::*;

verus! {

/// A single cell of a table: absent, an integer, or a text value.
#[derive(Clone, Debug, PartialEq)]
pub enum Value {
    Null,
    Int(i64),
    Text(String),
}

/// Mathematical view of a [`Value`].
pub enum ValueV {
    Null,
    Int(i64),
    Text(Seq<char>),
}

impl View for Value {
    type V = ValueV;

    open spec fn view(&self) -> ValueV {
        match self {
            Value::Null => ValueV::Null,
            Value::Int(i) => ValueV::Int(*i),
            Value::Text(s) => ValueV::Text(s@),
        }
    }
}

/// One table: a name, an ordered list of column names, and the rows.
/// Every row holds exactly one value per column.
#[derive(Clone, Debug, PartialEq)]
pub struct Table {
    pub name: String,
    pub cols: Vec<String>,
    pub rows: Vec<Vec<Value>>,
}

/// Mathematical view of a [`Table`].
pub struct TableV {
    pub name: Seq<char>,
    pub cols: Seq<Seq<char>>,
    pub rows: Seq<Seq<ValueV>>,
}

/// View of one row.
pub open spec fn row_view(r: Seq<Value>) -> Seq<ValueV> {
    r.map_values(|v: Value| v@)
}

/// View of a column list.
pub open spec fn cols_view(cs: Seq<String>) -> Seq<Seq<char>> {
    cs.map_values(|c: String| c@)
}

/// View of a list of rows.
pub open spec fn rows_view(rs: Seq<Vec<Value>>) -> Seq<Seq<ValueV>> {
    rs.map_values(|r: Vec<Value>| row_view(r@))
}

impl View for Table {
    type V = TableV;

    open spec fn view(&self) -> TableV {
        TableV { name: self.name@, cols: cols_view(self.cols@), rows: rows_view(self.rows@) }
    }
}

/// The target store: the application's tables together with the
/// applied-version ledger. A fresh store has no tables and ledger 0.
#[derive(Clone, Debug, PartialEq)]
pub struct Store {
    pub tables: Vec<Table>,
    pub ledger: i64,
}

/// Mathematical view of a [`Store`].
pub struct StoreV {
    pub tables: Seq<TableV>,
    pub ledger: i64,
}

/// View of a sequence of tables.
pub open spec fn tables_view(ts: Seq<Table>) -> Seq<TableV> {
    ts.map_values(|t: Table| t@)
}

impl View for Store {
    type V = StoreV;

    open spec fn view(&self) -> StoreV {
        StoreV { tables: tables_view(self.tables@), ledger: self.ledger }
    }
}

/// A table is well formed when every row has one value per column.
pub open spec fn table_wf(t: TableV) -> bool {
    forall|i: int| 0 <= i < t.rows.len() ==> (#[trigger] t.rows[i]).len() == t.cols.len()
}

/// A store is well formed when its tables are well formed, their names are
/// distinct, and the ledger is non-negative (0 means "nothing applied yet").
pub open spec fn store_wf(s: StoreV) -> bool {
    &&& forall|i: int| 0 <= i < s.tables.len() ==> table_wf(#[trigger] s.tables[i])
    &&& forall|i: int, j: int|
        0 <= i < j < s.tables.len() ==> (#[trigger] s.tables[i]).name != (
        #[trigger] s.tables[j]).name
    &&& s.ledger >= 0
}

/// The empty store a host starts from when the backing file does not exist.
pub open spec fn empty_store() -> StoreV {
    StoreV { tables: Seq::empty(), ledger: 0 }
}

/// The cause a store reports when a statement is rejected.
#[derive(Clone, Copy, Debug, PartialEq, Eq, Structural)]
pub enum StoreError {
    /// The statement names a table the store does not have.
    NoSuchTable,
    /// The statement adds a column the table already has.
    DuplicateColumn,
    /// The statement names a column the table does not have.
    NoSuchColumn,
}

/// One statement of a migration script. A script is a sequence of these,
/// executed as an atomic unit by the runner.
#[derive(Clone, Debug, PartialEq)]
pub enum Statement {
    /// Create a table with the given columns, unless one of that name
    /// already exists; never fails.
    CreateTableIfNotExists { name: String, cols: Vec<String> },
    /// Insert a single all-null row, unless the table already has rows.
    InsertDefaultRowIfEmpty { table: String },
    /// Add a column to a table; existing rows hold null in it. Fails if the
    /// column already exists.
    AddColumn { table: String, col: String },
    /// Set a column to the given value in every row where it is null,
    /// leaving rows with a value already set untouched.
    BackfillWhereNull { table: String, col: String, value: Value },
}

/// Mathematical view of a [`Statement`].
pub enum StatementV {
    CreateTableIfNotExists { name: Seq<char>, cols: Seq<Seq<char>> },
    InsertDefaultRowIfEmpty { table: Seq<char> },
    AddColumn { table: Seq<char>, col: Seq<char> },
    BackfillWhereNull { table: Seq<char>, col: Seq<char>, value: ValueV },
}

/// View of a script.
pub open spec fn script_view(sc: Seq<Statement>) -> Seq<StatementV> {
    sc.map_values(|st: Statement| st@)
}

impl View for Statement {
    type V = StatementV;

    open spec fn view(&self) -> StatementV {
        match self {
            Statement::CreateTableIfNotExists { name, cols } => {
                StatementV::CreateTableIfNotExists { name: name@, cols: cols_view(cols@) }
            },
            Statement::InsertDefaultRowIfEmpty { table } => {
                StatementV::InsertDefaultRowIfEmpty { table: table@ }
            },
            Statement::AddColumn { table, col } => {
                StatementV::AddColumn { table: table@, col: col@ }
            },
            Statement::BackfillWhereNull { table, col, value } => {
                StatementV::BackfillWhereNull { table: table@, col: col@, value: value@ }
            },
        }
    }
}

/// Index of the first element of `s` satisfying `p`, or -1 if none does.
pub open spec fn first_where<A>(s: Seq<A>, p: spec_fn(A) -> bool) -> int
    decreases s.len(),
{
    if s.len() == 0 {
        -1
    } else if p(s[0]) {
        0
    } else if first_where(s.drop_first(), p) == -1 {
        -1
    } else {
        first_where(s.drop_first(), p) + 1
    }
}

pub proof fn lemma_first_where<A>(s: Seq<A>, p: spec_fn(A) -> bool)
    ensures
        -1 <= first_where(s, p) < s.len(),
        first_where(s, p) >= 0 ==> p(s[first_where(s, p)]),
        forall|j: int| 0 <= j < first_where(s, p) ==> !p(#[trigger] s[j]),
        first_where(s, p) == -1 ==> forall|j: int| 0 <= j < s.len() ==> !p(#[trigger] s[j]),
    decreases s.len(),
{
    if s.len() == 0 {
    } else if p(s[0]) {
    } else {
        lemma_first_where(s.drop_first(), p);
        assert forall|j: int| 0 <= j < first_where(s, p) implies !p(#[trigger] s[j]) by {
            if j > 0 {
                assert(s.drop_first()[j - 1] == s[j]);
            }
        }
        if first_where(s, p) == -1 {
            assert forall|j: int| 0 <= j < s.len() implies !p(#[trigger] s[j]) by {
                if j > 0 {
                    assert(s.drop_first()[j - 1] == s[j]);
                }
            }
        }
    }
}

/// `first_where` returns exactly the position of the first match.
pub proof fn lemma_first_where_is<A>(s: Seq<A>, p: spec_fn(A) -> bool, i: int)
    requires
        0 <= i < s.len(),
        p(s[i]),
        forall|j: int| 0 <= j < i ==> !p(#[trigger] s[j]),
    ensures
        first_where(s, p) == i,
{
    lemma_first_where(s, p);
    let f = first_where(s, p);
    if f == -1 {
        assert(!p(s[i]));
    } else if f < i {
        assert(!p(s[f]));
    } else if f > i {
        assert(!p(s[i]));
    }
}

/// The predicate "this table is named `name`".
pub open spec fn named(name: Seq<char>) -> spec_fn(TableV) -> bool {
    |t: TableV| t.name == name
}

/// Index of the table called `name`, or -1 when the store has none.
pub open spec fn table_index(tables: Seq<TableV>, name: Seq<char>) -> int {
    first_where(tables, named(name))
}

/// The predicate "this column name equals `col`".
pub open spec fn col_named(col: Seq<char>) -> spec_fn(Seq<char>) -> bool {
    |c: Seq<char>| c == col
}

/// Index of column `col` in a table's column list, or -1 when absent.
pub open spec fn col_index(cols: Seq<Seq<char>>, col: Seq<char>) -> int {
    first_where(cols, col_named(col))
}

/// A row of `n` nulls, the shape a freshly inserted default row has.
pub open spec fn null_row(n: int) -> Seq<ValueV> {
    Seq::new(n as nat, |j: int| ValueV::Null)
}

/// What one statement means: the store after it, or the error the store
/// reports. This is the reference semantics the executable code is held to.
pub open spec fn apply_stmt(s: StoreV, st: StatementV) -> Result<StoreV, StoreError> {
    match st {
        StatementV::CreateTableIfNotExists { name, cols } => {
            if table_index(s.tables, name) >= 0 {
                Ok(s)
            } else {
                Ok(
                    StoreV {
                        tables: s.tables.push(TableV { name, cols, rows: Seq::empty() }),
                        ..s
                    },
                )
            }
        },
        StatementV::InsertDefaultRowIfEmpty { table } => {
            let ti = table_index(s.tables, table);
            if ti < 0 {
                Err(StoreError::NoSuchTable)
            } else {
                let t = s.tables[ti];
                if t.rows.len() > 0 {
                    Ok(s)
                } else {
                    Ok(
                        StoreV {
                            tables: s.tables.update(
                                ti,
                                TableV { rows: t.rows.push(null_row(t.cols.len() as int)), ..t },
                            ),
                            ..s
                        },
                    )
                }
            }
        },
        StatementV::AddColumn { table, col } => {
            let ti = table_index(s.tables, table);
            if ti < 0 {
                Err(StoreError::NoSuchTable)
            } else {
                let t = s.tables[ti];
                if col_index(t.cols, col) >= 0 {
                    Err(StoreError::DuplicateColumn)
                } else {
                    Ok(
                        StoreV {
                            tables: s.tables.update(
                                ti,
                                TableV {
                                    cols: t.cols.push(col),
                                    rows: t.rows.map_values(
                                        |r: Seq<ValueV>| r.push(ValueV::Null),
                                    ),
                                    ..t
                                },
                            ),
                            ..s
                        },
                    )
                }
            }
        },
        StatementV::BackfillWhereNull { table, col, value } => {
            let ti = table_index(s.tables, table);
            if ti < 0 {
                Err(StoreError::NoSuchTable)
            } else {
                let t = s.tables[ti];
                let ci = col_index(t.cols, col);
                if ci < 0 {
                    Err(StoreError::NoSuchColumn)
                } else {
                    Ok(
                        StoreV {
                            tables: s.tables.update(
                                ti,
                                TableV {
                                    rows: t.rows.map_values(
                                        |r: Seq<ValueV>|
                                            if r[ci] is Null {
                                                r.update(ci, value)
                                            } else {
                                                r
                                            },
                                    ),
                                    ..t
                                },
                            ),
                            ..s
                        },
                    )
                }
            }
        },
    }
}

/// What a whole script means: statements run in order; the first rejected
/// statement aborts the script with its error.
pub open spec fn apply_script(s: StoreV, sc: Seq<StatementV>) -> Result<StoreV, StoreError>
    decreases sc.len(),
{
    if sc.len() == 0 {
        Ok(s)
    } else {
        match apply_stmt(s, sc[0]) {
            Ok(s2) => apply_script(s2, sc.drop_first()),
            Err(e) => Err(e),
        }
    }
}

/// A statement that succeeds keeps the store well formed.
pub proof fn lemma_apply_stmt_wf(s: StoreV, st: StatementV)
    requires
        store_wf(s),
        apply_stmt(s, st) is Ok,
    ensures
        store_wf(apply_stmt(s, st)->Ok_0),
{
    let s2 = apply_stmt(s, st)->Ok_0;
    match st {
        StatementV::CreateTableIfNotExists { name, cols } => {
            if table_index(s.tables, name) >= 0 {
            } else {
                lemma_first_where(s.tables, named(name));
                assert(forall|j: int|
                    0 <= j < s.tables.len() ==> (#[trigger] s.tables[j]).name != name);
                assert(table_wf(TableV { name, cols, rows: Seq::empty() }));
            }
        },
        StatementV::InsertDefaultRowIfEmpty { table } => {
            let ti = table_index(s.tables, table);
            lemma_first_where(s.tables, named(table));
            if ti >= 0 && s.tables[ti].rows.len() == 0 {
                let t = s.tables[ti];
                let t2 = TableV { rows: t.rows.push(null_row(t.cols.len() as int)), ..t };
                assert(table_wf(t2));
            }
        },
        StatementV::AddColumn { table, col } => {
            let ti = table_index(s.tables, table);
            lemma_first_where(s.tables, named(table));
            let t = s.tables[ti];
            let t2 = TableV {
                cols: t.cols.push(col),
                rows: t.rows.map_values(|r: Seq<ValueV>| r.push(ValueV::Null)),
                ..t
            };
            assert(table_wf(t2));
        },
        StatementV::BackfillWhereNull { table, col, value } => {
            let ti = table_index(s.tables, table);
            lemma_first_where(s.tables, named(table));
            let t = s.tables[ti];
            let ci = col_index(t.cols, col);
            lemma_first_where(t.cols, col_named(col));
            let t2 = TableV {
                rows: t.rows.map_values(
                    |r: Seq<ValueV>|
                        if r[ci] is Null {
                            r.update(ci, value)
                        } else {
                            r
                        },
                ),
                ..t
            };
            assert forall|i: int| 0 <= i < t2.rows.len() implies (#[trigger] t2.rows[i]).len()
                == t2.cols.len() by {
                assert(t.rows[i].len() == t.cols.len());
            }
            assert(table_wf(t2));
        },
    }
}

/// Splitting a script at position `i`: running it all equals running the
/// first `i` statements and, if they succeed, the rest from there.
pub proof fn lemma_apply_script_split(s: StoreV, sc: Seq<StatementV>, i: int)
    requires
        0 <= i <= sc.len(),
    ensures
        apply_script(s, sc) == (match apply_script(s, sc.take(i)) {
            Ok(s2) => apply_script(s2, sc.skip(i)),
            Err(e) => Err(e),
        }),
    decreases i,
{
    if i == 0 {
        assert(sc.take(0) =~= Seq::empty());
        assert(sc.skip(0) =~= sc);
    } else {
        assert(sc.take(i)[0] == sc[0]);
        assert(sc.take(i).drop_first() =~= sc.drop_first().take(i - 1));
        assert(sc.drop_first().skip(i - 1) =~= sc.skip(i));
        match apply_stmt(s, sc[0]) {
            Ok(s2) => {
                lemma_apply_script_split(s2, sc.drop_first(), i - 1);
            },
            Err(_) => {},
        }
    }
}

/// Extending the executed prefix by one statement.
pub proof fn lemma_apply_script_snoc(s: StoreV, sc: Seq<StatementV>, i: int)
    requires
        0 <= i < sc.len(),
    ensures
        apply_script(s, sc.take(i + 1)) == (match apply_script(s, sc.take(i)) {
            Ok(s2) => apply_stmt(s2, sc[i]),
            Err(e) => Err(e),
        }),
{
    lemma_apply_script_split(s, sc.take(i + 1), i);
    assert(sc.take(i + 1).take(i) =~= sc.take(i));
    assert(sc.take(i + 1).skip(i) =~= seq![sc[i]]);
    match apply_script(s, sc.take(i)) {
        Ok(s2) => {
            assert(seq![sc[i]].drop_first() =~= Seq::empty());
            match apply_stmt(s2, sc[i]) {
                Ok(s3) => {
                    assert(apply_script(s3, seq![sc[i]].drop_first()) == Ok::<StoreV, StoreError>(
                        s3,
                    ));
                },
                Err(_) => {},
            }
        },
        Err(_) => {},
    }
}

/// A script that succeeds keeps the store well formed.
pub proof fn lemma_apply_script_wf(s: StoreV, sc: Seq<StatementV>)
    requires
        store_wf(s),
        apply_script(s, sc) is Ok,
    ensures
        store_wf(apply_script(s, sc)->Ok_0),
    decreases sc.len(),
{
    if sc.len() == 0 {
    } else {
        match apply_stmt(s, sc[0]) {
            Ok(s2) => {
                lemma_apply_stmt_wf(s, sc[0]);
                lemma_apply_script_wf(s2, sc.drop_first());
            },
            Err(_) => {},
        }
    }
}

impl Store {
    /// The store a host starts from when no backing file exists yet:
    /// no tables, ledger 0.
    pub fn new_empty() -> (r: Store)
        ensures
            r@ == empty_store(),
            store_wf(r@),
    {
        let r = Store { tables: Vec::new(), ledger: 0 };
        proof {
            assert(tables_view(r.tables@) =~= Seq::<TableV>::empty());
        }
        r
    }
}

/// Index of the table called `name`, scanning from the front.
fn find_table(tables: &Vec<Table>, name: &String) -> (r: Option<usize>)
    ensures
        match r {
            Some(i) => i < tables.len() && table_index(tables_view(tables@), name@) == i,
            None => table_index(tables_view(tables@), name@) == -1,
        },
{
    let ghost tv = tables_view(tables@);
    let mut i: usize = 0;
    while i < tables.len()
        invariant
            i <= tables.len(),
            tv == tables_view(tables@),
            forall|j: int| 0 <= j < i ==> (#[trigger] tv[j]).name != name@,
        decreases tables.len() - i,
    {
        if tables[i].name == *name {
            proof {
                assert(tv[i as int].name == name@);
                lemma_first_where_is(tv, named(name@), i as int);
            }
            return Some(i);
        }
        i += 1;
    }
    proof {
        lemma_first_where(tv, named(name@));
        if table_index(tv, name@) >= 0 {
            assert(named(name@)(tv[table_index(tv, name@)]));
        }
    }
    None
}

/// Index of the column called `col`, scanning from the front.
fn find_col(cols: &Vec<String>, col: &String) -> (r: Option<usize>)
    ensures
        match r {
            Some(i) => i < cols.len() && col_index(cols_view(cols@), col@) == i,
            None => col_index(cols_view(cols@), col@) == -1,
        },
{
    let ghost cv = cols_view(cols@);
    let mut i: usize = 0;
    while i < cols.len()
        invariant
            i <= cols.len(),
            cv == cols_view(cols@),
            forall|j: int| 0 <= j < i ==> #[trigger] cv[j] != col@,
        decreases cols.len() - i,
    {
        if cols[i] == *col {
            proof {
                assert(cv[i as int] == col@);
                lemma_first_where_is(cv, col_named(col@), i as int);
            }
            return Some(i);
        }
        i += 1;
    }
    proof {
        lemma_first_where(cv, col_named(col@));
        if col_index(cv, col@) >= 0 {
            assert(col_named(col@)(cv[col_index(cv, col@)]));
        }
    }
    None
}

/// An owned copy of a value, equal in view.
fn copy_value(v: &Value) -> (r: Value)
    ensures
        r@ == v@,
{
    match v {
        Value::Null => Value::Null,
        Value::Int(i) => Value::Int(*i),
        Value::Text(s) => Value::Text(s.clone()),
    }
}

/// An owned copy of a row, equal in view.
fn copy_row(r: &Vec<Value>) -> (out: Vec<Value>)
    ensures
        row_view(out@) == row_view(r@),
{
    let mut out: Vec<Value> = Vec::new();
    let mut i: usize = 0;
    while i < r.len()
        invariant
            i <= r.len(),
            out@.len() == i,
            forall|j: int| 0 <= j < i ==> (#[trigger] out@[j])@ == r@[j]@,
        decreases r.len() - i,
    {
        out.push(copy_value(&r[i]));
        i += 1;
    }
    proof {
        assert(row_view(out@) =~= row_view(r@));
    }
    out
}

/// An owned copy of a column list, equal in view.
fn copy_strings(cs: &Vec<String>) -> (out: Vec<String>)
    ensures
        cols_view(out@) == cols_view(cs@),
{
    let mut out: Vec<String> = Vec::new();
    let mut i: usize = 0;
    while i < cs.len()
        invariant
            i <= cs.len(),
            out@.len() == i,
            forall|j: int| 0 <= j < i ==> (#[trigger] out@[j])@ == cs@[j]@,
        decreases cs.len() - i,
    {
        out.push(cs[i].clone());
        i += 1;
    }
    proof {
        assert(cols_view(out@) =~= cols_view(cs@));
    }
    out
}

/// An owned copy of a list of rows, equal in view.
fn copy_rows(rs: &Vec<Vec<Value>>) -> (out: Vec<Vec<Value>>)
    ensures
        rows_view(out@) == rows_view(rs@),
{
    let mut out: Vec<Vec<Value>> = Vec::new();
    let mut i: usize = 0;
    while i < rs.len()
        invariant
            i <= rs.len(),
            out@.len() == i,
            forall|j: int| 0 <= j < i ==> row_view((#[trigger] out@[j])@) == row_view(rs@[j]@),
        decreases rs.len() - i,
    {
        out.push(copy_row(&rs[i]));
        i += 1;
    }
    proof {
        assert(rows_view(out@) =~= rows_view(rs@));
    }
    out
}

/// An owned copy of a table, equal in view.
fn copy_table(t: &Table) -> (out: Table)
    ensures
        out@ == t@,
{
    Table { name: t.name.clone(), cols: copy_strings(&t.cols), rows: copy_rows(&t.rows) }
}

/// An owned copy of a list of tables, equal in view.
fn copy_tables(ts: &Vec<Table>) -> (out: Vec<Table>)
    ensures
        tables_view(out@) == tables_view(ts@),
{
    let mut out: Vec<Table> = Vec::new();
    let mut i: usize = 0;
    while i < ts.len()
        invariant
            i <= ts.len(),
            out@.len() == i,
            forall|j: int| 0 <= j < i ==> (#[trigger] out@[j])@ == ts@[j]@,
        decreases ts.len() - i,
    {
        out.push(copy_table(&ts[i]));
        i += 1;
    }
    proof {
        assert(tables_view(out@) =~= tables_view(ts@));
    }
    out
}

/// An owned copy of a whole store, equal in view.
fn copy_store(s: &Store) -> (out: Store)
    ensures
        out@ == s@,
{
    Store { tables: copy_tables(&s.tables), ledger: s.ledger }
}

/// A row of `n` nulls.
fn make_null_row(n: usize) -> (out: Vec<Value>)
    ensures
        row_view(out@) == null_row(n as int),
{
    let mut out: Vec<Value> = Vec::new();
    let mut i: usize = 0;
    while i < n
        invariant
            i <= n,
            out@.len() == i,
            forall|j: int| 0 <= j < i ==> (#[trigger] out@[j]) is Null,
        decreases n - i,
    {
        out.push(Value::Null);
        i += 1;
    }
    proof {
        assert(row_view(out@) =~= null_row(n as int));
    }
    out
}

/// A copy of the table list with the table at `ti` replaced by `nt`.
fn replace_table(tables: &Vec<Table>, ti: usize, nt: Table) -> (out: Vec<Table>)
    requires
        ti < tables.len(),
    ensures
        tables_view(out@) == tables_view(tables@).update(ti as int, nt@),
{
    let mut out = copy_tables(tables);
    proof {
        assert(tables_view(out@).len() == out@.len());
        assert(tables_view(tables@).len() == tables@.len());
    }
    out.set(ti, nt);
    proof {
        assert(tables_view(out@) =~= tables_view(tables@).update(ti as int, nt@));
    }
    out
}

/// Execute one statement, building the resulting store. The input store is
/// never touched, so a failing statement has nothing to undo.
fn exec_stmt(store: &Store, st: &Statement) -> (r: Result<Store, StoreError>)
    requires
        store_wf(store@),
    ensures
        match r {
            Ok(s2) => apply_stmt(store@, st@) == Ok::<StoreV, StoreError>(s2@),
            Err(e) => apply_stmt(store@, st@) == Err::<StoreV, StoreError>(e),
        },
{
    match st {
        Statement::CreateTableIfNotExists { name, cols } => {
            match find_table(&store.tables, name) {
                Some(_) => Ok(copy_store(store)),
                None => {
                    let mut ts = copy_tables(&store.tables);
                    let nt = Table {
                        name: name.clone(),
                        cols: copy_strings(cols),
                        rows: Vec::new(),
                    };
                    proof {
                        assert(rows_view(nt.rows@) =~= Seq::<Seq<ValueV>>::empty());
                    }
                    ts.push(nt);
                    proof {
                        assert(tables_view(ts@) =~= store@.tables.push(
                            TableV { name: name@, cols: cols_view(cols@), rows: Seq::empty() },
                        ));
                    }
                    Ok(Store { tables: ts, ledger: store.ledger })
                },
            }
        },
        Statement::InsertDefaultRowIfEmpty { table } => {
            match find_table(&store.tables, table) {
                None => Err(StoreError::NoSuchTable),
                Some(ti) => {
                    if store.tables[ti].rows.len() > 0 {
                        Ok(copy_store(store))
                    } else {
                        let mut nt = copy_table(&store.tables[ti]);
                        let row = make_null_row(nt.cols.len());
                        nt.rows.push(row);
                        proof {
                            let t = store@.tables[ti as int];
                            assert(rows_view(nt.rows@) =~= t.rows.push(
                                null_row(t.cols.len() as int),
                            ));
                        }
                        let ts = replace_table(&store.tables, ti, nt);
                        Ok(Store { tables: ts, ledger: store.ledger })
                    }
                },
            }
        },
        Statement::AddColumn { table, col } => {
            match find_table(&store.tables, table) {
                None => Err(StoreError::NoSuchTable),
                Some(ti) => {
                    match find_col(&store.tables[ti].cols, col) {
                        Some(_) => Err(StoreError::DuplicateColumn),
                        None => {
                            let t = &store.tables[ti];
                            let mut cols2 = copy_strings(&t.cols);
                            cols2.push(col.clone());
                            let mut rows2: Vec<Vec<Value>> = Vec::new();
                            let mut i: usize = 0;
                            while i < t.rows.len()
                                invariant
                                    i <= t.rows.len(),
                                    rows2@.len() == i,
                                    forall|j: int|
                                        0 <= j < i ==> row_view((#[trigger] rows2@[j])@)
                                            == row_view(t.rows@[j]@).push(ValueV::Null),
                                decreases t.rows.len() - i,
                            {
                                let mut nr = copy_row(&t.rows[i]);
                                nr.push(Value::Null);
                                rows2.push(nr);
                                i += 1;
                            }
                            let nt = Table { name: t.name.clone(), cols: cols2, rows: rows2 };
                            proof {
                                let tv = store@.tables[ti as int];
                                assert(cols_view(nt.cols@) =~= tv.cols.push(col@));
                                assert(rows_view(nt.rows@) =~= tv.rows.map_values(
                                    |r: Seq<ValueV>| r.push(ValueV::Null),
                                ));
                            }
                            let ts = replace_table(&store.tables, ti, nt);
                            Ok(Store { tables: ts, ledger: store.ledger })
                        },
                    }
                },
            }
        },
        Statement::BackfillWhereNull { table, col, value } => {
            match find_table(&store.tables, table) {
                None => Err(StoreError::NoSuchTable),
                Some(ti) => {
                    let t = &store.tables[ti];
                    match find_col(&t.cols, col) {
                        None => Err(StoreError::NoSuchColumn),
                        Some(ci) => {
                            let ghost tv = store@.tables[ti as int];
                            let ghost transform = |r: Seq<ValueV>|
                                if r[ci as int] is Null {
                                    r.update(ci as int, value@)
                                } else {
                                    r
                                };
                            let mut rows2: Vec<Vec<Value>> = Vec::new();
                            let mut i: usize = 0;
                            while i < t.rows.len()
                                invariant
                                    i <= t.rows.len(),
                                    rows2@.len() == i,
                                    store_wf(store@),
                                    ti < store.tables.len(),
                                    t == &store.tables[ti as int],
                                    tv == store@.tables[ti as int],
                                    0 <= ci < tv.cols.len(),
                                    transform == (|r: Seq<ValueV>|
                                        if r[ci as int] is Null {
                                            r.update(ci as int, value@)
                                        } else {
                                            r
                                        }),
                                    forall|j: int|
                                        0 <= j < i ==> row_view((#[trigger] rows2@[j])@)
                                            == transform(row_view(t.rows@[j]@)),
                                decreases t.rows.len() - i,
                            {
                                proof {
                                    assert(tv.rows[i as int] == row_view(t.rows@[i as int]@));
                                    assert(tv.rows[i as int].len() == tv.cols.len());
                                }
                                let mut nr = copy_row(&t.rows[i]);
                                let was_null = matches!(nr[ci], Value::Null);
                                if was_null {
                                    nr.set(ci, copy_value(value));
                                    proof {
                                        assert(row_view(nr@) =~= row_view(t.rows@[i as int]@).update(
                                            ci as int,
                                            value@,
                                        ));
                                    }
                                }
                                rows2.push(nr);
                                i += 1;
                            }
                            let nt = Table {
                                name: t.name.clone(),
                                cols: copy_strings(&t.cols),
                                rows: rows2,
                            };
                            proof {
                                assert(rows_view(nt.rows@) =~= tv.rows.map_values(transform));
                                assert(tv.rows.map_values(transform) =~= tv.rows.map_values(
                                    |r: Seq<ValueV>|
                                        if r[col_index(tv.cols, col@)] is Null {
                                            r.update(col_index(tv.cols, col@), value@)
                                        } else {
                                            r
                                        },
                                ));
                            }
                            let ts = replace_table(&store.tables, ti, nt);
                            Ok(Store { tables: ts, ledger: store.ledger })
                        },
                    }
                },
            }
        },
    }
}

/// Run a whole script against a copy of the store. The original is never
/// touched: the caller installs the result only when every statement
/// succeeded, which is what makes a script atomic.
pub(crate) fn exec_script(store: &Store, script: &Vec<Statement>) -> (r: Result<
    Store,
    StoreError,
>)
    requires
        store_wf(store@),
    ensures
        match r {
            Ok(s2) => apply_script(store@, script_view(script@)) == Ok::<StoreV, StoreError>(s2@)
                && store_wf(s2@),
            Err(e) => apply_script(store@, script_view(script@)) == Err::<StoreV, StoreError>(e),
        },
{
    let ghost sv = script_view(script@);
    let mut cur = copy_store(store);
    let mut i: usize = 0;
    while i < script.len()
        invariant
            i <= script.len(),
            sv == script_view(script@),
            store_wf(store@),
            store_wf(cur@),
            apply_script(store@, sv.take(i as int)) == Ok::<StoreV, StoreError>(cur@),
        decreases script.len() - i,
    {
        proof {
            assert(sv[i as int] == script@[i as int]@);
        }
        match exec_stmt(&cur, &script[i]) {
            Ok(next) => {
                proof {
                    lemma_apply_script_snoc(store@, sv, i as int);
                    lemma_apply_stmt_wf(cur@, sv[i as int]);
                }
                cur = next;
            },
            Err(e) => {
                proof {
                    lemma_apply_script_snoc(store@, sv, i as int);
                    lemma_apply_script_split(store@, sv, i as int + 1);
                }
                return Err(e);
            },
        }
        i += 1;
    }
    proof {
        assert(sv.take(script.len() as int) =~= sv);
    }
    Ok(cur)
}

} // verus!
