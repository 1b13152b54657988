//! The statement-generation engine: a deterministic compilation of a
//! schema model into ordered, placeholder-parameterized DDL statements.
//!
//! Every piece of user data is bound through a placeholder, never spliced
//! into the template text, so a template is a concatenation of fixed
//! literals. The generated order is mandatory: the database first, then one
//! CREATE USER and one GRANT per user in input order, then one CREATE TABLE
//! per table in input order; within a table: column definitions, the
//! primary-key clause, one clause per foreign key, per unique constraint
//! and per index. The generator is a pure function of the model and the
//! dialect: no validation is re-run here (a dangling foreign key still
//! renders as well-formed SQL), and the only failures are conditions that
//! cannot be rendered at all.

use vstd::prelude::*;
use vstd::string::StringExecFns;

use crate::datatype::Datatype;
use crate::schema::{Column, ForeignKey, Index, Table, User, UserType, VirtualDatabase};
use crate::settings::DbmsType;

verus! {

/// A value to bind to one placeholder of a statement template, in
/// left-to-right order.
#[derive(Debug, Clone, PartialEq)]
pub enum Value {
    /// A character value: a name, a default literal, an enumerated value.
    Text(String),
    /// A numeric value: a declared varchar length.
    Uint(u64),
}

/// The ghost image of a bound value.
pub enum ValueV {
    Text(Seq<char>),
    Uint(int),
}

impl View for Value {
    type V = ValueV;

    open spec fn view(&self) -> ValueV {
        match self {
            Value::Text(s) => ValueV::Text(s@),
            Value::Uint(u) => ValueV::Uint(*u as int),
        }
    }
}

/// The ghost images of a sequence of bound values.
pub open spec fn params_view(s: Seq<Value>) -> Seq<ValueV> {
    s.map_values(|v: Value| v@)
}

/// One DDL statement: fixed template text with `?` placeholders, and the
/// values to bind to them, in left-to-right order.
#[derive(Debug, Clone, PartialEq)]
pub struct Statement {
    pub template: String,
    pub parameters: Vec<Value>,
}

/// The ghost image of a statement.
#[verifier::ext_equal]
pub struct StatementV {
    pub template: Seq<char>,
    pub parameters: Seq<ValueV>,
}

impl View for Statement {
    type V = StatementV;

    open spec fn view(&self) -> StatementV {
        StatementV { template: self.template@, parameters: params_view(self.parameters@) }
    }
}

/// The ghost images of a sequence of statements.
pub open spec fn stmts_view(s: Seq<Statement>) -> Seq<StatementV> {
    s.map_values(|x: Statement| x@)
}

/// A condition the generator cannot render into valid DDL, whatever the
/// validator said.
#[derive(Debug, Clone, PartialEq)]
pub enum GenerationError {
    /// The named table has no columns.
    EmptyColumnList(String),
    /// The named enum or set column (table name, column name) declares no
    /// values.
    EmptyValueList(String, String),
}

/// The ghost image of a generation error.
pub enum GenerationErrorV {
    EmptyColumnList(Seq<char>),
    EmptyValueList(Seq<char>, Seq<char>),
}

impl View for GenerationError {
    type V = GenerationErrorV;

    open spec fn view(&self) -> GenerationErrorV {
        match self {
            GenerationError::EmptyColumnList(t) => GenerationErrorV::EmptyColumnList(t@),
            GenerationError::EmptyValueList(t, c) => GenerationErrorV::EmptyValueList(t@, c@),
        }
    }
}

/// A dialect: the textual column-type rendering of each datatype variant,
/// as a lookup table keyed by variant. Identifier quoting and literal
/// escaping are delegated to the placeholder convention: every piece of
/// user data is bound, so the templates themselves carry no user text.
#[derive(Debug, Clone, PartialEq)]
pub struct Dialect {
    pub int8: String,
    pub uint8: String,
    pub int16: String,
    pub uint16: String,
    pub int32: String,
    pub uint32: String,
    pub int64: String,
    pub uint64: String,
    pub float_single: String,
    pub float_double: String,
    pub boolean: String,
    pub varchar: String,
    pub date: String,
    pub time: String,
    pub datetime: String,
    pub year: String,
    pub enumeration: String,
    pub set_of: String,
}

impl Dialect {
    /// The MySQL-family dialect.
    pub fn mysql() -> (d: Dialect)
        ensures
            d.int8@ == "TINYINT"@,
            d.uint8@ == "TINYINT UNSIGNED"@,
            d.int16@ == "SMALLINT"@,
            d.uint16@ == "SMALLINT UNSIGNED"@,
            d.int32@ == "INT"@,
            d.uint32@ == "INT UNSIGNED"@,
            d.int64@ == "BIGINT"@,
            d.uint64@ == "BIGINT UNSIGNED"@,
            d.float_single@ == "FLOAT"@,
            d.float_double@ == "DOUBLE"@,
            d.boolean@ == "BOOLEAN"@,
            d.varchar@ == "VARCHAR"@,
            d.date@ == "DATE"@,
            d.time@ == "TIME"@,
            d.datetime@ == "DATETIME"@,
            d.year@ == "YEAR"@,
            d.enumeration@ == "ENUM"@,
            d.set_of@ == "SET"@,
    {
        Dialect {
            int8: "TINYINT".to_owned(),
            uint8: "TINYINT UNSIGNED".to_owned(),
            int16: "SMALLINT".to_owned(),
            uint16: "SMALLINT UNSIGNED".to_owned(),
            int32: "INT".to_owned(),
            uint32: "INT UNSIGNED".to_owned(),
            int64: "BIGINT".to_owned(),
            uint64: "BIGINT UNSIGNED".to_owned(),
            float_single: "FLOAT".to_owned(),
            float_double: "DOUBLE".to_owned(),
            boolean: "BOOLEAN".to_owned(),
            varchar: "VARCHAR".to_owned(),
            date: "DATE".to_owned(),
            time: "TIME".to_owned(),
            datetime: "DATETIME".to_owned(),
            year: "YEAR".to_owned(),
            enumeration: "ENUM".to_owned(),
            set_of: "SET".to_owned(),
        }
    }
}

/// The dialect for a target database-management system: the complete
/// rendering table, one entry per datatype variant.
pub fn dialect_for(target: &DbmsType) -> (d: Dialect)
    ensures
        d.int8@ == "TINYINT"@,
        d.uint8@ == "TINYINT UNSIGNED"@,
        d.int16@ == "SMALLINT"@,
        d.uint16@ == "SMALLINT UNSIGNED"@,
        d.int32@ == "INT"@,
        d.uint32@ == "INT UNSIGNED"@,
        d.int64@ == "BIGINT"@,
        d.uint64@ == "BIGINT UNSIGNED"@,
        d.float_single@ == "FLOAT"@,
        d.float_double@ == "DOUBLE"@,
        d.boolean@ == "BOOLEAN"@,
        d.varchar@ == "VARCHAR"@,
        d.date@ == "DATE"@,
        d.time@ == "TIME"@,
        d.datetime@ == "DATETIME"@,
        d.year@ == "YEAR"@,
        d.enumeration@ == "ENUM"@,
        d.set_of@ == "SET"@,
{
    match target {
        DbmsType::MySQL => Dialect::mysql(),
    }
}

/// `n` quoted placeholders, comma-separated: `'?', '?', ...`.
pub open spec fn spec_quoted_placeholders(n: int) -> Seq<char>
    decreases n,
{
    if n <= 0 {
        Seq::empty()
    } else if n == 1 {
        "'?'"@
    } else {
        spec_quoted_placeholders(n - 1) + ", "@ + "'?'"@
    }
}

/// `n` plain placeholders, comma-separated: `?, ?, ...`.
pub open spec fn spec_plain_placeholders(n: int) -> Seq<char>
    decreases n,
{
    if n <= 0 {
        Seq::empty()
    } else if n == 1 {
        "?"@
    } else {
        spec_plain_placeholders(n - 1) + ", "@ + "?"@
    }
}

/// Text values for a sequence of strings.
pub open spec fn texts_of(s: Seq<String>) -> Seq<ValueV> {
    s.map_values(|x: String| ValueV::Text(x@))
}

/// The dialect's rendering of one datatype. A varchar binds its declared
/// length through a placeholder; an enum or set binds each declared value.
pub open spec fn spec_type_sql(d: Dialect, dt: Datatype) -> Seq<char> {
    match dt {
        Datatype::Int8 => d.int8@,
        Datatype::Uint8 => d.uint8@,
        Datatype::Int16 => d.int16@,
        Datatype::Uint16 => d.uint16@,
        Datatype::Int32 => d.int32@,
        Datatype::Uint32 => d.uint32@,
        Datatype::Int64 => d.int64@,
        Datatype::Uint64 => d.uint64@,
        Datatype::Float => d.float_single@,
        Datatype::Double => d.float_double@,
        Datatype::Boolean => d.boolean@,
        Datatype::Varchar(_) => d.varchar@ + " (?)"@,
        Datatype::Date => d.date@,
        Datatype::Time => d.time@,
        Datatype::DateTime => d.datetime@,
        Datatype::Year => d.year@,
        Datatype::Enum(vals) => d.enumeration@ + " ("@ + spec_quoted_placeholders(
            vals@.len() as int,
        ) + ")"@,
        Datatype::SetOf(vals) => d.set_of@ + " ("@ + spec_quoted_placeholders(
            vals@.len() as int,
        ) + ")"@,
    }
}

/// The values one datatype binds.
pub open spec fn spec_type_params(dt: Datatype) -> Seq<ValueV> {
    match dt {
        Datatype::Varchar(n) => seq![ValueV::Uint(n as int)],
        Datatype::Enum(vals) => texts_of(vals@),
        Datatype::SetOf(vals) => texts_of(vals@),
        _ => Seq::empty(),
    }
}

/// One column definition: name placeholder, dialect-rendered type, then
/// `NOT NULL`, `DEFAULT` and `AUTO_INCREMENT` in exactly this order.
pub open spec fn spec_column_sql(d: Dialect, c: Column) -> Seq<char> {
    "? "@ + spec_type_sql(d, c.datatype) + (if c.not_null {
        " NOT NULL"@
    } else {
        Seq::empty()
    }) + (match c.default {
        Some(_) => " DEFAULT ?"@,
        None => Seq::empty(),
    }) + (if c.auto_increment {
        " AUTO_INCREMENT"@
    } else {
        Seq::empty()
    })
}

/// The values one column definition binds: its name, its type's values,
/// its default literal if present.
pub open spec fn spec_column_params(c: Column) -> Seq<ValueV> {
    seq![ValueV::Text(c.name@)] + spec_type_params(c.datatype) + (match c.default {
        Some(v) => seq![ValueV::Text(v@)],
        None => Seq::empty(),
    })
}

/// The column definitions, comma-separated, in insertion order.
pub open spec fn spec_columns_sql(d: Dialect, cols: Seq<Column>) -> Seq<char>
    decreases cols.len(),
{
    if cols.len() == 0 {
        Seq::empty()
    } else if cols.len() == 1 {
        spec_column_sql(d, cols[0])
    } else {
        spec_columns_sql(d, cols.drop_last()) + ", "@ + spec_column_sql(d, cols.last())
    }
}

/// The values all column definitions bind, in order.
pub open spec fn spec_columns_params(cols: Seq<Column>) -> Seq<ValueV>
    decreases cols.len(),
{
    if cols.len() == 0 {
        Seq::empty()
    } else {
        spec_columns_params(cols.drop_last()) + spec_column_params(cols.last())
    }
}

/// The primary-key clause: absent when no primary-key column is declared.
pub open spec fn spec_pk_sql(pks: Seq<String>) -> Seq<char> {
    if pks.len() == 0 {
        Seq::empty()
    } else {
        ", PRIMARY KEY ("@ + spec_plain_placeholders(pks.len() as int) + ")"@
    }
}

/// One `FOREIGN KEY` clause per declared foreign key.
pub open spec fn spec_fks_sql(n: int) -> Seq<char>
    decreases n,
{
    if n <= 0 {
        Seq::empty()
    } else {
        spec_fks_sql(n - 1) + ", FOREIGN KEY (?) REFERENCES ?(?)"@
    }
}

/// The values the foreign-key clauses bind: local column, origin table,
/// origin column, for each foreign key in declaration order.
pub open spec fn spec_fks_params(fks: Seq<ForeignKey>) -> Seq<ValueV>
    decreases fks.len(),
{
    if fks.len() == 0 {
        Seq::empty()
    } else {
        spec_fks_params(fks.drop_last()) + seq![
            ValueV::Text(fks.last()@.local_column),
            ValueV::Text(fks.last()@.origin_table),
            ValueV::Text(fks.last()@.origin_column),
        ]
    }
}

/// One `UNIQUE` clause per declared unique column.
pub open spec fn spec_uniques_sql(n: int) -> Seq<char>
    decreases n,
{
    if n <= 0 {
        Seq::empty()
    } else {
        spec_uniques_sql(n - 1) + ", UNIQUE (?)"@
    }
}

/// One `INDEX` clause: its columns' placeholders in the index's own
/// declared order.
pub open spec fn spec_index_sql(ix: Index) -> Seq<char> {
    ", INDEX ("@ + spec_plain_placeholders(ix.columns@.len() as int) + ")"@
}

/// The `INDEX` clauses, in declaration order.
pub open spec fn spec_indices_sql(ixs: Seq<Index>) -> Seq<char>
    decreases ixs.len(),
{
    if ixs.len() == 0 {
        Seq::empty()
    } else {
        spec_indices_sql(ixs.drop_last()) + spec_index_sql(ixs.last())
    }
}

/// The values the `INDEX` clauses bind.
pub open spec fn spec_indices_params(ixs: Seq<Index>) -> Seq<ValueV>
    decreases ixs.len(),
{
    if ixs.len() == 0 {
        Seq::empty()
    } else {
        spec_indices_params(ixs.drop_last()) + texts_of(ixs.last().columns@)
    }
}

/// The full `CREATE TABLE` template: columns, primary-key clause, foreign
/// keys, uniques, indices — a fixed, mandatory order.
pub open spec fn spec_table_template(d: Dialect, t: Table) -> Seq<char> {
    "CREATE TABLE ? ("@ + spec_columns_sql(d, t.columns@) + spec_pk_sql(t.primary_keys@)
        + spec_fks_sql(t.foreign_keys@.len() as int) + spec_uniques_sql(t.uniques@.len() as int)
        + spec_indices_sql(t.indices@) + ");"@
}

/// The values the `CREATE TABLE` statement binds, in placeholder order.
pub open spec fn spec_table_params(t: Table) -> Seq<ValueV> {
    seq![ValueV::Text(t.name@)] + spec_columns_params(t.columns@) + texts_of(t.primary_keys@)
        + spec_fks_params(t.foreign_keys@) + texts_of(t.uniques@) + spec_indices_params(t.indices@)
}

/// The `CREATE TABLE` statement of one table. It is a function of the
/// table and the dialect alone: sibling tables and their order in the
/// database play no part.
pub open spec fn spec_table_statement(d: Dialect, t: Table) -> StatementV {
    StatementV { template: spec_table_template(d, t), parameters: spec_table_params(t) }
}

/// The `CREATE DATABASE` statement.
pub open spec fn spec_db_statement(name: Seq<char>) -> StatementV {
    StatementV { template: "CREATE DATABASE ?;"@, parameters: seq![ValueV::Text(name)] }
}

/// The `CREATE USER` statement of one user.
pub open spec fn spec_user_statement(u: User) -> StatementV {
    StatementV {
        template: "CREATE USER '?'@'?' IDENTIFIED BY '?';"@,
        parameters: seq![ValueV::Text(u.name@), ValueV::Text(u.host@), ValueV::Text(u.password@)],
    }
}

/// The `GRANT` statement of one user: an admin gets all privileges with
/// the grant option; a CRUD user only the four row-level statements.
pub open spec fn spec_grant_statement(u: User, dbname: Seq<char>) -> StatementV {
    StatementV {
        template: match u.role {
            UserType::Admin => "GRANT ALL ON ?.* TO '?'@'?' WITH GRANT OPTION;"@,
            UserType::CRUD => "GRANT INSERT, SELECT, UPDATE, DELETE ON ?.* TO '?'@'?';"@,
        },
        parameters: seq![ValueV::Text(dbname), ValueV::Text(u.name@), ValueV::Text(u.host@)],
    }
}

/// The per-user statements of the first `n` users: one CREATE USER and one
/// GRANT each, in input order.
pub open spec fn spec_user_statements(users: Seq<User>, dbname: Seq<char>, n: int) -> Seq<StatementV>
    decreases n,
{
    if n <= 0 {
        Seq::empty()
    } else {
        spec_user_statements(users, dbname, n - 1) + seq![
            spec_user_statement(users[n - 1]),
            spec_grant_statement(users[n - 1], dbname),
        ]
    }
}

/// The `CREATE TABLE` statements of the first `n` tables, in input order.
pub open spec fn spec_table_statements(d: Dialect, tables: Seq<Table>, n: int) -> Seq<StatementV>
    decreases n,
{
    if n <= 0 {
        Seq::empty()
    } else {
        spec_table_statements(d, tables, n - 1) + seq![spec_table_statement(d, tables[n - 1])]
    }
}

/// The whole generated sequence: database, users, tables, in the mandatory
/// execution order.
pub open spec fn spec_generate(d: Dialect, db: VirtualDatabase) -> Seq<StatementV> {
    seq![spec_db_statement(db.name@)] + spec_user_statements(
        db.users@,
        db.name@,
        db.users@.len() as int,
    ) + spec_table_statements(d, db.tables@, db.tables@.len() as int)
}

/// The generation error of one column, if any: an enum or set with no
/// declared values cannot be rendered.
pub open spec fn spec_column_gen_error(tname: Seq<char>, c: Column) -> Option<GenerationErrorV> {
    match c.datatype {
        Datatype::Enum(vals) => if vals@.len() == 0 {
            Some(GenerationErrorV::EmptyValueList(tname, c.name@))
        } else {
            None
        },
        Datatype::SetOf(vals) => if vals@.len() == 0 {
            Some(GenerationErrorV::EmptyValueList(tname, c.name@))
        } else {
            None
        },
        _ => None,
    }
}

/// The first column generation error at or after position `i`.
pub open spec fn spec_cols_gen_error(t: Table, i: int) -> Option<GenerationErrorV>
    decreases t.columns@.len() - i,
{
    if i < 0 || i >= t.columns@.len() {
        None
    } else {
        match spec_column_gen_error(t.name@, t.columns@[i]) {
            Some(e) => Some(e),
            None => spec_cols_gen_error(t, i + 1),
        }
    }
}

/// The generation error of one table, if any: a table without columns, or
/// the first empty enum or set among its columns.
pub open spec fn spec_table_gen_error(t: Table) -> Option<GenerationErrorV> {
    if t.columns@.len() == 0 {
        Some(GenerationErrorV::EmptyColumnList(t.name@))
    } else {
        spec_cols_gen_error(t, 0)
    }
}

/// The first table generation error at or after position `i`.
pub open spec fn spec_db_gen_error(db: VirtualDatabase, i: int) -> Option<GenerationErrorV>
    decreases db.tables@.len() - i,
{
    if i < 0 || i >= db.tables@.len() {
        None
    } else {
        match spec_table_gen_error(db.tables@[i]) {
            Some(e) => Some(e),
            None => spec_db_gen_error(db, i + 1),
        }
    }
}

/// Appends one bound value, tracking the ghost image of the vector.
fn push_param(params: &mut Vec<Value>, v: Value)
    ensures
        params_view(final(params)@) == params_view(old(params)@).push(v@),
{
    let ghost base = params@;
    params.push(v);
    proof {
        assert(params_view(params@) =~= params_view(base).push(v@));
    }
}

/// Appends the dialect's rendering of one datatype to the template, and
/// the values it binds to the parameter list.
fn render_type(d: &Dialect, dt: &Datatype, template: &mut String, params: &mut Vec<Value>)
    ensures
        final(template)@ == old(template)@ + spec_type_sql(*d, *dt),
        params_view(final(params)@) == params_view(old(params)@) + spec_type_params(*dt),
{
    let ghost base_t = template@;
    let ghost base_p = params@;
    match dt {
        Datatype::Int8 => template.append(d.int8.as_str()),
        Datatype::Uint8 => template.append(d.uint8.as_str()),
        Datatype::Int16 => template.append(d.int16.as_str()),
        Datatype::Uint16 => template.append(d.uint16.as_str()),
        Datatype::Int32 => template.append(d.int32.as_str()),
        Datatype::Uint32 => template.append(d.uint32.as_str()),
        Datatype::Int64 => template.append(d.int64.as_str()),
        Datatype::Uint64 => template.append(d.uint64.as_str()),
        Datatype::Float => template.append(d.float_single.as_str()),
        Datatype::Double => template.append(d.float_double.as_str()),
        Datatype::Boolean => template.append(d.boolean.as_str()),
        Datatype::Varchar(n) => {
            template.append(d.varchar.as_str());
            template.append(" (?)");
            push_param(params, Value::Uint(*n as u64));
        },
        Datatype::Date => template.append(d.date.as_str()),
        Datatype::Time => template.append(d.time.as_str()),
        Datatype::DateTime => template.append(d.datetime.as_str()),
        Datatype::Year => template.append(d.year.as_str()),
        Datatype::Enum(vals) => {
            template.append(d.enumeration.as_str());
            template.append(" (");
            let ghost open_t = template@;
            let ghost open_p = params@;
            for i in 0..vals.len()
                invariant
                    template@ == open_t + spec_quoted_placeholders(i as int),
                    params_view(params@) == params_view(open_p) + texts_of(vals@.take(i as int)),
            {
                if i > 0 {
                    template.append(", ");
                }
                template.append("'?'");
                push_param(params, Value::Text(vals[i].clone()));
                proof {
                    assert(vals@.take(i + 1).drop_last() =~= vals@.take(i as int));
                    assert(texts_of(vals@.take(i + 1)) =~= texts_of(vals@.take(i as int)).push(
                        ValueV::Text(vals@[i as int]@),
                    ));
                    assert(params_view(params@) =~= params_view(open_p) + texts_of(
                        vals@.take(i + 1),
                    ));
                    assert(template@ =~= open_t + spec_quoted_placeholders(i + 1));
                }
            }
            template.append(")");
            proof {
                assert(vals@.take(vals@.len() as int) =~= vals@);
            }
        },
        Datatype::SetOf(vals) => {
            template.append(d.set_of.as_str());
            template.append(" (");
            let ghost open_t = template@;
            let ghost open_p = params@;
            for i in 0..vals.len()
                invariant
                    template@ == open_t + spec_quoted_placeholders(i as int),
                    params_view(params@) == params_view(open_p) + texts_of(vals@.take(i as int)),
            {
                if i > 0 {
                    template.append(", ");
                }
                template.append("'?'");
                push_param(params, Value::Text(vals[i].clone()));
                proof {
                    assert(vals@.take(i + 1).drop_last() =~= vals@.take(i as int));
                    assert(texts_of(vals@.take(i + 1)) =~= texts_of(vals@.take(i as int)).push(
                        ValueV::Text(vals@[i as int]@),
                    ));
                    assert(params_view(params@) =~= params_view(open_p) + texts_of(
                        vals@.take(i + 1),
                    ));
                    assert(template@ =~= open_t + spec_quoted_placeholders(i + 1));
                }
            }
            template.append(")");
            proof {
                assert(vals@.take(vals@.len() as int) =~= vals@);
            }
        },
    }
    proof {
        assert(template@ =~= base_t + spec_type_sql(*d, *dt));
        assert(params_view(params@) =~= params_view(base_p) + spec_type_params(*dt));
    }
}

/// Appends one column definition to the template, and the values it binds
/// to the parameter list.
fn render_column(d: &Dialect, c: &Column, template: &mut String, params: &mut Vec<Value>)
    ensures
        final(template)@ == old(template)@ + spec_column_sql(*d, *c),
        params_view(final(params)@) == params_view(old(params)@) + spec_column_params(*c),
{
    let ghost base_t = template@;
    let ghost base_p = params@;
    template.append("? ");
    push_param(params, Value::Text(c.name.clone()));
    render_type(d, &c.datatype, template, params);
    if c.not_null {
        template.append(" NOT NULL");
    }
    match &c.default {
        Some(v) => {
            template.append(" DEFAULT ?");
            push_param(params, Value::Text(v.clone()));
        },
        None => (),
    }
    if c.auto_increment {
        template.append(" AUTO_INCREMENT");
    }
    proof {
        assert(template@ =~= base_t + spec_column_sql(*d, *c));
        assert(params_view(params@) =~= params_view(base_p) + spec_column_params(*c));
    }
}

/// If no column before position `i` has a generation error, the scan of
/// the whole column list gives the same result as the scan from `i`.
proof fn lemma_cols_scan(t: Table, i: int)
    requires
        0 <= i <= t.columns@.len(),
        forall|j: int|
            0 <= j < i ==> spec_column_gen_error(t.name@, #[trigger] t.columns@[j]) is None,
    ensures
        spec_cols_gen_error(t, 0) == spec_cols_gen_error(t, i),
    decreases i,
{
    if i > 0 {
        lemma_cols_scan(t, i - 1);
    }
}

/// If no table before position `i` has a generation error, the scan of
/// the whole table list gives the same result as the scan from `i`.
proof fn lemma_tables_scan(db: VirtualDatabase, i: int)
    requires
        0 <= i <= db.tables@.len(),
        forall|j: int| 0 <= j < i ==> spec_table_gen_error(#[trigger] db.tables@[j]) is None,
    ensures
        spec_db_gen_error(db, 0) == spec_db_gen_error(db, i),
    decreases i,
{
    if i > 0 {
        lemma_tables_scan(db, i - 1);
    }
}

/// Compiles one table into its `CREATE TABLE` statement. Fails exactly on
/// a table without columns or an enum or set column without declared
/// values (the first such column, in insertion order); referential
/// integrity is deliberately not re-checked here, so a dangling foreign
/// key still renders as well-formed SQL.
pub fn generate_create_table(table: &Table, dialect: &Dialect) -> (r: Result<
    Statement,
    GenerationError,
>)
    ensures
        r is Ok <==> spec_table_gen_error(*table) is None,
        r matches Ok(s) ==> s@ == spec_table_statement(*dialect, *table),
        r matches Err(e) ==> Some(e@) == spec_table_gen_error(*table),
{
    if table.columns.len() == 0 {
        return Err(GenerationError::EmptyColumnList(table.name.clone()));
    }
    for i in 0..table.columns.len()
        invariant
            forall|j: int|
                0 <= j < i ==> spec_column_gen_error(
                    table.name@,
                    #[trigger] table.columns@[j],
                ) is None,
    {
        let c = &table.columns[i];
        let bad: bool = match &c.datatype {
            Datatype::Enum(vals) => vals.len() == 0,
            Datatype::SetOf(vals) => vals.len() == 0,
            _ => false,
        };
        if bad {
            proof {
                lemma_cols_scan(*table, i as int);
            }
            return Err(GenerationError::EmptyValueList(table.name.clone(), c.name.clone()));
        }
    }
    proof {
        lemma_cols_scan(*table, table.columns@.len() as int);
    }
    let mut template = String::new();
    template.append("CREATE TABLE ? (");
    let mut params: Vec<Value> = Vec::new();
    push_param(&mut params, Value::Text(table.name.clone()));
    let ghost t1 = template@;
    let ghost p1 = params@;
    proof {
        assert(t1 =~= "CREATE TABLE ? ("@);
        assert(params_view(p1) =~= seq![ValueV::Text(table.name@)]);
    }
    for i in 0..table.columns.len()
        invariant
            template@ == t1 + spec_columns_sql(*dialect, table.columns@.take(i as int)),
            params_view(params@) == params_view(p1) + spec_columns_params(
                table.columns@.take(i as int),
            ),
    {
        if i > 0 {
            template.append(", ");
        }
        render_column(dialect, &table.columns[i], &mut template, &mut params);
        proof {
            assert(table.columns@.take(i + 1).drop_last() =~= table.columns@.take(i as int));
            assert(table.columns@.take(i + 1).last() == table.columns@[i as int]);
            assert(template@ =~= t1 + spec_columns_sql(*dialect, table.columns@.take(i + 1)));
            assert(params_view(params@) =~= params_view(p1) + spec_columns_params(
                table.columns@.take(i + 1),
            ));
        }
    }
    proof {
        assert(table.columns@.take(table.columns@.len() as int) =~= table.columns@);
    }
    let ghost t2 = template@;
    let ghost p2 = params@;
    if table.primary_keys.len() > 0 {
        template.append(", PRIMARY KEY (");
        let ghost open_t = template@;
        let ghost open_p = params@;
        for i in 0..table.primary_keys.len()
            invariant
                template@ == open_t + spec_plain_placeholders(i as int),
                params_view(params@) == params_view(open_p) + texts_of(
                    table.primary_keys@.take(i as int),
                ),
                open_t == t2 + ", PRIMARY KEY ("@,
                open_p == p2,
        {
            if i > 0 {
                template.append(", ");
            }
            template.append("?");
            push_param(&mut params, Value::Text(table.primary_keys[i].clone()));
            proof {
                assert(table.primary_keys@.take(i + 1).drop_last() =~= table.primary_keys@.take(
                    i as int,
                ));
                assert(texts_of(table.primary_keys@.take(i + 1)) =~= texts_of(
                    table.primary_keys@.take(i as int),
                ).push(ValueV::Text(table.primary_keys@[i as int]@)));
                assert(template@ =~= open_t + spec_plain_placeholders(i + 1));
                assert(params_view(params@) =~= params_view(open_p) + texts_of(
                    table.primary_keys@.take(i + 1),
                ));
            }
        }
        template.append(")");
        proof {
            assert(table.primary_keys@.take(table.primary_keys@.len() as int)
                =~= table.primary_keys@);
        }
    }
    proof {
        assert(template@ =~= t2 + spec_pk_sql(table.primary_keys@));
        assert(params_view(params@) =~= params_view(p2) + texts_of(table.primary_keys@));
    }
    let ghost t3 = template@;
    let ghost p3 = params@;
    for i in 0..table.foreign_keys.len()
        invariant
            template@ == t3 + spec_fks_sql(i as int),
            params_view(params@) == params_view(p3) + spec_fks_params(
                table.foreign_keys@.take(i as int),
            ),
    {
        template.append(", FOREIGN KEY (?) REFERENCES ?(?)");
        let fk = &table.foreign_keys[i];
        push_param(&mut params, Value::Text(fk.local_column.clone()));
        push_param(&mut params, Value::Text(fk.origin_table.clone()));
        push_param(&mut params, Value::Text(fk.origin_column.clone()));
        proof {
            assert(table.foreign_keys@.take(i + 1).drop_last() =~= table.foreign_keys@.take(
                i as int,
            ));
            assert(table.foreign_keys@.take(i + 1).last() == table.foreign_keys@[i as int]);
            assert(template@ =~= t3 + spec_fks_sql(i + 1));
            assert(params_view(params@) =~= params_view(p3) + spec_fks_params(
                table.foreign_keys@.take(i + 1),
            ));
        }
    }
    proof {
        assert(table.foreign_keys@.take(table.foreign_keys@.len() as int)
            =~= table.foreign_keys@);
    }
    let ghost t4 = template@;
    let ghost p4 = params@;
    for i in 0..table.uniques.len()
        invariant
            template@ == t4 + spec_uniques_sql(i as int),
            params_view(params@) == params_view(p4) + texts_of(table.uniques@.take(i as int)),
    {
        template.append(", UNIQUE (?)");
        push_param(&mut params, Value::Text(table.uniques[i].clone()));
        proof {
            assert(table.uniques@.take(i + 1).drop_last() =~= table.uniques@.take(i as int));
            assert(texts_of(table.uniques@.take(i + 1)) =~= texts_of(
                table.uniques@.take(i as int),
            ).push(ValueV::Text(table.uniques@[i as int]@)));
            assert(template@ =~= t4 + spec_uniques_sql(i + 1));
            assert(params_view(params@) =~= params_view(p4) + texts_of(
                table.uniques@.take(i + 1),
            ));
        }
    }
    proof {
        assert(table.uniques@.take(table.uniques@.len() as int) =~= table.uniques@);
    }
    let ghost t5 = template@;
    let ghost p5 = params@;
    for i in 0..table.indices.len()
        invariant
            template@ == t5 + spec_indices_sql(table.indices@.take(i as int)),
            params_view(params@) == params_view(p5) + spec_indices_params(
                table.indices@.take(i as int),
            ),
    {
        template.append(", INDEX (");
        let ghost open_t = template@;
        let ghost open_p = params@;
        let ix = &table.indices[i];
        for k in 0..ix.columns.len()
            invariant
                template@ == open_t + spec_plain_placeholders(k as int),
                params_view(params@) == params_view(open_p) + texts_of(ix.columns@.take(k as int)),
                open_t == t5 + spec_indices_sql(table.indices@.take(i as int)) + ", INDEX ("@,
                params_view(open_p) == params_view(p5) + spec_indices_params(
                    table.indices@.take(i as int),
                ),
                *ix == table.indices@[i as int],
                0 <= i < table.indices@.len(),
        {
            if k > 0 {
                template.append(", ");
            }
            template.append("?");
            push_param(&mut params, Value::Text(ix.columns[k].clone()));
            proof {
                assert(ix.columns@.take(k + 1).drop_last() =~= ix.columns@.take(k as int));
                assert(texts_of(ix.columns@.take(k + 1)) =~= texts_of(
                    ix.columns@.take(k as int),
                ).push(ValueV::Text(ix.columns@[k as int]@)));
                assert(template@ =~= open_t + spec_plain_placeholders(k + 1));
                assert(params_view(params@) =~= params_view(open_p) + texts_of(
                    ix.columns@.take(k + 1),
                ));
            }
        }
        template.append(")");
        proof {
            assert(ix.columns@.take(ix.columns@.len() as int) =~= ix.columns@);
            assert(table.indices@.take(i + 1).drop_last() =~= table.indices@.take(i as int));
            assert(table.indices@.take(i + 1).last() == table.indices@[i as int]);
            assert(template@ =~= t5 + spec_indices_sql(table.indices@.take(i + 1)));
            assert(params_view(params@) =~= params_view(p5) + spec_indices_params(
                table.indices@.take(i + 1),
            ));
        }
    }
    proof {
        assert(table.indices@.take(table.indices@.len() as int) =~= table.indices@);
    }
    template.append(");");
    let stmt = Statement { template, parameters: params };
    proof {
        assert(stmt@.template =~= spec_table_template(*dialect, *table));
        assert(stmt@.parameters =~= spec_table_params(*table));
    }
    Ok(stmt)
}

/// Appends one statement, tracking the ghost image of the vector.
fn push_statement(out: &mut Vec<Statement>, s: Statement)
    ensures
        stmts_view(final(out)@) == stmts_view(old(out)@).push(s@),
{
    let ghost base = out@;
    out.push(s);
    proof {
        assert(stmts_view(out@) =~~= stmts_view(base).push(out@.last()@));
    }
}

/// Compiles one user into its `CREATE USER` statement and the `GRANT`
/// statement for the named database, in that order.
pub fn generate_create_user(user: &User, database_name: &str) -> (r: (Statement, Statement))
    ensures
        r.0@ == spec_user_statement(*user),
        r.1@ == spec_grant_statement(*user, database_name@),
{
    let mut create_params: Vec<Value> = Vec::new();
    push_param(&mut create_params, Value::Text(user.name.clone()));
    push_param(&mut create_params, Value::Text(user.host.clone()));
    push_param(&mut create_params, Value::Text(user.password.clone()));
    let create = Statement {
        template: "CREATE USER '?'@'?' IDENTIFIED BY '?';".to_owned(),
        parameters: create_params,
    };
    let mut grant_params: Vec<Value> = Vec::new();
    push_param(&mut grant_params, Value::Text(database_name.to_owned()));
    push_param(&mut grant_params, Value::Text(user.name.clone()));
    push_param(&mut grant_params, Value::Text(user.host.clone()));
    let grant_template: String = match user.role {
        UserType::Admin => "GRANT ALL ON ?.* TO '?'@'?' WITH GRANT OPTION;".to_owned(),
        UserType::CRUD => "GRANT INSERT, SELECT, UPDATE, DELETE ON ?.* TO '?'@'?';".to_owned(),
    };
    let grant = Statement { template: grant_template, parameters: grant_params };
    proof {
        assert(create@ =~~= spec_user_statement(*user));
        assert(grant@ =~~= spec_grant_statement(*user, database_name@));
    }
    (create, grant)
}

/// Compiles a whole database into its ordered statement sequence: CREATE
/// DATABASE, then one CREATE USER and one GRANT per user in input order,
/// then one CREATE TABLE per table in input order. Later statements assume
/// earlier ones committed, so the order is mandatory. Fails exactly when
/// some table cannot be rendered, with the first such table's error.
pub fn generate_create_database(db: &VirtualDatabase, dialect: &Dialect) -> (r: Result<
    Vec<Statement>,
    GenerationError,
>)
    ensures
        r is Ok <==> spec_db_gen_error(*db, 0) is None,
        r matches Ok(stmts) ==> stmts_view(stmts@) == spec_generate(*dialect, *db),
        r matches Err(e) ==> Some(e@) == spec_db_gen_error(*db, 0),
{
    let mut out: Vec<Statement> = Vec::new();
    let mut db_params: Vec<Value> = Vec::new();
    push_param(&mut db_params, Value::Text(db.name.clone()));
    push_statement(
        &mut out,
        Statement { template: "CREATE DATABASE ?;".to_owned(), parameters: db_params },
    );
    proof {
        assert(stmts_view(out@) =~~= seq![spec_db_statement(db.name@)]);
    }
    let ghost s1 = out@;
    for i in 0..db.users.len()
        invariant
            stmts_view(out@) == stmts_view(s1) + spec_user_statements(
                db.users@,
                db.name@,
                i as int,
            ),
    {
        let (create, grant) = generate_create_user(&db.users[i], db.name.as_str());
        push_statement(&mut out, create);
        push_statement(&mut out, grant);
        proof {
            assert(stmts_view(out@) =~~= stmts_view(s1) + spec_user_statements(
                db.users@,
                db.name@,
                i + 1,
            ));
        }
    }
    let ghost s2 = out@;
    proof {
        assert(stmts_view(s2) =~~= seq![spec_db_statement(db.name@)] + spec_user_statements(
            db.users@,
            db.name@,
            db.users@.len() as int,
        ));
    }
    for i in 0..db.tables.len()
        invariant
            stmts_view(out@) == stmts_view(s2) + spec_table_statements(
                *dialect,
                db.tables@,
                i as int,
            ),
            forall|j: int| 0 <= j < i ==> spec_table_gen_error(#[trigger] db.tables@[j]) is None,
            stmts_view(s2) == seq![spec_db_statement(db.name@)] + spec_user_statements(
                db.users@,
                db.name@,
                db.users@.len() as int,
            ),
    {
        match generate_create_table(&db.tables[i], dialect) {
            Ok(s) => {
                push_statement(&mut out, s);
            },
            Err(e) => {
                proof {
                    lemma_tables_scan(*db, i as int);
                }
                return Err(e);
            },
        }
        proof {
            assert(stmts_view(out@) =~~= stmts_view(s2) + spec_table_statements(
                *dialect,
                db.tables@,
                i + 1,
            ));
        }
    }
    proof {
        lemma_tables_scan(*db, db.tables@.len() as int);
        assert(stmts_view(out@) =~~= spec_generate(*dialect, *db));
    }
    Ok(out)
}

/// Every value bound in the INDEX clauses of a table whose indices are
/// well-formed is the name of an existing column of that table.
proof fn lemma_indices_params_sound(t: Table, ixs: Seq<Index>)
    requires
        forall|i: int| 0 <= i < ixs.len() ==> t.spec_index_wf(#[trigger] ixs[i]),
    ensures
        forall|k: int|
            0 <= k < spec_indices_params(ixs).len() ==> (#[trigger] spec_indices_params(
                ixs,
            )[k] matches ValueV::Text(n) && t.spec_has_column(n)),
    decreases ixs.len(),
{
    if ixs.len() > 0 {
        assert(forall|i: int| 0 <= i < ixs.drop_last().len() ==> ixs.drop_last()[i] == ixs[i]);
        lemma_indices_params_sound(t, ixs.drop_last());
        let prefix = spec_indices_params(ixs.drop_last());
        let last = ixs.last();
        assert(t.spec_index_wf(last));
        assert forall|k: int| 0 <= k < spec_indices_params(ixs).len() implies (
        #[trigger] spec_indices_params(ixs)[k] matches ValueV::Text(n) && t.spec_has_column(
            n,
        )) by {
            if k < prefix.len() {
                assert(spec_indices_params(ixs)[k] == prefix[k]);
            } else {
                let j = k - prefix.len();
                assert(spec_indices_params(ixs)[k] == texts_of(last.columns@)[j]);
                assert(texts_of(last.columns@)[j] == ValueV::Text(last.columns@[j]@));
            }
        };
    }
}

/// Referential soundness of the generated DDL: in the CREATE TABLE
/// statement of a well-formed table, every column name bound in the
/// PRIMARY KEY clause, in a UNIQUE clause or in an INDEX clause names an
/// existing column of that table. The bound values of those clauses are
/// exactly the `texts_of(primary_keys)`, `texts_of(uniques)` and
/// `spec_indices_params(indices)` segments of `spec_table_params`.
pub proof fn lemma_generated_keys_reference_columns(t: Table)
    requires
        t.wf(),
    ensures
        forall|k: int|
            0 <= k < t.primary_keys@.len() ==> #[trigger] texts_of(t.primary_keys@)[k]
                == ValueV::Text(t.primary_keys@[k]@) && t.spec_has_column(t.primary_keys@[k]@),
        forall|k: int|
            0 <= k < t.uniques@.len() ==> #[trigger] texts_of(t.uniques@)[k] == ValueV::Text(
                t.uniques@[k]@,
            ) && t.spec_has_column(t.uniques@[k]@),
        forall|k: int|
            0 <= k < spec_indices_params(t.indices@).len() ==> (#[trigger] spec_indices_params(
                t.indices@,
            )[k] matches ValueV::Text(n) && t.spec_has_column(n)),
{
    lemma_indices_params_sound(t, t.indices@);
}

/// Determinism: the generator's result is pinned to `spec_generate`, a
/// function of the model and the dialect alone, so regenerating from the
/// same model yields an identical statement sequence.
pub proof fn lemma_generation_deterministic(
    d: Dialect,
    db: VirtualDatabase,
    r1: Seq<StatementV>,
    r2: Seq<StatementV>,
)
    requires
        r1 == spec_generate(d, db),
        r2 == spec_generate(d, db),
    ensures
        r1 == r2,
{
}

/// The FOREIGN KEY clauses bind exactly the declared triples: for the
/// `k`-th foreign key, the three values at positions `3k`, `3k+1` and
/// `3k+2` of the foreign-key segment are its local column, its declared
/// origin table and its declared origin column, verbatim.
pub proof fn lemma_fk_params_match_declaration(fks: Seq<ForeignKey>)
    ensures
        spec_fks_params(fks).len() == 3 * fks.len(),
        forall|k: int|
            0 <= k < fks.len() ==> spec_fks_params(fks)[3 * k] == ValueV::Text(
                (#[trigger] fks[k])@.local_column,
            ) && spec_fks_params(fks)[3 * k + 1] == ValueV::Text(fks[k]@.origin_table)
                && spec_fks_params(fks)[3 * k + 2] == ValueV::Text(fks[k]@.origin_column),
    decreases fks.len(),
{
    if fks.len() > 0 {
        assert(forall|i: int| 0 <= i < fks.drop_last().len() ==> fks.drop_last()[i] == fks[i]);
        lemma_fk_params_match_declaration(fks.drop_last());
        let prefix = spec_fks_params(fks.drop_last());
        assert forall|k: int| 0 <= k < fks.len() implies spec_fks_params(fks)[3 * k]
            == ValueV::Text((#[trigger] fks[k])@.local_column) && spec_fks_params(fks)[3 * k + 1]
            == ValueV::Text(fks[k]@.origin_table) && spec_fks_params(fks)[3 * k + 2]
            == ValueV::Text(fks[k]@.origin_column) by {
            if k < fks.len() - 1 {
                assert(spec_fks_params(fks)[3 * k] == prefix[3 * k]);
                assert(spec_fks_params(fks)[3 * k + 1] == prefix[3 * k + 1]);
                assert(spec_fks_params(fks)[3 * k + 2] == prefix[3 * k + 2]);
            } else {
                assert(3 * k == prefix.len());
            }
        };
    }
}

/// The per-user segment holds two statements per user.
proof fn lemma_user_statements_len(users: Seq<User>, dbname: Seq<char>, n: int)
    requires
        0 <= n,
    ensures
        spec_user_statements(users, dbname, n).len() == 2 * n,
    decreases n,
{
    if n > 0 {
        lemma_user_statements_len(users, dbname, n - 1);
    }
}

/// The `i`-th statement of the table segment is the `i`-th table's own
/// statement.
proof fn lemma_table_statements_index(d: Dialect, tables: Seq<Table>, n: int, i: int)
    requires
        0 <= i < n <= tables.len(),
    ensures
        spec_table_statements(d, tables, n).len() == n,
        spec_table_statements(d, tables, n)[i] == spec_table_statement(d, tables[i]),
    decreases n,
{
    if n > 0 {
        if i < n - 1 {
            lemma_table_statements_index(d, tables, n - 1, i);
        } else if n >= 2 {
            lemma_table_statements_index(d, tables, n - 1, n - 2);
        }
    }
}

/// Order independence: a table's CREATE TABLE statement is a function of
/// the table and the dialect alone. Wherever the same table value stands
/// in two databases — whatever its position among the other tables — the
/// generated statement at its slot is the same, FOREIGN KEY clauses
/// included.
pub proof fn lemma_table_statement_order_independent(
    d: Dialect,
    db1: VirtualDatabase,
    db2: VirtualDatabase,
    i: int,
    j: int,
)
    requires
        0 <= i < db1.tables@.len(),
        0 <= j < db2.tables@.len(),
        db1.tables@[i] == db2.tables@[j],
    ensures
        spec_generate(d, db1)[1 + 2 * db1.users@.len() + i] == spec_generate(d, db2)[1 + 2
            * db2.users@.len() + j],
        spec_generate(d, db1)[1 + 2 * db1.users@.len() + i] == spec_table_statement(
            d,
            db1.tables@[i],
        ),
{
    lemma_user_statements_len(db1.users@, db1.name@, db1.users@.len() as int);
    lemma_user_statements_len(db2.users@, db2.name@, db2.users@.len() as int);
    lemma_table_statements_index(d, db1.tables@, db1.tables@.len() as int, i);
    lemma_table_statements_index(d, db2.tables@, db2.tables@.len() as int, j);
}

} // verus!
