//! The validation engine: pure checks of a `VirtualDatabase` for internal
//! consistency, reported as a classified list of findings.
//!
//! Every check runs (none short-circuits) and none mutates the model.
//! Findings are informational: the statement generator runs regardless, and
//! treating `Error` findings as build-blocking is the caller's convention.

use vstd::prelude::*;
use vstd::string::StrSliceExecFns;

use crate::datatype::Datatype;
use crate::schema::{Column, Table, User, VirtualDatabase};
use crate::text::{lower_of, lowercase, str_seq_view};

verus! {

/// How severe a finding is. `Error` findings are expected to block
/// statement generation by convention; `Warning` findings are advisory.
#[derive(Debug, Clone, Copy, PartialEq, Eq, Structural)]
pub enum Severity {
    Error,
    Warning,
}

/// What kind of problem a finding reports.
#[derive(Debug, Clone, Copy, PartialEq, Eq, Structural)]
pub enum FindingKind {
    /// A name collides with a reserved word of the target dialect.
    ReservedName,
    /// A name is empty.
    EmptyName,
    /// A name starts with a decimal digit; legal with quoting, but flagged.
    NameStartsWithDigit,
    /// A primary-key column name does not exist among the table's columns.
    UnknownPrimaryKeyColumn,
    /// A foreign key's origin table does not exist in the database.
    UnknownForeignKeyTable,
    /// A foreign key's origin column does not exist in its origin table.
    UnknownForeignKeyColumn,
    /// More than one column of a table auto-increments.
    DuplicateAutoIncrement,
    /// A default literal is not representable in its column's datatype.
    IncompatibleDefault,
    /// A table has no primary-key column.
    MissingPrimaryKey,
    /// A varchar column declares a maximum length of zero.
    VarcharLengthZero,
}

/// Where in the model a finding points.
#[derive(Debug, Clone, PartialEq)]
pub enum Location {
    /// The user with this name.
    User(String),
    /// The table with this name.
    Table(String),
    /// A column: table name, column name.
    Column(String, String),
    /// A primary-key entry: table name, declared column name.
    PrimaryKey(String, String),
    /// A foreign key: table name, position in the table's declaration
    /// order.
    ForeignKey(String, usize),
}

/// The ghost image of a location.
pub enum LocationV {
    User(Seq<char>),
    Table(Seq<char>),
    Column(Seq<char>, Seq<char>),
    PrimaryKey(Seq<char>, Seq<char>),
    ForeignKey(Seq<char>, int),
}

impl View for Location {
    type V = LocationV;

    open spec fn view(&self) -> LocationV {
        match self {
            Location::User(n) => LocationV::User(n@),
            Location::Table(n) => LocationV::Table(n@),
            Location::Column(t, c) => LocationV::Column(t@, c@),
            Location::PrimaryKey(t, c) => LocationV::PrimaryKey(t@, c@),
            Location::ForeignKey(t, i) => LocationV::ForeignKey(t@, *i as int),
        }
    }
}

/// One problem the validator found.
#[derive(Debug, Clone, PartialEq)]
pub struct Finding {
    pub severity: Severity,
    pub location: Location,
    pub kind: FindingKind,
}

/// The ghost image of a finding.
pub struct FindingV {
    pub severity: Severity,
    pub location: LocationV,
    pub kind: FindingKind,
}

impl View for Finding {
    type V = FindingV;

    open spec fn view(&self) -> FindingV {
        FindingV { severity: self.severity, location: self.location@, kind: self.kind }
    }
}

/// The ghost images of a sequence of findings.
pub open spec fn findings_view(s: Seq<Finding>) -> Seq<FindingV> {
    s.map_values(|f: Finding| f@)
}

/// The reserved words of the target dialect, compared against the
/// lower-case form of a name. The list is a fixed, conservative selection
/// of words reserved by common SQL dialects.
pub open spec fn spec_is_reserved(n: Seq<char>) -> bool {
    ||| n == "select"@
    ||| n == "from"@
    ||| n == "where"@
    ||| n == "insert"@
    ||| n == "into"@
    ||| n == "update"@
    ||| n == "delete"@
    ||| n == "create"@
    ||| n == "drop"@
    ||| n == "alter"@
    ||| n == "table"@
    ||| n == "database"@
    ||| n == "index"@
    ||| n == "key"@
    ||| n == "primary"@
    ||| n == "foreign"@
    ||| n == "references"@
    ||| n == "unique"@
    ||| n == "not"@
    ||| n == "null"@
    ||| n == "default"@
    ||| n == "and"@
    ||| n == "or"@
    ||| n == "order"@
    ||| n == "group"@
    ||| n == "by"@
    ||| n == "join"@
    ||| n == "grant"@
    ||| n == "values"@
    ||| n == "union"@
    ||| n == "distinct"@
    ||| n == "having"@
    ||| n == "limit"@
    ||| n == "int"@
    ||| n == "varchar"@
}

/// A decimal digit.
pub open spec fn spec_is_digit(c: char) -> bool {
    48 <= c as u32 <= 57
}

/// A non-empty string of decimal digits.
pub open spec fn spec_all_digits(v: Seq<char>) -> bool {
    v.len() > 0 && forall|i: int| 0 <= i < v.len() ==> spec_is_digit(#[trigger] v[i])
}

/// The numeric value of a string of decimal digits, most significant
/// first.
pub open spec fn spec_digits_value(v: Seq<char>) -> int
    decreases v.len(),
{
    if v.len() == 0 {
        0
    } else {
        spec_digits_value(v.drop_last()) * 10 + (v.last() as u32 - 48)
    }
}

/// A non-empty digit string whose numeric value is at most `max`.
pub open spec fn spec_fits_unsigned(v: Seq<char>, max: int) -> bool {
    spec_all_digits(v) && spec_digits_value(v) <= max
}

/// An optionally negated digit string: its value is at most `max` when
/// plain, and its magnitude at most `min_abs` when negated.
pub open spec fn spec_fits_signed(v: Seq<char>, min_abs: int, max: int) -> bool {
    spec_fits_unsigned(v, max) || (v.len() > 1 && v[0] == '-' && spec_fits_unsigned(
        v.skip(1),
        min_abs,
    ))
}

/// A plain decimal number: digits, or digits on both sides of a single
/// interior point.
pub open spec fn spec_unsigned_decimal(v: Seq<char>) -> bool {
    spec_all_digits(v) || (exists|i: int|
        0 < i < v.len() && #[trigger] v[i] == '.' && spec_all_digits(v.take(i)) && spec_all_digits(
            v.skip(i + 1),
        ))
}

/// An optionally negated decimal number. Lexical only: float magnitudes
/// are not compared.
pub open spec fn spec_is_float_literal(v: Seq<char>) -> bool {
    spec_unsigned_decimal(v) || (v.len() > 1 && v[0] == '-' && spec_unsigned_decimal(v.skip(1)))
}

/// The value of the two digits at positions `i` and `i + 1`.
pub open spec fn spec_two_digits_value(v: Seq<char>, i: int) -> int {
    (v[i] as u32 - 48) * 10 + (v[i + 1] as u32 - 48)
}

/// The shape `YYYY-MM-DD`, with the month in 1..=12 and the day in 1..=31
/// (no per-month or leap rule).
pub open spec fn spec_is_date_literal(v: Seq<char>) -> bool {
    &&& v.len() == 10
    &&& spec_is_digit(v[0]) && spec_is_digit(v[1]) && spec_is_digit(v[2]) && spec_is_digit(v[3])
    &&& v[4] == '-'
    &&& spec_is_digit(v[5]) && spec_is_digit(v[6])
    &&& v[7] == '-'
    &&& spec_is_digit(v[8]) && spec_is_digit(v[9])
    &&& 1 <= spec_two_digits_value(v, 5) <= 12
    &&& 1 <= spec_two_digits_value(v, 8) <= 31
}

/// The shape `HH:MM:SS`, with the hour at most 23 and the minute and
/// second at most 59.
pub open spec fn spec_is_time_literal(v: Seq<char>) -> bool {
    &&& v.len() == 8
    &&& spec_is_digit(v[0]) && spec_is_digit(v[1])
    &&& v[2] == ':'
    &&& spec_is_digit(v[3]) && spec_is_digit(v[4])
    &&& v[5] == ':'
    &&& spec_is_digit(v[6]) && spec_is_digit(v[7])
    &&& spec_two_digits_value(v, 0) <= 23
    &&& spec_two_digits_value(v, 3) <= 59
    &&& spec_two_digits_value(v, 6) <= 59
}

/// A date literal, a space, and a time literal.
pub open spec fn spec_is_datetime_literal(v: Seq<char>) -> bool {
    v.len() == 19 && spec_is_date_literal(v.take(10)) && v[10] == ' '
        && spec_is_time_literal(v.skip(11))
}

/// Four digits.
pub open spec fn spec_is_year_literal(v: Seq<char>) -> bool {
    v.len() == 4 && spec_all_digits(v)
}

/// Whether a default literal is representable in a datatype. Integer
/// defaults must parse as optionally signed digit strings within the
/// width's range; float and double defaults as optionally signed decimal
/// numbers (lexical shape only — no magnitude comparison); boolean
/// defaults are one of the four common literals; varchar defaults must fit
/// the declared length; date, time and date-time defaults must have the
/// shapes `YYYY-MM-DD`, `HH:MM:SS` and `YYYY-MM-DD HH:MM:SS` with fields
/// in their plain ranges (day at most 31, with no per-month or leap rule);
/// year defaults are four digits; enum and set defaults must be one of the
/// declared values.
pub open spec fn spec_default_fits(dt: Datatype, v: Seq<char>) -> bool {
    match dt {
        Datatype::Int8 => spec_fits_signed(v, 128, 127),
        Datatype::Int16 => spec_fits_signed(v, 32768, 32767),
        Datatype::Int32 => spec_fits_signed(v, 2147483648, 2147483647),
        Datatype::Int64 => spec_fits_signed(v, 9223372036854775808, 9223372036854775807),
        Datatype::Uint8 => spec_fits_unsigned(v, 255),
        Datatype::Uint16 => spec_fits_unsigned(v, 65535),
        Datatype::Uint32 => spec_fits_unsigned(v, 4294967295),
        Datatype::Uint64 => spec_fits_unsigned(v, 18446744073709551615),
        Datatype::Float => spec_is_float_literal(v),
        Datatype::Double => spec_is_float_literal(v),
        Datatype::Boolean => v == "0"@ || v == "1"@ || v == "true"@ || v == "false"@,
        Datatype::Varchar(n) => v.len() <= n,
        Datatype::Date => spec_is_date_literal(v),
        Datatype::Time => spec_is_time_literal(v),
        Datatype::DateTime => spec_is_datetime_literal(v),
        Datatype::Year => spec_is_year_literal(v),
        Datatype::Enum(vals) => str_seq_view(vals@).contains(v),
        Datatype::SetOf(vals) => str_seq_view(vals@).contains(v),
    }
}

/// The fixed severity of each finding kind.
pub open spec fn spec_severity_of(k: FindingKind) -> Severity {
    match k {
        FindingKind::NameStartsWithDigit => Severity::Warning,
        FindingKind::MissingPrimaryKey => Severity::Warning,
        FindingKind::VarcharLengthZero => Severity::Warning,
        _ => Severity::Error,
    }
}

/// A finding of the given kind at the given location, with its fixed
/// severity.
pub open spec fn spec_finding(loc: LocationV, k: FindingKind) -> FindingV {
    FindingV { severity: spec_severity_of(k), location: loc, kind: k }
}

/// The name-legality findings for one name: reserved word (error), empty
/// (error), starts with a digit (warning). Each check is independent.
pub open spec fn spec_name_findings(loc: LocationV, name: Seq<char>) -> Seq<FindingV> {
    (if spec_is_reserved(lower_of(name)) {
        seq![spec_finding(loc, FindingKind::ReservedName)]
    } else {
        Seq::empty()
    }) + (if name.len() == 0 {
        seq![spec_finding(loc, FindingKind::EmptyName)]
    } else {
        Seq::empty()
    }) + (if name.len() > 0 && spec_is_digit(name[0]) {
        seq![spec_finding(loc, FindingKind::NameStartsWithDigit)]
    } else {
        Seq::empty()
    })
}

/// The findings for one column: name legality, default compatibility, and
/// the zero-length-varchar warning.
pub open spec fn spec_column_findings(tname: Seq<char>, c: Column) -> Seq<FindingV> {
    let loc = LocationV::Column(tname, c.name@);
    spec_name_findings(loc, c.name@) + (match c.default {
        Some(d) => if !spec_default_fits(c.datatype, d@) {
            seq![spec_finding(loc, FindingKind::IncompatibleDefault)]
        } else {
            Seq::empty()
        },
        None => Seq::empty(),
    }) + (if c.datatype == Datatype::Varchar(0u16) {
        seq![spec_finding(loc, FindingKind::VarcharLengthZero)]
    } else {
        Seq::empty()
    })
}

/// The column findings of the first `n` columns of a table.
pub open spec fn spec_columns_findings(t: Table, n: int) -> Seq<FindingV>
    decreases n,
{
    if n <= 0 {
        Seq::empty()
    } else {
        spec_columns_findings(t, n - 1) + spec_column_findings(t.name@, t.columns@[n - 1])
    }
}

/// The referential findings of the first `n` primary-key entries: each
/// declared name must exist among the table's columns. Under the model's
/// own invariant this can never fire; the check is a defensive assertion
/// against models built outside the mutators.
pub open spec fn spec_pks_findings(t: Table, n: int) -> Seq<FindingV>
    decreases n,
{
    if n <= 0 {
        Seq::empty()
    } else {
        spec_pks_findings(t, n - 1) + (if t.spec_has_column(t.primary_keys@[n - 1]@) {
            Seq::empty()
        } else {
            seq![
                spec_finding(
                    LocationV::PrimaryKey(t.name@, t.primary_keys@[n - 1]@),
                    FindingKind::UnknownPrimaryKeyColumn,
                ),
            ]
        })
    }
}

/// Some table of this name lacks the column. Where table names are unique
/// (the model's invariant) this is the same as "the table of this name
/// lacks the column".
pub open spec fn spec_origin_column_missing(db: VirtualDatabase, ot: Seq<char>, oc: Seq<char>) -> bool {
    exists|i: int|
        0 <= i < db.tables@.len() && db.tables@[i].name@ == ot && !db.tables@[i].spec_has_column(oc)
}

/// The referential findings of the first `n` foreign keys of a table: the
/// origin table must exist in the database (self-references are permitted:
/// the owning table is one of the database's tables), and the origin
/// column must exist in that table.
pub open spec fn spec_fks_findings(db: VirtualDatabase, t: Table, n: int) -> Seq<FindingV>
    decreases n,
{
    if n <= 0 {
        Seq::empty()
    } else {
        spec_fks_findings(db, t, n - 1) + ({
            let fk = t.foreign_keys@[n - 1];
            let loc = LocationV::ForeignKey(t.name@, n - 1);
            if !db.spec_has_table(fk@.origin_table) {
                seq![spec_finding(loc, FindingKind::UnknownForeignKeyTable)]
            } else if spec_origin_column_missing(db, fk@.origin_table, fk@.origin_column) {
                seq![spec_finding(loc, FindingKind::UnknownForeignKeyColumn)]
            } else {
                Seq::empty()
            }
        })
    }
}

/// The auto-increment cardinality finding: at most one column of a table
/// may auto-increment. Defensive, as for the primary-key check.
pub open spec fn spec_autoinc_findings(t: Table) -> Seq<FindingV> {
    if exists|i: int, j: int|
        0 <= i < j < t.columns@.len() && t.columns@[i].auto_increment
            && t.columns@[j].auto_increment {
        seq![spec_finding(LocationV::Table(t.name@), FindingKind::DuplicateAutoIncrement)]
    } else {
        Seq::empty()
    }
}

/// The missing-primary-key warning: syntactically legal, but flagged.
pub open spec fn spec_missing_pk_findings(t: Table) -> Seq<FindingV> {
    if t.primary_keys@.len() == 0 {
        seq![spec_finding(LocationV::Table(t.name@), FindingKind::MissingPrimaryKey)]
    } else {
        Seq::empty()
    }
}

/// All findings of one table, in a fixed order: table name legality,
/// columns, primary keys, foreign keys, auto-increment cardinality,
/// missing primary key.
pub open spec fn spec_table_findings(db: VirtualDatabase, t: Table) -> Seq<FindingV> {
    spec_name_findings(LocationV::Table(t.name@), t.name@) + spec_columns_findings(
        t,
        t.columns@.len() as int,
    ) + spec_pks_findings(t, t.primary_keys@.len() as int) + spec_fks_findings(
        db,
        t,
        t.foreign_keys@.len() as int,
    ) + spec_autoinc_findings(t) + spec_missing_pk_findings(t)
}

/// The name-legality findings of the first `n` users.
pub open spec fn spec_users_findings(users: Seq<User>, n: int) -> Seq<FindingV>
    decreases n,
{
    if n <= 0 {
        Seq::empty()
    } else {
        spec_users_findings(users, n - 1) + spec_name_findings(
            LocationV::User(users[n - 1].name@),
            users[n - 1].name@,
        )
    }
}

/// The table findings of the first `n` tables.
pub open spec fn spec_tables_findings(db: VirtualDatabase, n: int) -> Seq<FindingV>
    decreases n,
{
    if n <= 0 {
        Seq::empty()
    } else {
        spec_tables_findings(db, n - 1) + spec_table_findings(db, db.tables@[n - 1])
    }
}

/// Everything the validator reports for a database, in a fixed traversal
/// order: each user in order, then each table in order. Name legality is
/// screened for table, column and user names; the database's own name is
/// only carried into the generated statements, never screened.
pub open spec fn spec_validate(db: VirtualDatabase) -> Seq<FindingV> {
    spec_users_findings(db.users@, db.users@.len() as int) + spec_tables_findings(
        db,
        db.tables@.len() as int,
    )
}

impl Location {
    /// An equal copy, written by hand so that the equality is known to the
    /// verifier.
    fn duplicate(&self) -> (r: Location)
        ensures
            r == *self,
    {
        match self {
            Location::User(n) => Location::User(n.clone()),
            Location::Table(n) => Location::Table(n.clone()),
            Location::Column(t, c) => Location::Column(t.clone(), c.clone()),
            Location::PrimaryKey(t, c) => Location::PrimaryKey(t.clone(), c.clone()),
            Location::ForeignKey(t, i) => Location::ForeignKey(t.clone(), *i),
        }
    }
}

/// Compares a string against a literal.
fn eq_lit(s: &String, lit: &str) -> (r: bool)
    ensures
        r == (s@ == lit@),
{
    *s == lit.to_owned()
}

/// Reports whether a (lower-case) name is one of the reserved words.
fn is_reserved_word(s: &String) -> (r: bool)
    ensures
        r == spec_is_reserved(s@),
{
    eq_lit(s, "select") || eq_lit(s, "from") || eq_lit(s, "where") || eq_lit(s, "insert") || eq_lit(
        s,
        "into",
    ) || eq_lit(s, "update") || eq_lit(s, "delete") || eq_lit(s, "create") || eq_lit(s, "drop")
        || eq_lit(s, "alter") || eq_lit(s, "table") || eq_lit(s, "database") || eq_lit(s, "index")
        || eq_lit(s, "key") || eq_lit(s, "primary") || eq_lit(s, "foreign") || eq_lit(
        s,
        "references",
    ) || eq_lit(s, "unique") || eq_lit(s, "not") || eq_lit(s, "null") || eq_lit(s, "default")
        || eq_lit(s, "and") || eq_lit(s, "or") || eq_lit(s, "order") || eq_lit(s, "group")
        || eq_lit(s, "by") || eq_lit(s, "join") || eq_lit(s, "grant") || eq_lit(s, "values")
        || eq_lit(s, "union") || eq_lit(s, "distinct") || eq_lit(s, "having") || eq_lit(s, "limit")
        || eq_lit(s, "int") || eq_lit(s, "varchar")
}

/// Reports whether a name passes the reserved-word check: `false` exactly
/// when the name, compared case-insensitively, is a reserved word of the
/// target dialect.
pub fn validate_name(name: &str) -> (r: bool)
    ensures
        r == !spec_is_reserved(lower_of(name@)),
{
    let lowered = lowercase(name);
    !is_reserved_word(&lowered)
}

/// Reports whether the string starts with a decimal digit.
fn starts_with_digit(s: &String) -> (r: bool)
    ensures
        r == (s@.len() > 0 && spec_is_digit(s@[0])),
{
    if s.as_str().is_empty() {
        return false;
    }
    let c = s.as_str().get_char(0);
    let u = c as u32;
    48 <= u && u <= 57
}

/// Reads the digit string that starts at character `start` and runs to the
/// end. Gives its value when every remaining character is a digit and the
/// value fits a `u64`; gives nothing on a non-digit or a larger value.
fn digits_value_checked(slice: &str, start: usize) -> (r: Option<u64>)
    requires
        start < slice@.len(),
    ensures
        ({
            let tail = slice@.skip(start as int);
            match r {
                Some(val) => spec_all_digits(tail) && val as int == spec_digits_value(tail),
                None => !(spec_all_digits(tail) && spec_digits_value(tail) <= u64::MAX as int),
            }
        }),
{
    let n = slice.unicode_len();
    let mut acc: u64 = 0;
    let mut too_big = false;
    for i in start..n
        invariant
            n == slice@.len(),
            start < n,
            forall|j: int| start <= j < i ==> spec_is_digit(#[trigger] slice@[j]),
            !too_big ==> acc as int == spec_digits_value(
                slice@.subrange(start as int, i as int),
            ),
            too_big ==> spec_digits_value(slice@.subrange(start as int, i as int)) > u64::MAX
                as int,
    {
        let c = slice.get_char(i);
        let u = c as u32;
        if !(48 <= u && u <= 57) {
            proof {
                let tail = slice@.skip(start as int);
                assert(tail[i - start] == slice@[i as int]);
                assert(!spec_is_digit(tail[i - start]));
                assert(!spec_all_digits(tail));
            }
            return None;
        }
        let d: u64 = (u - 48) as u64;
        proof {
            assert(slice@.subrange(start as int, i + 1).drop_last() =~= slice@.subrange(
                start as int,
                i as int,
            ));
            assert(slice@.subrange(start as int, i + 1).last() == slice@[i as int]);
        }
        if too_big {
            proof {
                assert(spec_digits_value(slice@.subrange(start as int, i + 1)) > u64::MAX as int);
            }
        } else {
            let wide: u128 = (acc as u128) * 10 + (d as u128);
            proof {
                assert(wide as int == spec_digits_value(slice@.subrange(start as int, i + 1)));
            }
            if wide > u64::MAX as u128 {
                too_big = true;
            } else {
                acc = wide as u64;
            }
        }
    }
    proof {
        assert(slice@.subrange(start as int, n as int) =~= slice@.skip(start as int));
    }
    if too_big {
        return None;
    }
    Some(acc)
}

/// Reports whether the string is a non-empty digit string whose value is
/// at most `max`.
fn unsigned_fits(s: &String, max: u64) -> (r: bool)
    ensures
        r == spec_fits_unsigned(s@, max as int),
{
    let slice = s.as_str();
    if slice.is_empty() {
        return false;
    }
    proof {
        assert(slice@.skip(0) =~= s@);
    }
    match digits_value_checked(slice, 0) {
        Some(val) => val <= max,
        None => {
            proof {
                if spec_all_digits(s@) {
                    assert(spec_digits_value(s@) > u64::MAX as int);
                }
            }
            false
        },
    }
}

/// Reports whether the string is an optionally negated digit string within
/// the range `-min_abs ..= max`.
fn signed_fits(s: &String, min_abs: u64, max: u64) -> (r: bool)
    ensures
        r == spec_fits_signed(s@, min_abs as int, max as int),
{
    let slice = s.as_str();
    let n = slice.unicode_len();
    if n == 0 {
        return false;
    }
    let first = slice.get_char(0);
    if first == '-' {
        proof {
            assert(!spec_is_digit(s@[0]));
            assert(!spec_all_digits(s@));
        }
        if n == 1 {
            proof {
                assert(s@.skip(1).len() == 0);
            }
            return false;
        }
        proof {
            assert(slice@.skip(1) == s@.skip(1));
        }
        match digits_value_checked(slice, 1) {
            Some(val) => val <= min_abs,
            None => {
                proof {
                    if spec_all_digits(s@.skip(1)) {
                        assert(spec_digits_value(s@.skip(1)) > u64::MAX as int);
                    }
                }
                false
            },
        }
    } else {
        proof {
            assert(slice@.skip(0) =~= s@);
        }
        match digits_value_checked(slice, 0) {
            Some(val) => val <= max,
            None => {
                proof {
                    if spec_all_digits(s@) {
                        assert(spec_digits_value(s@) > u64::MAX as int);
                    }
                }
                false
            },
        }
    }
}

/// Reports whether every character in `start..end` is a digit, with at
/// least one.
fn digits_in_range(slice: &str, start: usize, end: usize) -> (r: bool)
    requires
        end <= slice@.len(),
    ensures
        r == (start < end && forall|j: int|
            start <= j < end ==> spec_is_digit(#[trigger] slice@[j])),
{
    if start >= end {
        return false;
    }
    for i in start..end
        invariant
            end <= slice@.len(),
            forall|j: int| start <= j < i ==> spec_is_digit(#[trigger] slice@[j]),
    {
        let u = slice.get_char(i) as u32;
        if !(48 <= u && u <= 57) {
            return false;
        }
    }
    true
}

/// Finds the first decimal point at or after `off`.
fn find_first_dot(slice: &str, off: usize) -> (r: Option<usize>)
    requires
        off <= slice@.len(),
    ensures
        match r {
            Some(i) => off <= i < slice@.len() && slice@[i as int] == '.' && forall|j: int|
                off <= j < i ==> slice@[j] != '.',
            None => forall|j: int| off <= j < slice@.len() ==> slice@[j] != '.',
        },
{
    let n = slice.unicode_len();
    for i in off..n
        invariant
            n == slice@.len(),
            forall|j: int| off <= j < i ==> slice@[j] != '.',
    {
        if slice.get_char(i) == '.' {
            return Some(i);
        }
    }
    None
}

/// Reports whether the characters from `off` to the end form a plain
/// decimal number.
fn unsigned_decimal_at(slice: &str, off: usize) -> (r: bool)
    requires
        off <= slice@.len(),
    ensures
        r == spec_unsigned_decimal(slice@.skip(off as int)),
{
    let ghost tail = slice@.skip(off as int);
    let n = slice.unicode_len();
    if off == n {
        proof {
            assert(tail.len() == 0);
        }
        return false;
    }
    match find_first_dot(slice, off) {
        None => {
            let r = digits_in_range(slice, off, n);
            proof {
                if r {
                    assert forall|j: int| 0 <= j < tail.len() implies spec_is_digit(
                        #[trigger] tail[j],
                    ) by {
                        assert(tail[j] == slice@[off + j]);
                    };
                    assert(spec_all_digits(tail));
                } else {
                    if spec_all_digits(tail) {
                        assert forall|j: int| off <= j < n implies spec_is_digit(
                            #[trigger] slice@[j],
                        ) by {
                            assert(slice@[j] == tail[j - off]);
                        };
                        assert(false);
                    }
                }
                assert forall|i: int| 0 < i < tail.len() implies #[trigger] tail[i] != '.' by {
                    assert(tail[i] == slice@[off + i]);
                };
            }
            r
        },
        Some(dot) => {
            if dot == off {
                proof {
                    assert(tail[0] == '.');
                    assert(!spec_all_digits(tail));
                    assert forall|i: int|
                        0 < i < tail.len() && #[trigger] tail[i] == '.' implies !(spec_all_digits(
                        tail.take(i),
                    ) && spec_all_digits(tail.skip(i + 1))) by {
                        assert(tail.take(i)[0] == tail[0]);
                        assert(!spec_all_digits(tail.take(i)));
                    };
                }
                return false;
            }
            let before = digits_in_range(slice, off, dot);
            let after = if before {
                digits_in_range(slice, dot + 1, n)
            } else {
                false
            };
            let ok = before && after;
            proof {
                let di = dot - off;
                assert(tail[di] == slice@[dot as int]);
                assert(!spec_all_digits(tail));
                if ok {
                    assert forall|j: int| 0 <= j < di implies spec_is_digit(
                        #[trigger] tail.take(di)[j],
                    ) by {
                        assert(tail.take(di)[j] == slice@[off + j]);
                    };
                    assert(spec_all_digits(tail.take(di)));
                    assert(tail.skip(di + 1).len() == n - dot - 1 > 0);
                    assert forall|j: int| 0 <= j < tail.skip(di + 1).len() implies spec_is_digit(
                        #[trigger] tail.skip(di + 1)[j],
                    ) by {
                        assert(tail.skip(di + 1)[j] == slice@[dot + 1 + j]);
                    };
                    assert(spec_all_digits(tail.skip(di + 1)));
                    assert(spec_unsigned_decimal(tail));
                } else {
                    assert forall|i: int|
                        0 < i < tail.len() && #[trigger] tail[i] == '.' implies !(spec_all_digits(
                        tail.take(i),
                    ) && spec_all_digits(tail.skip(i + 1))) by {
                        if i < di {
                            assert(slice@[off + i] == '.');
                            assert(false);
                        } else if i == di {
                            if before {
                                if dot + 1 == n {
                                    assert(tail.skip(i + 1).len() == 0);
                                } else {
                                    if spec_all_digits(tail.skip(i + 1)) {
                                        assert forall|j: int|
                                            dot + 1 <= j < n implies spec_is_digit(
                                            #[trigger] slice@[j],
                                        ) by {
                                            assert(slice@[j] == tail.skip(i + 1)[j - dot - 1]);
                                        };
                                        assert(false);
                                    }
                                }
                            } else {
                                if spec_all_digits(tail.take(i)) {
                                    assert forall|j: int| off <= j < dot implies spec_is_digit(
                                        #[trigger] slice@[j],
                                    ) by {
                                        assert(slice@[j] == tail.take(i)[j - off]);
                                    };
                                    assert(false);
                                }
                            }
                        } else {
                            assert(tail.take(i)[di] == tail[di]);
                            assert(!spec_all_digits(tail.take(i)));
                        }
                    };
                    assert(!spec_unsigned_decimal(tail));
                }
            }
            ok
        },
    }
}

/// Reports whether the string is an optionally negated decimal number.
fn float_fits(s: &String) -> (r: bool)
    ensures
        r == spec_is_float_literal(s@),
{
    let slice = s.as_str();
    let n = slice.unicode_len();
    if n == 0 {
        return false;
    }
    let first = slice.get_char(0);
    if first == '-' {
        proof {
            assert(!spec_all_digits(s@));
            assert forall|i: int|
                0 < i < s@.len() && #[trigger] s@[i] == '.' implies !(spec_all_digits(s@.take(i))
                && spec_all_digits(s@.skip(i + 1))) by {
                assert(s@.take(i)[0] == s@[0]);
                assert(!spec_all_digits(s@.take(i)));
            };
            assert(!spec_unsigned_decimal(s@));
        }
        if n == 1 {
            proof {
                assert(s@.skip(1).len() == 0);
            }
            return false;
        }
        proof {
            assert(slice@.skip(1) == s@.skip(1));
        }
        unsigned_decimal_at(slice, 1)
    } else {
        proof {
            assert(slice@.skip(0) =~= s@);
        }
        unsigned_decimal_at(slice, 0)
    }
}

/// Reports whether position `i` holds a digit.
fn digit_at(slice: &str, i: usize) -> (r: bool)
    requires
        i < slice@.len(),
    ensures
        r == spec_is_digit(slice@[i as int]),
{
    let u = slice.get_char(i) as u32;
    48 <= u && u <= 57
}

/// Reports whether position `i` holds exactly `c`.
fn char_at_is(slice: &str, i: usize, c: char) -> (r: bool)
    requires
        i < slice@.len(),
    ensures
        r == (slice@[i as int] == c),
{
    slice.get_char(i) == c
}

/// The value of the two digits at positions `i` and `i + 1`.
fn two_digits(slice: &str, i: usize) -> (r: u32)
    requires
        i + 1 < slice@.len(),
        spec_is_digit(slice@[i as int]),
        spec_is_digit(slice@[i as int + 1]),
    ensures
        r as int == spec_two_digits_value(slice@, i as int),
        r <= 99,
{
    let _n: usize = slice.unicode_len();
    (slice.get_char(i) as u32 - 48) * 10 + (slice.get_char(i + 1) as u32 - 48)
}

/// Reports whether the ten characters at `off` form a date literal.
fn date_shape_at(slice: &str, off: usize) -> (r: bool)
    requires
        off + 10 <= slice@.len(),
    ensures
        r == spec_is_date_literal(slice@.subrange(off as int, off as int + 10)),
{
    let _n: usize = slice.unicode_len();
    let ghost sub = slice@.subrange(off as int, off as int + 10);
    proof {
        assert(forall|j: int| 0 <= j < 10 ==> #[trigger] sub[j] == slice@[off + j]);
    }
    if !(digit_at(slice, off) && digit_at(slice, off + 1) && digit_at(slice, off + 2) && digit_at(
        slice,
        off + 3,
    ) && char_at_is(slice, off + 4, '-') && digit_at(slice, off + 5) && digit_at(slice, off + 6)
        && char_at_is(slice, off + 7, '-') && digit_at(slice, off + 8) && digit_at(
        slice,
        off + 9,
    )) {
        return false;
    }
    let month = two_digits(slice, off + 5);
    let day = two_digits(slice, off + 8);
    proof {
        assert(spec_two_digits_value(sub, 5) == spec_two_digits_value(slice@, off + 5));
        assert(spec_two_digits_value(sub, 8) == spec_two_digits_value(slice@, off + 8));
    }
    1 <= month && month <= 12 && 1 <= day && day <= 31
}

/// Reports whether the eight characters at `off` form a time literal.
fn time_shape_at(slice: &str, off: usize) -> (r: bool)
    requires
        off + 8 <= slice@.len(),
    ensures
        r == spec_is_time_literal(slice@.subrange(off as int, off as int + 8)),
{
    let _n: usize = slice.unicode_len();
    let ghost sub = slice@.subrange(off as int, off as int + 8);
    proof {
        assert(forall|j: int| 0 <= j < 8 ==> #[trigger] sub[j] == slice@[off + j]);
    }
    if !(digit_at(slice, off) && digit_at(slice, off + 1) && char_at_is(slice, off + 2, ':')
        && digit_at(slice, off + 3) && digit_at(slice, off + 4) && char_at_is(slice, off + 5, ':')
        && digit_at(slice, off + 6) && digit_at(slice, off + 7)) {
        return false;
    }
    let hour = two_digits(slice, off);
    let minute = two_digits(slice, off + 3);
    let second = two_digits(slice, off + 6);
    proof {
        assert(spec_two_digits_value(sub, 0) == spec_two_digits_value(slice@, off as int));
        assert(spec_two_digits_value(sub, 3) == spec_two_digits_value(slice@, off + 3));
        assert(spec_two_digits_value(sub, 6) == spec_two_digits_value(slice@, off + 6));
    }
    hour <= 23 && minute <= 59 && second <= 59
}

/// Reports whether the string is a date literal.
fn date_fits(s: &String) -> (r: bool)
    ensures
        r == spec_is_date_literal(s@),
{
    let slice = s.as_str();
    if slice.unicode_len() != 10 {
        return false;
    }
    let r = date_shape_at(slice, 0);
    proof {
        assert(slice@.subrange(0, 10) =~= s@);
    }
    r
}

/// Reports whether the string is a time literal.
fn time_fits(s: &String) -> (r: bool)
    ensures
        r == spec_is_time_literal(s@),
{
    let slice = s.as_str();
    if slice.unicode_len() != 8 {
        return false;
    }
    let r = time_shape_at(slice, 0);
    proof {
        assert(slice@.subrange(0, 8) =~= s@);
    }
    r
}

/// Reports whether the string is a date-time literal.
fn datetime_fits(s: &String) -> (r: bool)
    ensures
        r == spec_is_datetime_literal(s@),
{
    let slice = s.as_str();
    if slice.unicode_len() != 19 {
        return false;
    }
    proof {
        assert(slice@.subrange(0, 10) =~= s@.take(10));
        assert(slice@.subrange(11, 19) =~= s@.skip(11));
    }
    date_shape_at(slice, 0) && char_at_is(slice, 10, ' ') && time_shape_at(slice, 11)
}

/// Reports whether the string is a year literal.
fn year_fits(s: &String) -> (r: bool)
    ensures
        r == spec_is_year_literal(s@),
{
    let slice = s.as_str();
    if slice.unicode_len() != 4 {
        return false;
    }
    digits_in_range(slice, 0, 4)
}

/// Reports whether a default literal is representable in a datatype.
fn default_fits(dt: &Datatype, v: &String) -> (r: bool)
    ensures
        r == spec_default_fits(*dt, v@),
{
    match dt {
        Datatype::Int8 => signed_fits(v, 128, 127),
        Datatype::Int16 => signed_fits(v, 32768, 32767),
        Datatype::Int32 => signed_fits(v, 2147483648, 2147483647),
        Datatype::Int64 => signed_fits(v, 9223372036854775808, 9223372036854775807),
        Datatype::Uint8 => unsigned_fits(v, 255),
        Datatype::Uint16 => unsigned_fits(v, 65535),
        Datatype::Uint32 => unsigned_fits(v, 4294967295),
        Datatype::Uint64 => unsigned_fits(v, 18446744073709551615),
        Datatype::Float => float_fits(v),
        Datatype::Double => float_fits(v),
        Datatype::Boolean => eq_lit(v, "0") || eq_lit(v, "1") || eq_lit(v, "true") || eq_lit(
            v,
            "false",
        ),
        Datatype::Varchar(n) => v.as_str().unicode_len() <= *n as usize,
        Datatype::Date => date_fits(v),
        Datatype::Time => time_fits(v),
        Datatype::DateTime => datetime_fits(v),
        Datatype::Year => year_fits(v),
        Datatype::Enum(vals) => crate::schema::str_vec_contains(vals, v),
        Datatype::SetOf(vals) => crate::schema::str_vec_contains(vals, v),
    }
}

/// Appends one finding, tracking the ghost image of the vector.
fn push_finding(out: &mut Vec<Finding>, f: Finding)
    ensures
        findings_view(final(out)@) == findings_view(old(out)@).push(f@),
{
    let ghost base = out@;
    out.push(f);
    proof {
        assert(findings_view(out@) =~= findings_view(base).push(f@));
    }
}

/// Appends the name-legality findings for one name.
fn check_name(loc: Location, name: &String, out: &mut Vec<Finding>)
    ensures
        findings_view(final(out)@) == findings_view(old(out)@) + spec_name_findings(loc@, name@),
{
    let ghost base = out@;
    let lowered = lowercase(name.as_str());
    if is_reserved_word(&lowered) {
        push_finding(
            out,
            Finding {
                severity: Severity::Error,
                location: loc.duplicate(),
                kind: FindingKind::ReservedName,
            },
        );
    }
    if name.as_str().is_empty() {
        push_finding(
            out,
            Finding {
                severity: Severity::Error,
                location: loc.duplicate(),
                kind: FindingKind::EmptyName,
            },
        );
    }
    if starts_with_digit(name) {
        push_finding(
            out,
            Finding {
                severity: Severity::Warning,
                location: loc,
                kind: FindingKind::NameStartsWithDigit,
            },
        );
    }
    proof {
        assert(findings_view(out@) =~= findings_view(base) + spec_name_findings(loc@, name@));
    }
}

impl User {
    /// The validator's view of one user in isolation: the name-legality
    /// findings for the user's name.
    pub fn validate(&self) -> (findings: Vec<Finding>)
        ensures
            findings_view(findings@) == spec_name_findings(
                LocationV::User(self.name@),
                self.name@,
            ),
    {
        let mut out: Vec<Finding> = Vec::new();
        check_name(Location::User(self.name.clone()), &self.name, &mut out);
        proof {
            assert(findings_view(out@) =~= spec_name_findings(
                LocationV::User(self.name@),
                self.name@,
            ));
        }
        out
    }
}

/// Appends the findings for one column.
fn check_column(tname: &String, c: &Column, out: &mut Vec<Finding>)
    ensures
        findings_view(final(out)@) == findings_view(old(out)@) + spec_column_findings(tname@, *c),
{
    let ghost base = out@;
    check_name(Location::Column(tname.clone(), c.name.clone()), &c.name, out);
    match &c.default {
        Some(d) => {
            if !default_fits(&c.datatype, d) {
                push_finding(
                    out,
                    Finding {
                        severity: Severity::Error,
                        location: Location::Column(tname.clone(), c.name.clone()),
                        kind: FindingKind::IncompatibleDefault,
                    },
                );
            }
        },
        None => (),
    }
    match &c.datatype {
        Datatype::Varchar(n) => {
            if *n == 0 {
                push_finding(
                    out,
                    Finding {
                        severity: Severity::Warning,
                        location: Location::Column(tname.clone(), c.name.clone()),
                        kind: FindingKind::VarcharLengthZero,
                    },
                );
            }
        },
        _ => (),
    }
    proof {
        assert(findings_view(out@) =~= findings_view(base) + spec_column_findings(tname@, *c));
    }
}

/// Appends every finding for one table of the database.
#[verifier::rlimit(60)]
fn check_table(db: &VirtualDatabase, t: &Table, out: &mut Vec<Finding>)
    requires
        db.wf(),
    ensures
        findings_view(final(out)@) == findings_view(old(out)@) + spec_table_findings(*db, *t),
{
    let ghost base = out@;
    check_name(Location::Table(t.name.clone()), &t.name, out);
    let ghost after_name = out@;
    for k in 0..t.columns.len()
        invariant
            findings_view(out@) == findings_view(after_name) + spec_columns_findings(*t, k as int),
    {
        check_column(&t.name, &t.columns[k], out);
        proof {
            assert(findings_view(out@) =~= findings_view(after_name) + spec_columns_findings(
                *t,
                k + 1,
            ));
        }
    }
    let ghost after_cols = out@;
    for k in 0..t.primary_keys.len()
        invariant
            findings_view(out@) == findings_view(after_cols) + spec_pks_findings(*t, k as int),
    {
        if !t.has_column_exact(&t.primary_keys[k]) {
            push_finding(
                out,
                Finding {
                    severity: Severity::Error,
                    location: Location::PrimaryKey(t.name.clone(), t.primary_keys[k].clone()),
                    kind: FindingKind::UnknownPrimaryKeyColumn,
                },
            );
        }
        proof {
            assert(findings_view(out@) =~= findings_view(after_cols) + spec_pks_findings(
                *t,
                k + 1,
            ));
        }
    }
    let ghost after_pks = out@;
    for k in 0..t.foreign_keys.len()
        invariant
            db.wf(),
            findings_view(out@) == findings_view(after_pks) + spec_fks_findings(
                *db,
                *t,
                k as int,
            ),
    {
        let fk = &t.foreign_keys[k];
        match crate::schema::find_table_in(&db.tables, &fk.origin_table) {
            None => {
                push_finding(
                    out,
                    Finding {
                        severity: Severity::Error,
                        location: Location::ForeignKey(t.name.clone(), k),
                        kind: FindingKind::UnknownForeignKeyTable,
                    },
                );
            },
            Some(origin) => {
                if !origin.has_column_exact(&fk.origin_column) {
                    proof {
                        let a = choose|a: int|
                            0 <= a < db.tables@.len() && db.tables@[a] == *origin;
                        assert(spec_origin_column_missing(*db, fk@.origin_table, fk@.origin_column));
                    }
                    push_finding(
                        out,
                        Finding {
                            severity: Severity::Error,
                            location: Location::ForeignKey(t.name.clone(), k),
                            kind: FindingKind::UnknownForeignKeyColumn,
                        },
                    );
                } else {
                    proof {
                        let a = choose|a: int|
                            0 <= a < db.tables@.len() && db.tables@[a] == *origin;
                        assert forall|i: int|
                            0 <= i < db.tables@.len() && db.tables@[i].name@ == fk@.origin_table
                                implies db.tables@[i].spec_has_column(fk@.origin_column) by {
                            if i != a {
                                assert(db.tables@[i].name@ != db.tables@[a].name@);
                            }
                        };
                        assert(!spec_origin_column_missing(*db, fk@.origin_table, fk@.origin_column));
                    }
                }
            },
        }
        proof {
            assert(findings_view(out@) =~= findings_view(after_pks) + spec_fks_findings(
                *db,
                *t,
                k + 1,
            ));
        }
    }
    let mut seen = false;
    let mut dup = false;
    for k in 0..t.columns.len()
        invariant
            seen <==> exists|i: int| 0 <= i < k && (#[trigger] t.columns@[i]).auto_increment,
            dup <==> exists|i: int, j: int|
                0 <= i < j < k && t.columns@[i].auto_increment && t.columns@[j].auto_increment,
    {
        if t.columns[k].auto_increment {
            if seen {
                dup = true;
            }
            seen = true;
        }
    }
    if dup {
        push_finding(
            out,
            Finding {
                severity: Severity::Error,
                location: Location::Table(t.name.clone()),
                kind: FindingKind::DuplicateAutoIncrement,
            },
        );
    }
    if t.primary_keys.len() == 0 {
        push_finding(
            out,
            Finding {
                severity: Severity::Warning,
                location: Location::Table(t.name.clone()),
                kind: FindingKind::MissingPrimaryKey,
            },
        );
    }
    proof {
        assert(findings_view(out@) =~= findings_view(base) + spec_table_findings(*db, *t));
    }
}

/// Inspects a database for internal consistency and reports every problem
/// found, in a fixed traversal order: each user, then each table. Never
/// mutates the model; every check runs, none short-circuits. Callers are
/// expected to treat `Error` findings as build-blocking; the statement
/// generator itself runs regardless.
pub fn validate(db: &VirtualDatabase) -> (findings: Vec<Finding>)
    requires
        db.wf(),
    ensures
        findings_view(findings@) == spec_validate(*db),
{
    let mut out: Vec<Finding> = Vec::new();
    let ghost after_name = out@;
    for k in 0..db.users.len()
        invariant
            findings_view(out@) == findings_view(after_name) + spec_users_findings(
                db.users@,
                k as int,
            ),
    {
        check_name(Location::User(db.users[k].name.clone()), &db.users[k].name, &mut out);
        proof {
            assert(findings_view(out@) =~= findings_view(after_name) + spec_users_findings(
                db.users@,
                k + 1,
            ));
        }
    }
    let ghost after_users = out@;
    for k in 0..db.tables.len()
        invariant
            db.wf(),
            findings_view(out@) == findings_view(after_users) + spec_tables_findings(
                *db,
                k as int,
            ),
    {
        check_table(db, &db.tables[k], &mut out);
        proof {
            assert(findings_view(out@) =~= findings_view(after_users) + spec_tables_findings(
                *db,
                k + 1,
            ));
        }
    }
    proof {
        assert(findings_view(out@) =~= spec_validate(*db));
    }
    out
}

} // verus!
