//! The in-memory schema model: columns, keys, indices, tables, users and
//! the virtual database that owns them.
//!
//! Entities are meant to be created and edited through the mutators below,
//! which keep each entity's local well-formedness (`wf`) continuously true.
//! Cross-entity conditions that a single mutator cannot enforce (a foreign
//! key whose origin table is later removed or renamed) are the validator's
//! concern.

use vstd::prelude::*;

use crate::datatype::Datatype;
use crate::text::{lower_of, lowercase, opt_str_view, str_seq_view};

verus! {

/// A mutator was asked to perform a locally impossible edit. The model is
/// left unchanged whenever one of these is returned.
#[derive(Debug, Clone, Copy, PartialEq, Eq, Structural)]
pub enum InvalidOperation {
    /// A referenced column does not exist in the table it must belong to.
    UnknownColumn,
    /// A column with the same (case-insensitive) name already exists.
    DuplicateColumn,
    /// A foreign key's origin table exists neither as the table itself nor
    /// among the sibling tables it was checked against.
    UnknownTable,
    /// Auto-increment was requested for a column whose datatype is not in
    /// the integer family.
    AutoIncrementNotInteger,
    /// The table already has an auto-increment column.
    DuplicateAutoIncrement,
    /// A table with the same (case-insensitive) name already exists.
    DuplicateTableName,
    /// A user with the same name and host already exists.
    DuplicateUser,
    /// An index must cover at least one column.
    EmptyIndex,
}

/// A column of a table: a name (stored lower-case), a datatype, an optional
/// default literal, and the auto-increment / not-null flags.
#[derive(Debug, Clone, PartialEq)]
pub struct Column {
    pub name: String,
    pub datatype: Datatype,
    pub default: Option<String>,
    pub auto_increment: bool,
    pub not_null: bool,
}

impl Column {
    /// Local invariant: only an integer-family column may auto-increment.
    /// The setters keep this continuously true, so a violated state can
    /// never be observed.
    pub open spec fn wf(&self) -> bool {
        self.auto_increment ==> self.datatype.spec_is_integer()
    }

    /// A fresh column: name canonicalized to lower case, no default, not
    /// auto-incremented, nullable.
    pub fn new(name: &str, datatype: Datatype) -> (c: Column)
        ensures
            c.name@ == lower_of(name@),
            c.datatype == datatype,
            c.default is None,
            c.auto_increment == false,
            c.not_null == false,
            c.wf(),
    {
        Column { name: lowercase(name), datatype, default: None, auto_increment: false, not_null: false }
    }

    /// Renames the column; the new name is canonicalized to lower case.
    pub fn set_name(&mut self, new_name: &str)
        ensures
            final(self).name@ == lower_of(new_name@),
            *final(self) == (Column { name: final(self).name, ..*old(self) }),
    {
        self.name = lowercase(new_name);
    }

    pub fn get_name(&self) -> (r: &str)
        ensures
            r@ == self.name@,
    {
        self.name.as_str()
    }

    /// Changes the datatype. Fails if the column auto-increments and the new
    /// datatype is not integer-family; whether an existing default literal
    /// still fits the new datatype is the validator's concern.
    pub fn set_datatype(&mut self, datatype: Datatype) -> (r: Result<(), InvalidOperation>)
        ensures
            r is Ok <==> !(old(self).auto_increment && !datatype.spec_is_integer()),
            r is Ok ==> *final(self) == (Column { datatype: final(self).datatype, ..*old(self) })
                && final(self).datatype == datatype,
            r is Err ==> r == Err::<(), InvalidOperation>(InvalidOperation::AutoIncrementNotInteger)
                && *final(self) == *old(self),
            old(self).wf() ==> final(self).wf(),
    {
        if self.auto_increment && !datatype.is_integer() {
            return Err(InvalidOperation::AutoIncrementNotInteger);
        }
        self.datatype = datatype;
        Ok(())
    }

    pub fn get_datatype(&self) -> (r: &Datatype)
        ensures
            r == &self.datatype,
    {
        &self.datatype
    }

    /// Sets the default literal. Whether the literal is representable in the
    /// column's datatype is the validator's concern.
    pub fn set_default(&mut self, new_default: &str)
        ensures
            opt_str_view(final(self).default) == Some(new_default@),
            *final(self) == (Column { default: final(self).default, ..*old(self) }),
    {
        self.default = Some(new_default.to_owned());
    }

    /// Removes the default literal.
    pub fn clear_default(&mut self)
        ensures
            *final(self) == (Column { default: None, ..*old(self) }),
    {
        self.default = None;
    }

    pub fn get_default(&self) -> (r: &Option<String>)
        ensures
            r == &self.default,
    {
        &self.default
    }

    /// Turns auto-increment on or off. Turning it on is only possible on an
    /// integer-family column: on any other datatype the call fails and the
    /// column is unchanged, so `auto_increment` can never be observed `true`
    /// on a non-integer column.
    pub fn set_auto_increment(&mut self, new_auto_increment: bool) -> (r: Result<
        (),
        InvalidOperation,
    >)
        ensures
            r is Ok <==> !(new_auto_increment && !old(self).datatype.spec_is_integer()),
            r is Ok ==> *final(self) == (Column {
                auto_increment: new_auto_increment,
                ..*old(self)
            }),
            r is Err ==> r == Err::<(), InvalidOperation>(InvalidOperation::AutoIncrementNotInteger)
                && *final(self) == *old(self),
            old(self).wf() ==> final(self).wf(),
    {
        if new_auto_increment && !self.datatype.is_integer() {
            return Err(InvalidOperation::AutoIncrementNotInteger);
        }
        self.auto_increment = new_auto_increment;
        Ok(())
    }

    pub fn get_auto_increment(&self) -> (r: bool)
        ensures
            r == self.auto_increment,
    {
        self.auto_increment
    }

    pub fn set_not_null(&mut self, not_null: bool)
        ensures
            *final(self) == (Column { not_null, ..*old(self) }),
    {
        self.not_null = not_null;
    }

    pub fn get_not_null(&self) -> (r: bool)
        ensures
            r == self.not_null,
    {
        self.not_null
    }
}

/// The auto-increment invariant, as an observation: on a well-formed
/// column whose datatype is not integer-family, `auto_increment` is never
/// `true`. Freshly built columns are well-formed and every setter keeps
/// them so, which is why a violated state cannot be observed.
pub proof fn lemma_auto_increment_only_on_integers(c: Column)
    requires
        c.wf(),
        !c.datatype.spec_is_integer(),
    ensures
        !c.auto_increment,
{
}

/// A directed edge from a column of the owning table to a column of a table
/// in the same database. Validity is relative to the owning database's table
/// set, not self-contained.
#[derive(Debug, Clone, PartialEq)]
pub struct ForeignKey {
    pub local_column: String,
    pub origin_table: String,
    pub origin_column: String,
}

/// The ghost image of a foreign key: its three names as character sequences.
pub struct FkView {
    pub local_column: Seq<char>,
    pub origin_table: Seq<char>,
    pub origin_column: Seq<char>,
}

impl View for ForeignKey {
    type V = FkView;

    open spec fn view(&self) -> FkView {
        FkView {
            local_column: self.local_column@,
            origin_table: self.origin_table@,
            origin_column: self.origin_column@,
        }
    }
}

/// The ghost images of a sequence of foreign keys.
pub open spec fn fks_view(s: Seq<ForeignKey>) -> Seq<FkView> {
    s.map_values(|f: ForeignKey| f@)
}

/// A composite index: an ordered sequence of column names. The order is
/// semantically significant and is preserved into the generated DDL.
#[derive(Debug, Clone, PartialEq)]
pub struct Index {
    pub columns: Vec<String>,
}

impl View for Index {
    type V = Seq<Seq<char>>;

    open spec fn view(&self) -> Seq<Seq<char>> {
        str_seq_view(self.columns@)
    }
}

/// The privilege class granted to a user: full administration, or plain
/// row-level create/read/update/delete.
#[derive(Debug, Clone, Copy, PartialEq, Eq, Structural)]
pub enum UserType {
    Admin,
    CRUD,
}

/// A database user: name, password (opaque at this layer), connection-origin
/// host pattern, and privilege class.
#[derive(Debug, Clone, PartialEq)]
pub struct User {
    pub name: String,
    pub password: String,
    pub host: String,
    pub role: UserType,
}

impl User {
    pub fn new(name: &str, password: &str, host: &str, role: UserType) -> (u: User)
        ensures
            u.name@ == name@,
            u.password@ == password@,
            u.host@ == host@,
            u.role == role,
    {
        User { name: name.to_owned(), password: password.to_owned(), host: host.to_owned(), role }
    }
}

/// A table: a name (stored lower-case), columns in insertion order, the
/// primary-key / foreign-key / unique constraints, composite indices, and an
/// optional count of sample rows an external generator should produce.
///
/// Within its owning database a table is identified by its name, so `==`
/// compares names (stored lower-case, hence case-insensitively), not
/// contents.
#[derive(Debug, Clone)]
pub struct Table {
    pub name: String,
    pub columns: Vec<Column>,
    pub primary_keys: Vec<String>,
    pub foreign_keys: Vec<ForeignKey>,
    pub uniques: Vec<String>,
    pub indices: Vec<Index>,
    pub dataset_row_count: Option<usize>,
}

impl PartialEq for Table {
    fn eq(&self, other: &Self) -> (r: bool)
        ensures
            r == (self.name@ == other.name@),
    {
        self.name == other.name
    }
}

impl vstd::std_specs::cmp::PartialEqSpecImpl for Table {
    open spec fn obeys_eq_spec() -> bool {
        true
    }

    open spec fn eq_spec(&self, other: &Self) -> bool {
        self.name@ == other.name@
    }
}

impl Table {
    /// There is a column with this (already canonicalized) name.
    pub open spec fn spec_has_column(&self, n: Seq<char>) -> bool {
        exists|i: int| 0 <= i < self.columns@.len() && self.columns@[i].name@ == n
    }

    /// Some column auto-increments.
    pub open spec fn spec_has_auto_increment(&self) -> bool {
        exists|i: int| 0 <= i < self.columns@.len() && self.columns@[i].auto_increment
    }

    /// The name is declared as a primary-key column.
    pub open spec fn spec_pk_contains(&self, n: Seq<char>) -> bool {
        str_seq_view(self.primary_keys@).contains(n)
    }

    /// The name is declared as a unique column.
    pub open spec fn spec_unique_contains(&self, n: Seq<char>) -> bool {
        str_seq_view(self.uniques@).contains(n)
    }

    /// The foreign-key triple is declared on this table.
    pub open spec fn spec_fk_contains(&self, f: FkView) -> bool {
        fks_view(self.foreign_keys@).contains(f)
    }

    /// An index is well-formed for this table: it covers at least one
    /// column, and every covered column exists.
    pub open spec fn spec_index_wf(&self, ix: Index) -> bool {
        &&& ix.columns@.len() > 0
        &&& forall|k: int|
            0 <= k < ix.columns@.len() ==> self.spec_has_column(#[trigger] ix.columns@[k]@)
    }

    /// Well-formedness, kept continuously true by the mutators: column names
    /// unique; each column locally well-formed; at most one auto-increment
    /// column; primary-key, unique and foreign-key-local column names exist
    /// among the columns and are free of duplicates; every index is
    /// well-formed. Whether a foreign key's origin table exists in the
    /// owning database is deliberately not part of this invariant: it is
    /// relative to the database and is the validator's concern.
    pub open spec fn wf(&self) -> bool {
        &&& forall|i: int, j: int|
            0 <= i < j < self.columns@.len() ==> self.columns@[i].name@ != self.columns@[j].name@
        &&& forall|i: int| 0 <= i < self.columns@.len() ==> (#[trigger] self.columns@[i]).wf()
        &&& forall|i: int, j: int|
            0 <= i < j < self.columns@.len() ==> !(self.columns@[i].auto_increment
                && self.columns@[j].auto_increment)
        &&& forall|i: int|
            0 <= i < self.primary_keys@.len() ==> self.spec_has_column(
                #[trigger] self.primary_keys@[i]@,
            )
        &&& forall|i: int, j: int|
            0 <= i < j < self.primary_keys@.len() ==> self.primary_keys@[i]@
                != self.primary_keys@[j]@
        &&& forall|i: int|
            0 <= i < self.uniques@.len() ==> self.spec_has_column(#[trigger] self.uniques@[i]@)
        &&& forall|i: int, j: int|
            0 <= i < j < self.uniques@.len() ==> self.uniques@[i]@ != self.uniques@[j]@
        &&& forall|i: int|
            0 <= i < self.foreign_keys@.len() ==> self.spec_has_column(
                (#[trigger] self.foreign_keys@[i])@.local_column,
            )
        &&& forall|i: int, j: int|
            0 <= i < j < self.foreign_keys@.len() ==> self.foreign_keys@[i]@
                != self.foreign_keys@[j]@
        &&& forall|i: int| 0 <= i < self.indices@.len() ==> self.spec_index_wf(#[trigger] self.indices@[i])
    }

    /// A fresh, empty table; the name is canonicalized to lower case.
    pub fn new(name: &str) -> (t: Table)
        ensures
            t.name@ == lower_of(name@),
            t.columns@.len() == 0,
            t.primary_keys@.len() == 0,
            t.foreign_keys@.len() == 0,
            t.uniques@.len() == 0,
            t.indices@.len() == 0,
            t.dataset_row_count is None,
            t.wf(),
    {
        Table {
            name: lowercase(name),
            columns: Vec::new(),
            primary_keys: Vec::new(),
            foreign_keys: Vec::new(),
            uniques: Vec::new(),
            indices: Vec::new(),
            dataset_row_count: None,
        }
    }

    /// Renames the table; the new name is canonicalized to lower case.
    /// Whether the new name collides with a sibling table, or strands a
    /// foreign key in a sibling, is the owning database's and the
    /// validator's concern.
    pub fn set_name(&mut self, new_name: &str)
        ensures
            final(self).name@ == lower_of(new_name@),
            *final(self) == (Table { name: final(self).name, ..*old(self) }),
            old(self).wf() ==> final(self).wf(),
    {
        self.name = lowercase(new_name);
    }

    pub fn get_name(&self) -> (r: &str)
        ensures
            r@ == self.name@,
    {
        self.name.as_str()
    }

    /// Looks a column name up after canonicalizing it to lower case.
    pub fn has_column(&self, name: &str) -> (r: bool)
        ensures
            r == self.spec_has_column(lower_of(name@)),
    {
        let lowered = lowercase(name);
        self.has_column_exact(&lowered)
    }

    /// Looks an already-canonicalized column name up.
    pub(crate) fn has_column_exact(&self, name: &String) -> (r: bool)
        ensures
            r == self.spec_has_column(name@),
    {
        for i in 0..self.columns.len()
            invariant
                forall|j: int| 0 <= j < i ==> self.columns@[j].name@ != name@,
        {
            if self.columns[i].name == *name {
                return true;
            }
        }
        false
    }

    /// Reports whether some column already auto-increments.
    fn has_auto_increment_column(&self) -> (r: bool)
        ensures
            r == self.spec_has_auto_increment(),
    {
        for i in 0..self.columns.len()
            invariant
                forall|j: int| 0 <= j < i ==> !self.columns@[j].auto_increment,
        {
            if self.columns[i].auto_increment {
                return true;
            }
        }
        false
    }

    /// Appends a column. Fails if a column of the same name exists, or if
    /// the new column auto-increments while another column already does.
    pub fn add_column(&mut self, column: Column) -> (r: Result<(), InvalidOperation>)
        requires
            old(self).wf(),
            column.wf(),
        ensures
            r is Ok <==> !old(self).spec_has_column(column.name@) && !(column.auto_increment
                && old(self).spec_has_auto_increment()),
            r is Ok ==> final(self).columns@ == old(self).columns@.push(column) && *final(self)
                == (Table { columns: final(self).columns, ..*old(self) }),
            r == Err::<(), InvalidOperation>(InvalidOperation::DuplicateColumn) <==> old(
                self,
            ).spec_has_column(column.name@),
            r == Err::<(), InvalidOperation>(InvalidOperation::DuplicateAutoIncrement) <==> !old(
                self,
            ).spec_has_column(column.name@) && column.auto_increment && old(
                self,
            ).spec_has_auto_increment(),
            r is Err ==> *final(self) == *old(self),
            final(self).wf(),
    {
        if self.has_column_exact(&column.name) {
            return Err(InvalidOperation::DuplicateColumn);
        }
        if column.auto_increment && self.has_auto_increment_column() {
            return Err(InvalidOperation::DuplicateAutoIncrement);
        }
        self.columns.push(column);
        proof {
            let oldt = *old(self);
            let oldc = oldt.columns@;
            let newc = self.columns@;
            assert forall|n: Seq<char>| oldt.spec_has_column(n) implies self.spec_has_column(
                n,
            ) by {
                let j = choose|j: int| 0 <= j < oldc.len() && oldc[j].name@ == n;
                assert(newc[j].name@ == n);
            };
            assert forall|i: int, j: int| 0 <= i < j < newc.len() implies newc[i].name@
                != newc[j].name@ by {
                if j == oldc.len() {
                    assert(newc[i] == oldc[i]);
                    assert(!oldt.spec_has_column(column.name@));
                }
            };
            assert forall|i: int, j: int| 0 <= i < j < newc.len() implies !(newc[i].auto_increment
                && newc[j].auto_increment) by {
                if j == oldc.len() && newc[i].auto_increment {
                    assert(oldc[i].auto_increment);
                    assert(oldt.spec_has_auto_increment());
                }
            };
            assert forall|i: int| 0 <= i < self.indices@.len() implies self.spec_index_wf(
                #[trigger] self.indices@[i],
            ) by {
                assert(oldt.spec_index_wf(oldt.indices@[i]));
                assert forall|k: int| 0 <= k < self.indices@[i].columns@.len() implies self
                    .spec_has_column(#[trigger] self.indices@[i].columns@[k]@) by {
                    assert(oldt.spec_has_column(oldt.indices@[i].columns@[k]@));
                };
            };
        }
        Ok(())
    }

    /// The columns, in insertion order.
    pub fn list_columns(&self) -> (r: &Vec<Column>)
        ensures
            r == &self.columns,
    {
        &self.columns
    }

    /// Declares a column (canonicalized to lower case) as part of the
    /// primary key. Fails if no such column exists; declaring the same
    /// column twice leaves the table unchanged.
    pub fn add_primary_key(&mut self, new_pk: &str) -> (r: Result<(), InvalidOperation>)
        requires
            old(self).wf(),
        ensures
            r is Ok <==> old(self).spec_has_column(lower_of(new_pk@)),
            r is Err ==> r == Err::<(), InvalidOperation>(InvalidOperation::UnknownColumn)
                && *final(self) == *old(self),
            r is Ok && old(self).spec_pk_contains(lower_of(new_pk@)) ==> *final(self) == *old(self),
            r is Ok && !old(self).spec_pk_contains(lower_of(new_pk@)) ==> str_seq_view(
                final(self).primary_keys@,
            ) == str_seq_view(old(self).primary_keys@).push(lower_of(new_pk@)) && *final(self)
                == (Table { primary_keys: final(self).primary_keys, ..*old(self) }),
            final(self).wf(),
    {
        let lowered = lowercase(new_pk);
        if !self.has_column_exact(&lowered) {
            return Err(InvalidOperation::UnknownColumn);
        }
        if str_vec_contains(&self.primary_keys, &lowered) {
            return Ok(());
        }
        self.primary_keys.push(lowered);
        proof {
            let oldt = *old(self);
            assert(str_seq_view(self.primary_keys@) =~= str_seq_view(oldt.primary_keys@).push(
                lower_of(new_pk@),
            ));
            assert forall|i: int| 0 <= i < self.primary_keys@.len() implies self.spec_has_column(
                #[trigger] self.primary_keys@[i]@,
            ) by {
                if i < oldt.primary_keys@.len() {
                    assert(oldt.spec_has_column(oldt.primary_keys@[i]@));
                }
            };
            assert forall|i: int, j: int| 0 <= i < j < self.primary_keys@.len() implies self
                .primary_keys@[i]@ != self.primary_keys@[j]@ by {
                if j == oldt.primary_keys@.len() {
                    assert(str_seq_view(oldt.primary_keys@)[i] == oldt.primary_keys@[i]@);
                }
            };
        }
        Ok(())
    }

    /// Withdraws a column name from the primary key; unknown names are
    /// ignored.
    pub fn remove_primary_key(&mut self, old_pk: &str)
        requires
            old(self).wf(),
        ensures
            !old(self).spec_pk_contains(lower_of(old_pk@)) ==> *final(self) == *old(self),
            old(self).spec_pk_contains(lower_of(old_pk@)) ==> (exists|i: int|
                0 <= i < old(self).primary_keys@.len() && old(self).primary_keys@[i]@ == lower_of(
                    old_pk@,
                ) && str_seq_view(final(self).primary_keys@) == str_seq_view(
                    old(self).primary_keys@,
                ).remove(i)) && *final(self) == (Table {
                primary_keys: final(self).primary_keys,
                ..*old(self)
            }),
            !final(self).spec_pk_contains(lower_of(old_pk@)),
            final(self).wf(),
    {
        let lowered = lowercase(old_pk);
        match str_vec_find(&self.primary_keys, &lowered) {
            Some(i) => {
                self.primary_keys.remove(i);
                proof {
                    let oldt = *old(self);
                    assert(str_seq_view(oldt.primary_keys@)[i as int] == lower_of(old_pk@));
                    assert(str_seq_view(self.primary_keys@) =~= str_seq_view(
                        oldt.primary_keys@,
                    ).remove(i as int));
                    assert forall|a: int| 0 <= a < self.primary_keys@.len() implies self
                        .spec_has_column(#[trigger] self.primary_keys@[a]@) by {
                        if a < i {
                            assert(self.primary_keys@[a] == oldt.primary_keys@[a]);
                            assert(oldt.spec_has_column(oldt.primary_keys@[a]@));
                        } else {
                            assert(self.primary_keys@[a] == oldt.primary_keys@[a + 1]);
                            assert(oldt.spec_has_column(oldt.primary_keys@[a + 1]@));
                        }
                    };
                    assert forall|a: int, b: int| 0 <= a < b < self.primary_keys@.len() implies self
                        .primary_keys@[a]@ != self.primary_keys@[b]@ by {
                        let oa: int = if a < i { a } else { a + 1 };
                        let ob: int = if b < i { b } else { b + 1 };
                        assert(self.primary_keys@[a] == oldt.primary_keys@[oa]);
                        assert(self.primary_keys@[b] == oldt.primary_keys@[ob]);
                    };
                }
            },
            None => (),
        }
    }

    /// The primary-key column names, in declaration order.
    pub fn list_primary_keys(&self) -> (r: &Vec<String>)
        ensures
            r == &self.primary_keys,
    {
        &self.primary_keys
    }

    /// Declares a column (canonicalized to lower case) as unique. Fails if
    /// no such column exists; declaring the same column twice leaves the
    /// table unchanged.
    pub fn add_unique(&mut self, column: &str) -> (r: Result<(), InvalidOperation>)
        requires
            old(self).wf(),
        ensures
            r is Ok <==> old(self).spec_has_column(lower_of(column@)),
            r is Err ==> r == Err::<(), InvalidOperation>(InvalidOperation::UnknownColumn)
                && *final(self) == *old(self),
            r is Ok && old(self).spec_unique_contains(lower_of(column@)) ==> *final(self) == *old(
                self,
            ),
            r is Ok && !old(self).spec_unique_contains(lower_of(column@)) ==> str_seq_view(
                final(self).uniques@,
            ) == str_seq_view(old(self).uniques@).push(lower_of(column@)) && *final(self)
                == (Table { uniques: final(self).uniques, ..*old(self) }),
            final(self).wf(),
    {
        let lowered = lowercase(column);
        if !self.has_column_exact(&lowered) {
            return Err(InvalidOperation::UnknownColumn);
        }
        if str_vec_contains(&self.uniques, &lowered) {
            return Ok(());
        }
        self.uniques.push(lowered);
        proof {
            let oldt = *old(self);
            assert(str_seq_view(self.uniques@) =~= str_seq_view(oldt.uniques@).push(
                lower_of(column@),
            ));
            assert forall|i: int| 0 <= i < self.uniques@.len() implies self.spec_has_column(
                #[trigger] self.uniques@[i]@,
            ) by {
                if i < oldt.uniques@.len() {
                    assert(oldt.spec_has_column(oldt.uniques@[i]@));
                }
            };
            assert forall|i: int, j: int| 0 <= i < j < self.uniques@.len() implies self.uniques@[i]@
                != self.uniques@[j]@ by {
                if j == oldt.uniques@.len() {
                    assert(str_seq_view(oldt.uniques@)[i] == oldt.uniques@[i]@);
                }
            };
        }
        Ok(())
    }

    /// Withdraws a column name from the unique constraints; unknown names
    /// are ignored.
    pub fn remove_unique(&mut self, column: &str)
        requires
            old(self).wf(),
        ensures
            !old(self).spec_unique_contains(lower_of(column@)) ==> *final(self) == *old(self),
            old(self).spec_unique_contains(lower_of(column@)) ==> (exists|i: int|
                0 <= i < old(self).uniques@.len() && old(self).uniques@[i]@ == lower_of(column@)
                    && str_seq_view(final(self).uniques@) == str_seq_view(old(self).uniques@).remove(
                    i,
                )) && *final(self) == (Table { uniques: final(self).uniques, ..*old(self) }),
            !final(self).spec_unique_contains(lower_of(column@)),
            final(self).wf(),
    {
        let lowered = lowercase(column);
        match str_vec_find(&self.uniques, &lowered) {
            Some(i) => {
                self.uniques.remove(i);
                proof {
                    let oldt = *old(self);
                    assert(str_seq_view(oldt.uniques@)[i as int] == lower_of(column@));
                    assert(str_seq_view(self.uniques@) =~= str_seq_view(oldt.uniques@).remove(
                        i as int,
                    ));
                    assert forall|a: int| 0 <= a < self.uniques@.len() implies self.spec_has_column(
                        #[trigger] self.uniques@[a]@,
                    ) by {
                        if a < i {
                            assert(self.uniques@[a] == oldt.uniques@[a]);
                            assert(oldt.spec_has_column(oldt.uniques@[a]@));
                        } else {
                            assert(self.uniques@[a] == oldt.uniques@[a + 1]);
                            assert(oldt.spec_has_column(oldt.uniques@[a + 1]@));
                        }
                    };
                    assert forall|a: int, b: int| 0 <= a < b < self.uniques@.len() implies self
                        .uniques@[a]@ != self.uniques@[b]@ by {
                        let oa: int = if a < i { a } else { a + 1 };
                        let ob: int = if b < i { b } else { b + 1 };
                        assert(self.uniques@[a] == oldt.uniques@[oa]);
                        assert(self.uniques@[b] == oldt.uniques@[ob]);
                    };
                }
            },
            None => (),
        }
    }

    /// The unique column names, in declaration order.
    pub fn list_uniques(&self) -> (r: &Vec<String>)
        ensures
            r == &self.uniques,
    {
        &self.uniques
    }

    /// Declares a composite index over the given column names (each
    /// canonicalized to lower case, order preserved). Fails on an empty
    /// column list or on a column that does not exist.
    pub fn add_index(&mut self, columns: &Vec<String>) -> (r: Result<(), InvalidOperation>)
        requires
            old(self).wf(),
        ensures
            r == Err::<(), InvalidOperation>(InvalidOperation::EmptyIndex) <==> columns@.len() == 0,
            r == Err::<(), InvalidOperation>(InvalidOperation::UnknownColumn) <==> columns@.len()
                > 0 && (exists|k: int|
                0 <= k < columns@.len() && !old(self).spec_has_column(
                    lower_of(#[trigger] columns@[k]@),
                )),
            r is Ok <==> columns@.len() > 0 && (forall|k: int|
                0 <= k < columns@.len() ==> old(self).spec_has_column(
                    lower_of(#[trigger] columns@[k]@),
                )),
            r is Err ==> *final(self) == *old(self),
            r is Ok ==> final(self).indices@.len() == old(self).indices@.len() + 1 && (forall|a: int|
                0 <= a < old(self).indices@.len() ==> final(self).indices@[a] == old(
                    self,
                ).indices@[a]) && final(self).indices@.last()@ == columns@.map_values(
                |s: String| lower_of(s@),
            ) && *final(self) == (Table { indices: final(self).indices, ..*old(self) }),
            final(self).wf(),
    {
        if columns.len() == 0 {
            return Err(InvalidOperation::EmptyIndex);
        }
        let mut lowered: Vec<String> = Vec::new();
        for k in 0..columns.len()
            invariant
                lowered@.len() == k,
                forall|j: int| 0 <= j < k ==> lowered@[j]@ == lower_of(#[trigger] columns@[j]@),
        {
            lowered.push(lowercase(columns[k].as_str()));
        }
        for k in 0..lowered.len()
            invariant
                lowered@.len() == columns@.len(),
                forall|j: int| 0 <= j < lowered@.len() ==> lowered@[j]@ == lower_of(
                    #[trigger] columns@[j]@,
                ),
                forall|j: int| 0 <= j < k ==> self.spec_has_column(#[trigger] lowered@[j]@),
                self == old(self),
                old(self).wf(),
        {
            if !self.has_column_exact(&lowered[k]) {
                proof {
                    assert(!old(self).spec_has_column(lower_of(columns@[k as int]@)));
                }
                return Err(InvalidOperation::UnknownColumn);
            }
        }
        let ix = Index { columns: lowered };
        proof {
            assert(ix@ =~= columns@.map_values(|s: String| lower_of(s@)));
        }
        self.indices.push(ix);
        proof {
            let oldt = *old(self);
            assert forall|i: int| 0 <= i < self.indices@.len() implies self.spec_index_wf(
                #[trigger] self.indices@[i],
            ) by {
                if i < oldt.indices@.len() {
                    assert(self.indices@[i] == oldt.indices@[i]);
                    assert(oldt.spec_index_wf(oldt.indices@[i]));
                } else {
                    assert(self.indices@[i] == ix);
                }
            };
        }
        Ok(())
    }

    /// The composite indices, in declaration order.
    pub fn list_indices(&self) -> (r: &Vec<Index>)
        ensures
            r == &self.indices,
    {
        &self.indices
    }

    /// Sets or clears the number of sample rows an external data generator
    /// should produce for this table.
    pub fn set_dataset_row_count(&mut self, count: Option<usize>)
        ensures
            *final(self) == (Table { dataset_row_count: count, ..*old(self) }),
            old(self).wf() ==> final(self).wf(),
    {
        self.dataset_row_count = count;
    }

    pub fn get_dataset_row_count(&self) -> (r: Option<usize>)
        ensures
            r == self.dataset_row_count,
    {
        self.dataset_row_count
    }

    /// The origin table named `ot` can be reached from this table: it is
    /// the table itself (self-references are permitted) or one of the
    /// sibling tables.
    pub open spec fn spec_origin_exists(&self, siblings: Seq<Table>, ot: Seq<char>) -> bool {
        self.name@ == ot || exists|i: int| 0 <= i < siblings.len() && siblings[i].name@ == ot
    }

    /// The origin table named `ot` can be reached and has a column named
    /// `oc`. When `ot` is this table's own name the table itself is the
    /// origin, even if a sibling carries the same name.
    pub open spec fn spec_origin_has_column(
        &self,
        siblings: Seq<Table>,
        ot: Seq<char>,
        oc: Seq<char>,
    ) -> bool {
        if self.name@ == ot {
            self.spec_has_column(oc)
        } else {
            exists|i: int|
                0 <= i < siblings.len() && siblings[i].name@ == ot && siblings[i].spec_has_column(
                    oc,
                )
        }
    }

    /// Declares a foreign key from a local column to a column of an origin
    /// table. Referential validity is checked against the table itself and
    /// the given sibling collection (the owning database's other tables,
    /// passed in explicitly so that the table needs no handle on its
    /// parent); all three names are canonicalized to lower case. Fails when
    /// the local column, the origin table or the origin column is missing;
    /// declaring the same edge twice leaves the table unchanged. The checks
    /// are against a snapshot: if the origin table is later removed or
    /// renamed, the stale edge is what the validator reports.
    pub fn add_foreign_key(
        &mut self,
        local_column: &str,
        origin_table: &str,
        origin_column: &str,
        siblings: &Vec<Table>,
    ) -> (r: Result<(), InvalidOperation>)
        requires
            old(self).wf(),
            forall|i: int, j: int|
                0 <= i < j < siblings@.len() ==> siblings@[i].name@ != siblings@[j].name@,
        ensures
            r is Ok <==> old(self).spec_has_column(lower_of(local_column@)) && old(
                self,
            ).spec_origin_has_column(
                siblings@,
                lower_of(origin_table@),
                lower_of(origin_column@),
            ),
            r == Err::<(), InvalidOperation>(InvalidOperation::UnknownTable) <==> old(
                self,
            ).spec_has_column(lower_of(local_column@)) && !old(self).spec_origin_exists(
                siblings@,
                lower_of(origin_table@),
            ),
            r == Err::<(), InvalidOperation>(InvalidOperation::UnknownColumn) <==> !old(
                self,
            ).spec_has_column(lower_of(local_column@)) || (old(self).spec_origin_exists(
                siblings@,
                lower_of(origin_table@),
            ) && !old(self).spec_origin_has_column(
                siblings@,
                lower_of(origin_table@),
                lower_of(origin_column@),
            )),
            r is Err ==> *final(self) == *old(self),
            r is Ok && old(self).spec_fk_contains(
                FkView {
                    local_column: lower_of(local_column@),
                    origin_table: lower_of(origin_table@),
                    origin_column: lower_of(origin_column@),
                },
            ) ==> *final(self) == *old(self),
            r is Ok && !old(self).spec_fk_contains(
                FkView {
                    local_column: lower_of(local_column@),
                    origin_table: lower_of(origin_table@),
                    origin_column: lower_of(origin_column@),
                },
            ) ==> fks_view(final(self).foreign_keys@) == fks_view(old(self).foreign_keys@).push(
                FkView {
                    local_column: lower_of(local_column@),
                    origin_table: lower_of(origin_table@),
                    origin_column: lower_of(origin_column@),
                },
            ) && *final(self) == (Table { foreign_keys: final(self).foreign_keys, ..*old(self) }),
            final(self).wf(),
    {
        let lc = lowercase(local_column);
        let ot = lowercase(origin_table);
        let oc = lowercase(origin_column);
        if !self.has_column_exact(&lc) {
            return Err(InvalidOperation::UnknownColumn);
        }
        let origin_present: bool;
        let origin_has: bool;
        if self.name == ot {
            origin_present = true;
            origin_has = self.has_column_exact(&oc);
        } else {
            match find_table_in(siblings, &ot) {
                Some(t) => {
                    origin_present = true;
                    origin_has = t.has_column_exact(&oc);
                    proof {
                        if !origin_has {
                            let a = choose|a: int|
                                0 <= a < siblings@.len() && siblings@[a] == *t;
                            assert forall|i: int|
                                0 <= i < siblings@.len() && siblings@[i].name@ == ot@ implies !siblings@[i].spec_has_column(oc@) by {
                                if i != a {
                                    assert(siblings@[i].name@ != siblings@[a].name@);
                                }
                            };
                        }
                    }
                },
                None => {
                    origin_present = false;
                    origin_has = false;
                },
            }
        }
        if !origin_present {
            return Err(InvalidOperation::UnknownTable);
        }
        if !origin_has {
            return Err(InvalidOperation::UnknownColumn);
        }
        if self.fk_contains_exact(&lc, &ot, &oc) {
            return Ok(());
        }
        let fk = ForeignKey { local_column: lc, origin_table: ot, origin_column: oc };
        self.foreign_keys.push(fk);
        proof {
            let oldt = *old(self);
            let fkv = FkView {
                local_column: lower_of(local_column@),
                origin_table: lower_of(origin_table@),
                origin_column: lower_of(origin_column@),
            };
            assert(fks_view(self.foreign_keys@) =~= fks_view(oldt.foreign_keys@).push(fkv));
            assert forall|i: int| 0 <= i < self.foreign_keys@.len() implies self.spec_has_column(
                (#[trigger] self.foreign_keys@[i])@.local_column,
            ) by {
                if i < oldt.foreign_keys@.len() {
                    assert(self.foreign_keys@[i] == oldt.foreign_keys@[i]);
                    assert(oldt.spec_has_column(oldt.foreign_keys@[i]@.local_column));
                }
            };
            assert forall|i: int, j: int| 0 <= i < j < self.foreign_keys@.len() implies self
                .foreign_keys@[i]@ != self.foreign_keys@[j]@ by {
                if j == oldt.foreign_keys@.len() {
                    assert(fks_view(oldt.foreign_keys@)[i] == oldt.foreign_keys@[i]@);
                }
            };
        }
        Ok(())
    }

    /// Finds the position of an already-canonicalized foreign-key triple.
    fn fk_find(&self, lc: &String, ot: &String, oc: &String) -> (r: Option<usize>)
        ensures
            match r {
                Some(i) => i < self.foreign_keys@.len() && self.foreign_keys@[i as int]@
                    == (FkView { local_column: lc@, origin_table: ot@, origin_column: oc@ }),
                None => forall|j: int|
                    0 <= j < self.foreign_keys@.len() ==> (#[trigger] self.foreign_keys@[j])@
                        != (FkView { local_column: lc@, origin_table: ot@, origin_column: oc@ }),
            },
    {
        for i in 0..self.foreign_keys.len()
            invariant
                forall|j: int|
                    0 <= j < i ==> (#[trigger] self.foreign_keys@[j])@ != (FkView {
                        local_column: lc@,
                        origin_table: ot@,
                        origin_column: oc@,
                    }),
        {
            let f = &self.foreign_keys[i];
            if f.local_column == *lc && f.origin_table == *ot && f.origin_column == *oc {
                return Some(i);
            }
        }
        None
    }

    /// Looks an already-canonicalized foreign-key triple up.
    fn fk_contains_exact(&self, lc: &String, ot: &String, oc: &String) -> (r: bool)
        ensures
            r == self.spec_fk_contains(
                FkView { local_column: lc@, origin_table: ot@, origin_column: oc@ },
            ),
    {
        let ghost fkv = FkView { local_column: lc@, origin_table: ot@, origin_column: oc@ };
        match self.fk_find(lc, ot, oc) {
            Some(i) => {
                proof {
                    assert(fks_view(self.foreign_keys@)[i as int] == fkv);
                }
                true
            },
            None => {
                proof {
                    assert forall|j: int| 0 <= j < self.foreign_keys@.len() implies fks_view(
                        self.foreign_keys@,
                    )[j] != fkv by {
                        assert((self.foreign_keys@[j])@ != fkv);
                    };
                }
                false
            },
        }
    }

    /// Withdraws a foreign-key triple (canonicalized to lower case);
    /// unknown triples are ignored.
    pub fn remove_foreign_key(&mut self, local_column: &str, origin_table: &str, origin_column: &str)
        requires
            old(self).wf(),
        ensures
            !old(self).spec_fk_contains(
                FkView {
                    local_column: lower_of(local_column@),
                    origin_table: lower_of(origin_table@),
                    origin_column: lower_of(origin_column@),
                },
            ) ==> *final(self) == *old(self),
            old(self).spec_fk_contains(
                FkView {
                    local_column: lower_of(local_column@),
                    origin_table: lower_of(origin_table@),
                    origin_column: lower_of(origin_column@),
                },
            ) ==> (exists|i: int|
                0 <= i < old(self).foreign_keys@.len() && old(self).foreign_keys@[i]@ == (FkView {
                    local_column: lower_of(local_column@),
                    origin_table: lower_of(origin_table@),
                    origin_column: lower_of(origin_column@),
                }) && fks_view(final(self).foreign_keys@) == fks_view(
                    old(self).foreign_keys@,
                ).remove(i)) && *final(self) == (Table {
                foreign_keys: final(self).foreign_keys,
                ..*old(self)
            }),
            !final(self).spec_fk_contains(
                FkView {
                    local_column: lower_of(local_column@),
                    origin_table: lower_of(origin_table@),
                    origin_column: lower_of(origin_column@),
                },
            ),
            final(self).wf(),
    {
        let lc = lowercase(local_column);
        let ot = lowercase(origin_table);
        let oc = lowercase(origin_column);
        let ghost fkv = FkView { local_column: lc@, origin_table: ot@, origin_column: oc@ };
        let found = self.fk_find(&lc, &ot, &oc);
        match found {
            Some(i) => {
                self.foreign_keys.remove(i);
                proof {
                    let oldt = *old(self);
                    assert(fks_view(oldt.foreign_keys@)[i as int] == fkv);
                    assert(fks_view(self.foreign_keys@) =~= fks_view(oldt.foreign_keys@).remove(
                        i as int,
                    ));
                    assert forall|a: int| 0 <= a < self.foreign_keys@.len() implies self
                        .spec_has_column((#[trigger] self.foreign_keys@[a])@.local_column) by {
                        if a < i {
                            assert(self.foreign_keys@[a] == oldt.foreign_keys@[a]);
                            assert(oldt.spec_has_column(oldt.foreign_keys@[a]@.local_column));
                        } else {
                            assert(self.foreign_keys@[a] == oldt.foreign_keys@[a + 1]);
                            assert(oldt.spec_has_column(oldt.foreign_keys@[a + 1]@.local_column));
                        }
                    };
                    assert forall|a: int, b: int| 0 <= a < b < self.foreign_keys@.len() implies self
                        .foreign_keys@[a]@ != self.foreign_keys@[b]@ by {
                        let oa: int = if a < i { a } else { a + 1 };
                        let ob: int = if b < i { b } else { b + 1 };
                        assert(self.foreign_keys@[a] == oldt.foreign_keys@[oa]);
                        assert(self.foreign_keys@[b] == oldt.foreign_keys@[ob]);
                    };
                }
            },
            None => {
                proof {
                    assert forall|j: int| 0 <= j < self.foreign_keys@.len() implies fks_view(
                        self.foreign_keys@,
                    )[j] != fkv by {
                        assert((self.foreign_keys@[j])@ != fkv);
                    };
                }
            },
        }
    }

    /// The declared foreign keys, in declaration order.
    pub fn list_foreign_keys(&self) -> (r: &Vec<ForeignKey>)
        ensures
            r == &self.foreign_keys,
    {
        &self.foreign_keys
    }
}

/// The top-level entity: a named database owning its users and tables.
#[derive(Debug, Clone, PartialEq)]
pub struct VirtualDatabase {
    pub name: String,
    pub users: Vec<User>,
    pub tables: Vec<Table>,
}

impl VirtualDatabase {
    /// There is a table with this (already canonicalized) name.
    pub open spec fn spec_has_table(&self, n: Seq<char>) -> bool {
        exists|i: int| 0 <= i < self.tables@.len() && self.tables@[i].name@ == n
    }

    /// There is a user with this name and host.
    pub open spec fn spec_has_user(&self, n: Seq<char>, h: Seq<char>) -> bool {
        exists|i: int|
            0 <= i < self.users@.len() && self.users@[i].name@ == n && self.users@[i].host@ == h
    }

    /// Well-formedness, kept continuously true by the mutators: table names
    /// unique (they are stored lower-case, so plain equality is the
    /// case-insensitive comparison), each table well-formed, and user
    /// (name, host) pairs unique.
    pub open spec fn wf(&self) -> bool {
        &&& forall|i: int, j: int|
            0 <= i < j < self.tables@.len() ==> self.tables@[i].name@ != self.tables@[j].name@
        &&& forall|i: int| 0 <= i < self.tables@.len() ==> (#[trigger] self.tables@[i]).wf()
        &&& forall|i: int, j: int|
            0 <= i < j < self.users@.len() ==> !(self.users@[i].name@ == self.users@[j].name@
                && self.users@[i].host@ == self.users@[j].host@)
    }

    /// A fresh, empty database. The database's own name is stored as given;
    /// only table and column names are canonicalized.
    pub fn new(name: &str) -> (db: VirtualDatabase)
        ensures
            db.name@ == name@,
            db.users@.len() == 0,
            db.tables@.len() == 0,
            db.wf(),
    {
        VirtualDatabase { name: name.to_owned(), users: Vec::new(), tables: Vec::new() }
    }

    pub fn set_name(&mut self, new_name: &str)
        ensures
            final(self).name@ == new_name@,
            *final(self) == (VirtualDatabase { name: final(self).name, ..*old(self) }),
            old(self).wf() ==> final(self).wf(),
    {
        self.name = new_name.to_owned();
    }

    pub fn get_name(&self) -> (r: &str)
        ensures
            r@ == self.name@,
    {
        self.name.as_str()
    }

    /// Appends a user. Fails if a user with the same name and host already
    /// exists.
    pub fn add_user(&mut self, user: User) -> (r: Result<(), InvalidOperation>)
        requires
            old(self).wf(),
        ensures
            r is Ok <==> !old(self).spec_has_user(user.name@, user.host@),
            r is Ok ==> final(self).users@ == old(self).users@.push(user) && *final(self)
                == (VirtualDatabase { users: final(self).users, ..*old(self) }),
            r is Err ==> r == Err::<(), InvalidOperation>(InvalidOperation::DuplicateUser)
                && *final(self) == *old(self),
            final(self).wf(),
    {
        if user_find(&self.users, &user.name, &user.host).is_some() {
            return Err(InvalidOperation::DuplicateUser);
        }
        self.users.push(user);
        proof {
            let oldu = old(self).users@;
            assert forall|i: int, j: int| 0 <= i < j < self.users@.len() implies !(self.users@[i].name@
                == self.users@[j].name@ && self.users@[i].host@ == self.users@[j].host@) by {
                if j == oldu.len() {
                    assert(self.users@[i] == oldu[i]);
                }
            };
        }
        Ok(())
    }

    /// Removes the user with the given name and host, if any.
    pub fn remove_user(&mut self, name: &str, host: &str)
        requires
            old(self).wf(),
        ensures
            !old(self).spec_has_user(name@, host@) ==> *final(self) == *old(self),
            old(self).spec_has_user(name@, host@) ==> (exists|i: int|
                0 <= i < old(self).users@.len() && old(self).users@[i].name@ == name@ && old(
                    self,
                ).users@[i].host@ == host@ && final(self).users@ == old(self).users@.remove(i))
                && *final(self) == (VirtualDatabase { users: final(self).users, ..*old(self) }),
            !final(self).spec_has_user(name@, host@),
            final(self).wf(),
    {
        let name_s = name.to_owned();
        let host_s = host.to_owned();
        let found = user_find(&self.users, &name_s, &host_s);
        match found {
            Some(i) => {
                self.users.remove(i);
                proof {
                    let oldu = old(self).users@;
                    assert forall|a: int, b: int| 0 <= a < b < self.users@.len() implies !(self
                        .users@[a].name@ == self.users@[b].name@ && self.users@[a].host@
                        == self.users@[b].host@) by {
                        let oa: int = if a < i { a } else { a + 1 };
                        let ob: int = if b < i { b } else { b + 1 };
                        assert(self.users@[a] == oldu[oa]);
                        assert(self.users@[b] == oldu[ob]);
                    };
                }
            },
            None => (),
        }
    }

    /// The users, in insertion order.
    pub fn list_users(&self) -> (r: &Vec<User>)
        ensures
            r == &self.users,
    {
        &self.users
    }

    /// Appends a table. Fails if a table of the same (case-insensitive)
    /// name already exists.
    pub fn add_table(&mut self, table: Table) -> (r: Result<(), InvalidOperation>)
        requires
            old(self).wf(),
            table.wf(),
        ensures
            r is Ok <==> !old(self).spec_has_table(table.name@),
            r is Ok ==> final(self).tables@ == old(self).tables@.push(table) && *final(self)
                == (VirtualDatabase { tables: final(self).tables, ..*old(self) }),
            r is Err ==> r == Err::<(), InvalidOperation>(InvalidOperation::DuplicateTableName)
                && *final(self) == *old(self),
            final(self).wf(),
    {
        match find_table_in(&self.tables, &table.name) {
            Some(_) => Err(InvalidOperation::DuplicateTableName),
            None => {
                self.tables.push(table);
                proof {
                    let oldv = old(self).tables@;
                    assert forall|i: int, j: int| 0 <= i < j < self.tables@.len() implies self
                        .tables@[i].name@ != self.tables@[j].name@ by {
                        if j == oldv.len() {
                            assert(self.tables@[i] == oldv[i]);
                        }
                    };
                }
                Ok(())
            },
        }
    }

    /// Removes the table with the given (canonicalized) name, if any.
    /// Foreign keys in sibling tables that referenced it are left in place:
    /// the validator reports them as dangling.
    pub fn remove_table(&mut self, name: &str)
        requires
            old(self).wf(),
        ensures
            !old(self).spec_has_table(lower_of(name@)) ==> *final(self) == *old(self),
            old(self).spec_has_table(lower_of(name@)) ==> (exists|i: int|
                0 <= i < old(self).tables@.len() && old(self).tables@[i].name@ == lower_of(name@)
                    && final(self).tables@ == old(self).tables@.remove(i)) && *final(self)
                == (VirtualDatabase { tables: final(self).tables, ..*old(self) }),
            !final(self).spec_has_table(lower_of(name@)),
            final(self).wf(),
    {
        let lowered = lowercase(name);
        let found = find_table_index(&self.tables, &lowered);
        match found {
            Some(i) => {
                self.tables.remove(i);
                proof {
                    let oldv = old(self).tables@;
                    assert forall|a: int, b: int| 0 <= a < b < self.tables@.len() implies self
                        .tables@[a].name@ != self.tables@[b].name@ by {
                        let oa: int = if a < i { a } else { a + 1 };
                        let ob: int = if b < i { b } else { b + 1 };
                        assert(self.tables@[a] == oldv[oa]);
                        assert(self.tables@[b] == oldv[ob]);
                    };
                    assert forall|a: int| 0 <= a < self.tables@.len() implies (
                    #[trigger] self.tables@[a]).wf() by {
                        let oa: int = if a < i { a } else { a + 1 };
                        assert(self.tables@[a] == oldv[oa]);
                    };
                }
            },
            None => (),
        }
    }

    /// Finds a table by name (canonicalized to lower case).
    pub fn get_table(&self, name: &str) -> (r: Option<&Table>)
        requires
            self.wf(),
        ensures
            r is Some <==> self.spec_has_table(lower_of(name@)),
            r matches Some(t) ==> t.name@ == lower_of(name@) && exists|i: int|
                0 <= i < self.tables@.len() && self.tables@[i] == *t,
    {
        let lowered = lowercase(name);
        find_table_in(&self.tables, &lowered)
    }

    /// The tables, in insertion order.
    pub fn list_tables(&self) -> (r: &Vec<Table>)
        ensures
            r == &self.tables,
    {
        &self.tables
    }
}

/// Finds a table with the given (already canonicalized) name.
pub(crate) fn find_table_in<'a>(tables: &'a Vec<Table>, name: &String) -> (r: Option<&'a Table>)
    ensures
        match r {
            Some(t) => t.name@ == name@ && exists|i: int|
                0 <= i < tables@.len() && tables@[i] == *t,
            None => forall|i: int| 0 <= i < tables@.len() ==> tables@[i].name@ != name@,
        },
{
    for i in 0..tables.len()
        invariant
            forall|j: int| 0 <= j < i ==> tables@[j].name@ != name@,
    {
        if tables[i].name == *name {
            return Some(&tables[i]);
        }
    }
    None
}

/// Finds the index of the table with the given (already canonicalized)
/// name.
fn find_table_index(tables: &Vec<Table>, name: &String) -> (r: Option<usize>)
    ensures
        match r {
            Some(i) => i < tables@.len() && tables@[i as int].name@ == name@,
            None => forall|i: int| 0 <= i < tables@.len() ==> tables@[i].name@ != name@,
        },
{
    for i in 0..tables.len()
        invariant
            forall|j: int| 0 <= j < i ==> tables@[j].name@ != name@,
    {
        if tables[i].name == *name {
            return Some(i);
        }
    }
    None
}

/// Finds the index of the user with the given name and host.
fn user_find(users: &Vec<User>, name: &String, host: &String) -> (r: Option<usize>)
    ensures
        match r {
            Some(i) => i < users@.len() && users@[i as int].name@ == name@ && users@[i as int].host@
                == host@,
            None => forall|j: int|
                0 <= j < users@.len() ==> !((#[trigger] users@[j]).name@ == name@ && users@[j].host@
                    == host@),
        },
{
    for i in 0..users.len()
        invariant
            forall|j: int|
                0 <= j < i ==> !((#[trigger] users@[j]).name@ == name@ && users@[j].host@ == host@),
    {
        let u = &users[i];
        if u.name == *name && u.host == *host {
            return Some(i);
        }
    }
    None
}

/// Finds some string in the vector equal (as characters) to `s`.
pub(crate) fn str_vec_contains(v: &Vec<String>, s: &String) -> (r: bool)
    ensures
        r == str_seq_view(v@).contains(s@),
{
    for i in 0..v.len()
        invariant
            forall|j: int| 0 <= j < i ==> v@[j]@ != s@,
    {
        if v[i] == *s {
            assert(str_seq_view(v@)[i as int] == s@);
            return true;
        }
    }
    assert(forall|j: int| 0 <= j < v@.len() ==> str_seq_view(v@)[j] != s@);
    false
}

/// Finds the index of the first string in the vector equal to `s`.
fn str_vec_find(v: &Vec<String>, s: &String) -> (r: Option<usize>)
    ensures
        match r {
            Some(i) => i < v@.len() && v@[i as int]@ == s@,
            None => forall|j: int| 0 <= j < v@.len() ==> v@[j]@ != s@,
        },
{
    for i in 0..v.len()
        invariant
            forall|j: int| 0 <= j < i ==> v@[j]@ != s@,
    {
        if v[i] == *s {
            return Some(i);
        }
    }
    None
}

} // verus!
