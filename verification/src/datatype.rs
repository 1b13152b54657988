//! The closed set of SQL datatypes a column can carry.

use vstd::prelude::*;

verus! {

/// A column's SQL datatype. The variants are type descriptors only: no row
/// values are stored in the model. `Varchar` carries its declared maximum
/// length; `Enum` and `Set` carry their ordered lists of allowed literal
/// values.
#[derive(Debug, Clone, PartialEq)]
pub enum Datatype {
    Int8,
    Uint8,
    Int16,
    Uint16,
    Int32,
    Uint32,
    Int64,
    Uint64,
    Float,
    Double,
    Boolean,
    Varchar(u16),
    Date,
    Time,
    DateTime,
    Year,
    Enum(Vec<String>),
    SetOf(Vec<String>),
}

impl Datatype {
    /// The integer family: the only datatypes on which auto-increment is
    /// allowed.
    pub open spec fn spec_is_integer(&self) -> bool {
        match *self {
            Datatype::Int8 => true,
            Datatype::Uint8 => true,
            Datatype::Int16 => true,
            Datatype::Uint16 => true,
            Datatype::Int32 => true,
            Datatype::Uint32 => true,
            Datatype::Int64 => true,
            Datatype::Uint64 => true,
            _ => false,
        }
    }

    /// Reports whether this datatype belongs to the integer family.
    pub fn is_integer(&self) -> (r: bool)
        ensures
            r == self.spec_is_integer(),
    {
        match *self {
            Datatype::Int8 => true,
            Datatype::Uint8 => true,
            Datatype::Int16 => true,
            Datatype::Uint16 => true,
            Datatype::Int32 => true,
            Datatype::Uint32 => true,
            Datatype::Int64 => true,
            Datatype::Uint64 => true,
            _ => false,
        }
    }
}

impl Default for Datatype {
    /// A fresh column defaults to a plain 32-bit integer.
    fn default() -> (r: Self)
        ensures
            r == Datatype::Int32,
    {
        Datatype::Int32
    }
}

} // verus!
