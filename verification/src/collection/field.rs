use vstd::prelude::*;

verus! {

/// One field of a collection's schema.
pub struct Field {
    pub id: [u8; 16],
    pub name: String,
    pub field_type: FieldType,
}

/// The kinds of value that a field can hold.
#[derive(Debug, Clone, Copy, PartialEq, Eq, Structural)]
pub enum FieldType {
    Text,
    Number,
    Boolean,
    Date,
    Time,
    DateTime,
    Object,
    Array,
}

} // verus!
