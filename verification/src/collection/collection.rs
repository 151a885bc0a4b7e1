use crate::collection::field::Field;
use vstd::prelude::*;

verus! {

/// The schema of one collection of records.
pub struct Collection {
    pub id: [u8; 16],
    pub name: String,
    pub description: String,
    pub fields: Vec<Field>,
}

} // verus!
