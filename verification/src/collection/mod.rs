pub mod collection;
pub mod field;

pub use collection::Collection;
pub use field::{Field, FieldType};
