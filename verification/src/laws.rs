//! Laws of the extraction, stated over the views and proved for every type expression, every
//! sequence of names and every start index.

pub mod alias_count;
pub mod no_opaque;
pub mod order;
pub mod shape;
pub mod unique;
