//! What holds of the library as a whole.

pub mod changes;
pub mod collections;
pub mod content;
pub mod details;
pub mod finding;
pub mod lists;
pub mod restrictions;
pub mod selection;
pub mod steps;
pub mod validation;
pub mod values;
