//! The search for packages and what is shown of it.

pub mod find;
pub mod highlight;
pub mod menu;
pub mod rows;
