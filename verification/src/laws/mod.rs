//! What the operations of the library promise as a whole.

pub mod boot;
pub mod commands;
pub mod courses;
pub mod helper;
pub mod lists;
pub mod menu;
pub mod options;
pub mod previews;
pub mod progress;
pub mod search;
pub mod tables;
pub mod texts;
pub mod transactions;
