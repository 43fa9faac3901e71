//! A package manager front end: what it prints, what it decides and in which order it acts.

pub mod backend;
pub mod config;
pub mod exec;
pub mod flags;
pub mod fmt;
pub mod laws;
pub mod messages;
pub mod number;
pub mod order;
pub mod remove;
pub mod search;
pub mod style;
pub mod subcommands;
pub mod sync;
pub mod text;
pub mod tx_helper;
pub mod ui;
