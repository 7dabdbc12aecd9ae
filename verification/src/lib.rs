//! Verified core of a Linux task manager: command parsing, process
//! searching and filtering, table columns and ordering, and report text.
pub mod columns;
pub mod command;
pub mod decimal;
pub mod filter;
pub mod order;
pub mod process;
pub mod report;
pub mod text;
pub mod words;
