//! What holds of the operations together: of the rows that they leave behind,
//! and of what one of them finds after another.
//!
//! A law speaks of the tables before and after the statements of an operation,
//! and of any answer that a query may give on them. Where it names `changed`,
//! that is the number of rows that the engine reports.
pub mod rows;
pub mod numbers;
pub mod texts;
pub mod keys;
pub mod accounts;
pub mod servers;
pub mod notes;
pub mod search;
pub mod pages;
pub mod chats;
pub mod evictions;
pub mod lifecycles;
pub mod views;
pub mod language;
pub mod calls;
