//! Storage rules of a note client's local database.
//!
//! The operations of `Database` are data: statements and queries for an SQLite
//! engine, and functions from the engine's answers to results. What they mean
//! for the tables is stated in `tables`, and what follows from that in `laws`.
pub mod text;
pub mod value;
pub mod sql;
pub mod tables;
pub mod schema;
pub mod error;
pub mod records;
pub mod decode;
pub mod config;
pub mod database;
pub mod accounts;
pub mod servers;
pub mod notes;
pub mod eviction;
pub mod summaries;
pub mod chat;
pub mod messages;
pub mod lifecycle;
pub mod laws;

pub use crate::chat::{ChatMessage, ChatMessageReaction, ChatReactionUser, ChatRecord};
pub use crate::config::{ChatEvictionConfig, EvictionConfig};
pub use crate::database::{Database, Transaction};
pub use crate::decode::Answer;
pub use crate::error::{DatabaseError, NoteDeckError};
pub use crate::records::{Account, NoteRecord, ServerDetection, SummaryRow};
pub use crate::sql::{Query, Sql, Statement};
pub use crate::value::Value;
