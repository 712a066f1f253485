//! The tables that statements and queries speak of.
use vstd::prelude::*;

verus! {

/// The SQL that makes the tables, the full-text index of notes, and the triggers
/// by which the index follows the notes.
pub const SCHEMA: &'static str = "
CREATE TABLE accounts (
    id TEXT NOT NULL PRIMARY KEY,
    host TEXT NOT NULL,
    token TEXT NOT NULL,
    user_id TEXT NOT NULL,
    username TEXT NOT NULL,
    display_name TEXT,
    avatar_url TEXT,
    software TEXT NOT NULL,
    UNIQUE (host, user_id)
);
CREATE TABLE server_detections (
    host TEXT NOT NULL PRIMARY KEY,
    software_name TEXT NOT NULL,
    software_version TEXT NOT NULL,
    software_repository TEXT,
    meta_json TEXT NOT NULL,
    updated_at INTEGER NOT NULL
);
CREATE TABLE notes_cache (
    note_id TEXT NOT NULL,
    account_id TEXT NOT NULL,
    server_host TEXT NOT NULL,
    created_at TEXT NOT NULL,
    text TEXT,
    note_json TEXT NOT NULL,
    cached_at INTEGER NOT NULL,
    timeline_type TEXT NOT NULL,
    uri TEXT,
    PRIMARY KEY (note_id, account_id)
);
CREATE INDEX notes_cache_timeline ON notes_cache (account_id, timeline_type, created_at);
CREATE INDEX notes_cache_uri ON notes_cache (uri) WHERE uri IS NOT NULL;
CREATE VIRTUAL TABLE notes_fts USING fts5(
    text, content='notes_cache', content_rowid='rowid', tokenize='trigram'
);
CREATE TRIGGER notes_fts_insert AFTER INSERT ON notes_cache WHEN new.text IS NOT NULL BEGIN
    INSERT INTO notes_fts (rowid, text) VALUES (new.rowid, new.text);
END;
CREATE TRIGGER notes_fts_delete AFTER DELETE ON notes_cache WHEN old.text IS NOT NULL BEGIN
    INSERT INTO notes_fts (notes_fts, rowid, text) VALUES ('delete', old.rowid, old.text);
END;
CREATE TRIGGER notes_fts_update AFTER UPDATE OF text ON notes_cache BEGIN
    INSERT INTO notes_fts (notes_fts, rowid, text)
        SELECT 'delete', old.rowid, old.text WHERE old.text IS NOT NULL;
    INSERT INTO notes_fts (rowid, text)
        SELECT new.rowid, new.text WHERE new.text IS NOT NULL;
END;
CREATE TABLE ogp_cache (
    url TEXT NOT NULL PRIMARY KEY,
    title TEXT,
    description TEXT,
    image TEXT,
    site_name TEXT,
    icon TEXT,
    player_url TEXT,
    player_width INTEGER,
    player_height INTEGER,
    player_allow TEXT,
    final_url TEXT,
    sensitive INTEGER NOT NULL DEFAULT 0,
    medias_json TEXT,
    expires_at INTEGER NOT NULL
);
CREATE TABLE chat_messages_cache (
    message_id TEXT NOT NULL,
    account_id TEXT NOT NULL,
    server_host TEXT NOT NULL,
    thread_id TEXT NOT NULL,
    thread_kind TEXT NOT NULL,
    from_user_id TEXT NOT NULL,
    created_at TEXT NOT NULL,
    message_json TEXT NOT NULL,
    cached_at INTEGER NOT NULL,
    PRIMARY KEY (message_id, account_id)
);
CREATE INDEX chat_messages_cache_thread
    ON chat_messages_cache (account_id, thread_id, created_at);
";

} // verus!
