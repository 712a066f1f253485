//! The library's statements, queries and replies against a real engine.
use notedeck_store::decode::present_only;
use notedeck_store::lifecycle::{Action, BackupStep, Opening, Stage};
use notedeck_store::messages::{ReactionStep, ThreadStep};
use notedeck_store::{
    Account, Answer, ChatEvictionConfig, ChatMessage, ChatMessageReaction, ChatReactionUser,
    ChatRecord, Database, DatabaseError, EvictionConfig, NoteDeckError, NoteRecord, Query,
    ServerDetection, Sql, Statement, SummaryRow, Transaction, Value,
};
use std::path::{Path, PathBuf};

// ---- an engine ----

fn to_engine(v: &Value) -> rusqlite::types::Value {
    match v {
        Value::Null => rusqlite::types::Value::Null,
        Value::Integer(i) => rusqlite::types::Value::Integer(*i),
        Value::Text(s) => rusqlite::types::Value::Text(s.clone()),
        Value::InvalidText | Value::Other => rusqlite::types::Value::Blob(Vec::new()),
    }
}

fn from_engine(v: rusqlite::types::ValueRef<'_>) -> Value {
    match v {
        rusqlite::types::ValueRef::Null => Value::Null,
        rusqlite::types::ValueRef::Integer(i) => Value::Integer(i),
        rusqlite::types::ValueRef::Text(bytes) => match std::str::from_utf8(bytes) {
            Ok(s) => Value::Text(s.to_string()),
            Err(_) => Value::InvalidText,
        },
        _ => Value::Other,
    }
}

fn failure(e: rusqlite::Error) -> NoteDeckError {
    NoteDeckError::Database(match e {
        rusqlite::Error::SqliteFailure(code, message) => DatabaseError::SqliteFailure {
            code: code.extended_code,
            message,
        },
        other => DatabaseError::Other { message: other.to_string() },
    })
}

fn ask_sql(conn: &rusqlite::Connection, sql: &Sql) -> Result<Answer, NoteDeckError> {
    let mut stmt = conn.prepare(&sql.text).map_err(failure)?;
    let width = stmt.column_count();
    let params: Vec<rusqlite::types::Value> = sql.params.iter().map(to_engine).collect();
    let mut rows = stmt.query(rusqlite::params_from_iter(params)).map_err(failure)?;
    let mut answer = Answer { rows: Vec::new(), failure: None };
    loop {
        match rows.next() {
            Ok(Some(row)) => {
                let mut cells = Vec::new();
                for i in 0..width {
                    cells.push(from_engine(row.get_ref(i).unwrap()));
                }
                answer.rows.push(cells);
            }
            Ok(None) => return Ok(answer),
            Err(e) => {
                answer.failure = Some(failure(e));
                return Ok(answer);
            }
        }
    }
}

fn run(conn: &rusqlite::Connection, statement: &Statement) -> Result<usize, NoteDeckError> {
    let sql = statement.sql();
    let params: Vec<rusqlite::types::Value> = sql.params.iter().map(to_engine).collect();
    conn.execute(&sql.text, rusqlite::params_from_iter(params)).map_err(failure)
}

fn commit(
    conn: &rusqlite::Connection,
    transaction: &Transaction,
) -> Result<Vec<usize>, NoteDeckError> {
    let tx = conn.unchecked_transaction().map_err(failure)?;
    let mut changed = Vec::new();
    for statement in &transaction.statements {
        changed.push(run(&tx, statement)?);
    }
    tx.commit().map_err(failure)?;
    Ok(changed)
}

fn now() -> i64 {
    std::time::SystemTime::now()
        .duration_since(std::time::UNIX_EPOCH)
        .unwrap()
        .as_secs() as i64
}

fn nothing() -> Answer {
    Answer { rows: Vec::new(), failure: None }
}

struct Db {
    writer: rusqlite::Connection,
    reader: rusqlite::Connection,
    stages: Vec<Stage>,
}

impl Db {
    fn open(path: &Path) -> Result<Db, NoteDeckError> {
        Db::opened(path, Database::open())
    }

    fn opened(path: &Path, opening: Opening) -> Result<Db, NoteDeckError> {
        let mut opening = opening;
        let mut writer: Option<rusqlite::Connection> = None;
        let mut reader: Option<rusqlite::Connection> = None;
        let mut stages = Vec::new();
        loop {
            stages.push(opening.stage);
            let reply: Result<Answer, NoteDeckError> = match opening.action(now()) {
                Action::OpenWriter => rusqlite::Connection::open(path)
                    .map(|c| {
                        writer = Some(c);
                        nothing()
                    })
                    .map_err(failure),
                Action::OpenReader => rusqlite::Connection::open_with_flags(
                    path,
                    rusqlite::OpenFlags::SQLITE_OPEN_READ_ONLY
                        | rusqlite::OpenFlags::SQLITE_OPEN_NO_MUTEX
                        | rusqlite::OpenFlags::SQLITE_OPEN_URI,
                )
                .map(|c| {
                    reader = Some(c);
                    nothing()
                })
                .map_err(failure),
                Action::RestrictPermissions => Ok(nothing()),
                Action::Migrate(sql) => {
                    let migration =
                        refinery::Migration::unapplied("V1__tables", &sql.text).unwrap();
                    refinery::Runner::new(&[migration])
                        .run(writer.as_mut().unwrap())
                        .map(|_| nothing())
                        .map_err(|e| NoteDeckError::migration_failed(&e.to_string()))
                }
                Action::RunWriter(sql) => writer
                    .as_ref()
                    .unwrap()
                    .execute_batch(&sql.text)
                    .map(|_| nothing())
                    .map_err(failure),
                Action::RunReader(sql) => reader
                    .as_ref()
                    .unwrap()
                    .execute_batch(&sql.text)
                    .map(|_| nothing())
                    .map_err(failure),
                Action::AskWriter(sql) => ask_sql(writer.as_ref().unwrap(), &sql),
                Action::Commit(transaction) => {
                    commit(writer.as_ref().unwrap(), &transaction).map(|_| nothing())
                }
                Action::Nothing => {
                    return Ok(Db {
                        writer: writer.unwrap(),
                        reader: reader.unwrap(),
                        stages,
                    })
                }
            };
            opening = opening.advance(&reply)?;
        }
    }

    fn ask(&self, query: &Query) -> Result<Answer, NoteDeckError> {
        ask_sql(&self.reader, &query.sql())
    }

    fn run(&self, statement: &Statement) -> Result<usize, NoteDeckError> {
        run(&self.writer, statement)
    }

    fn upsert_account(&self, account: &Account) -> Result<(), NoteDeckError> {
        self.run(&Database::upsert_account(account)).map(|_| ())
    }

    fn load_accounts(&self) -> Result<Vec<Account>, NoteDeckError> {
        Database::load_accounts_reply(&self.ask(&Database::load_accounts())?)
    }

    fn get_account(&self, id: &str) -> Result<Option<Account>, NoteDeckError> {
        Database::get_account_reply(&self.ask(&Database::get_account(id))?)
    }

    fn delete_account(&self, id: &str) -> Result<(), NoteDeckError> {
        for statement in &Database::delete_account(id) {
            self.run(statement)?;
        }
        Ok(())
    }

    fn clear_token(&self, id: &str) -> Result<(), NoteDeckError> {
        self.run(&Database::clear_token(id)).map(|_| ())
    }

    fn upsert_server_detection(&self, d: &ServerDetection) -> Result<(), NoteDeckError> {
        self.run(&Database::upsert_server_detection(d)).map(|_| ())
    }

    fn load_server_detections(&self) -> Result<Vec<ServerDetection>, NoteDeckError> {
        Database::load_server_detections_reply(&self.ask(&Database::load_server_detections())?)
    }

    fn get_server_detection(&self, host: &str) -> Result<Option<ServerDetection>, NoteDeckError> {
        Database::get_server_detection_reply(&self.ask(&Database::get_server_detection(host))?)
    }

    fn cache_notes(&self, notes: &[NoteRecord], timeline: &str) -> Result<(), NoteDeckError> {
        let notes: Vec<NoteRecord> = notes.to_vec();
        commit(&self.writer, &Database::cache_notes(&notes, timeline, now())).map(|_| ())
    }

    fn cache_note(&self, note: &NoteRecord, timeline: &str) -> Result<(), NoteDeckError> {
        commit(&self.writer, &Database::cache_note(note, timeline, now())).map(|_| ())
    }

    fn delete_cached_note(&self, note_id: &str) -> Result<(), NoteDeckError> {
        self.run(&Database::delete_cached_note(note_id)).map(|_| ())
    }

    fn get_cached_timeline(
        &self,
        account_id: &str,
        timeline: &str,
        limit: i64,
    ) -> Result<Vec<String>, NoteDeckError> {
        let answer = self.ask(&Database::get_cached_timeline(account_id, timeline, limit))?;
        Ok(ids(&Database::notes_reply(&answer)?))
    }

    fn search_cached_notes(
        &self,
        account_id: &str,
        text: &str,
        limit: i64,
    ) -> Result<Vec<String>, NoteDeckError> {
        let answer = self.ask(&Database::search_cached_notes(account_id, text, limit))?;
        Ok(ids(&Database::search_reply(&answer)))
    }

    fn get_cache_date_range(
        &self,
        account_id: &str,
        timeline: &str,
    ) -> Result<Option<(String, String)>, NoteDeckError> {
        let answer = self.ask(&Database::get_cache_date_range(account_id, timeline))?;
        Database::get_cache_date_range_reply(&answer)
    }

    fn account_cache_count(&self, account_id: &str) -> Result<i64, NoteDeckError> {
        Database::count_reply(&self.ask(&Database::account_cache_count(account_id))?)
    }

    fn chat_cache_count(&self, account_id: &str) -> Result<i64, NoteDeckError> {
        Database::count_reply(&self.ask(&Database::chat_cache_count(account_id))?)
    }

    fn evict(&self, transaction: &Transaction) -> Result<u64, NoteDeckError> {
        Ok(Database::total_deleted(&commit(&self.writer, transaction)?))
    }

    fn cleanup_with_eviction(&self, config: &EvictionConfig) -> Result<u64, NoteDeckError> {
        self.evict(&Database::cleanup_with_eviction(config, now()))
    }

    fn cleanup_chat_with_eviction(
        &self,
        config: &ChatEvictionConfig,
    ) -> Result<u64, NoteDeckError> {
        self.evict(&Database::cleanup_chat_with_eviction(config, now()))
    }

    fn cache_summary(&self, url: &str, row: &SummaryRow, ttl: i64) -> Result<(), NoteDeckError> {
        self.run(&Database::cache_summary(url, row, ttl, now())).map(|_| ())
    }

    fn get_cached_summary(&self, url: &str) -> Result<Option<SummaryRow>, NoteDeckError> {
        let answer = self.ask(&Database::get_cached_summary(url, now()))?;
        Database::get_cached_summary_reply(url, &answer)
    }

    fn incremental_vacuum_step(&self) -> Result<(), NoteDeckError> {
        self.writer
            .execute_batch(&Database::incremental_vacuum_step().text)
            .map_err(failure)
    }

    fn cache_chat_message(
        &self,
        msg: &ChatMessage,
        account_id: &str,
        account_user_id: &str,
        server_host: &str,
    ) -> Result<bool, NoteDeckError> {
        let record = ChatRecord { message: msg.clone(), json: Some(message_json(msg)) };
        let (transaction, written) =
            Database::cache_chat_message(&record, account_id, account_user_id, server_host, now());
        commit(&self.writer, &transaction)?;
        Ok(written)
    }

    fn get_cached_chat_history(
        &self,
        account_id: &str,
        limit: i64,
    ) -> Result<Vec<ChatMessage>, NoteDeckError> {
        let answer = self.ask(&Database::get_cached_chat_history(account_id, limit))?;
        Ok(messages(&Database::messages_reply(&answer)))
    }

    fn get_cached_chat_thread_messages(
        &self,
        account_id: &str,
        thread_id: &str,
        until_id: Option<&str>,
        limit: i64,
    ) -> Result<Vec<ChatMessage>, NoteDeckError> {
        let mut step =
            Database::get_cached_chat_thread_messages(account_id, thread_id, until_id, limit);
        loop {
            step = match step {
                ThreadStep::Anchor(query) => Database::thread_anchor_reply(
                    account_id,
                    thread_id,
                    &self.ask(&query),
                    limit,
                ),
                ThreadStep::Messages(query) => {
                    return Ok(messages(&Database::messages_reply(&self.ask(&query)?)))
                }
                ThreadStep::Nothing => return Ok(Vec::new()),
            };
        }
    }

    fn get_cached_chat_latest_message_id(
        &self,
        account_id: &str,
        thread_id: &str,
    ) -> Result<Option<String>, NoteDeckError> {
        let query = Database::get_cached_chat_latest_message_id(account_id, thread_id);
        Database::get_cached_chat_latest_message_id_reply(&self.ask(&query)?)
    }

    fn apply_chat_message_reaction(
        &self,
        account_id: &str,
        message_id: &str,
        reactor: &ChatReactionUser,
        reaction: &str,
        is_react: bool,
    ) -> Result<bool, NoteDeckError> {
        let tx = self.writer.unchecked_transaction().map_err(failure)?;
        let mut step = Database::apply_chat_message_reaction(account_id, message_id);
        loop {
            step = match step {
                ReactionStep::Find(query) => {
                    Database::reaction_found(&ask_sql(&tx, &query.sql()))
                }
                ReactionStep::Read(json) => Database::reaction_read(
                    message_in(&json),
                    json,
                    reactor,
                    reaction,
                    is_react,
                ),
                ReactionStep::Write { message, json } => Database::reaction_written(
                    account_id,
                    message_id,
                    Some(message_json(&message)),
                    json,
                ),
                ReactionStep::Store(statement) => {
                    let n = run(&tx, &statement)?;
                    tx.commit().map_err(failure)?;
                    return Ok(Database::any_changed(n));
                }
                ReactionStep::Unapplied => return Ok(false),
            };
        }
    }

    fn delete_cached_chat_message(
        &self,
        account_id: &str,
        message_id: &str,
    ) -> Result<bool, NoteDeckError> {
        let statement = Database::delete_cached_chat_message(account_id, message_id);
        Ok(Database::any_changed(self.run(&statement)?))
    }

    fn backup_to(
        &self,
        dest: &Path,
        existing: Option<tempfile::TempPath>,
        strip_tokens: bool,
    ) -> Result<(), NoteDeckError> {
        let mut existing = existing;
        let there = dest.exists();
        for step in Database::backup_to(&dest.to_string_lossy(), there, strip_tokens) {
            match step {
                BackupStep::RemoveExisting => existing
                    .take()
                    .unwrap()
                    .close()
                    .map_err(|e| NoteDeckError::backup_not_replaced(&e.to_string()))?,
                BackupStep::Copy(sql) => {
                    let params: Vec<rusqlite::types::Value> =
                        sql.params.iter().map(to_engine).collect();
                    self.writer
                        .execute(&sql.text, rusqlite::params_from_iter(params))
                        .map_err(failure)?;
                }
                BackupStep::RestrictPermissions => {}
                BackupStep::OnCopy(statement) => {
                    let copy = rusqlite::Connection::open(dest).map_err(failure)?;
                    run(&copy, &statement)?;
                }
            }
        }
        Ok(())
    }
}

fn temp_db() -> (tempfile::TempDir, Db) {
    let dir = tempfile::tempdir().unwrap();
    let db_path = dir.path().join("test.db");
    let db = Db::open(&db_path).unwrap();
    (dir, db)
}

// ---- JSON ----

fn text(s: &str) -> serde_json::Value {
    serde_json::Value::String(s.to_string())
}

fn optional(s: &Option<String>) -> serde_json::Value {
    match s {
        Some(s) => text(s),
        None => serde_json::Value::Null,
    }
}

fn text_in(v: &serde_json::Value, name: &str) -> Option<String> {
    v.get(name).and_then(|t| t.as_str()).map(|s| s.to_string())
}

fn ids(jsons: &[String]) -> Vec<String> {
    present_only(
        jsons
            .iter()
            .map(|json| {
                serde_json::from_str::<serde_json::Value>(json)
                    .ok()
                    .and_then(|v| text_in(&v, "id"))
            })
            .collect(),
    )
}

fn user_json(u: &ChatReactionUser) -> serde_json::Value {
    let mut map = serde_json::Map::new();
    map.insert("id".to_string(), text(&u.id));
    map.insert("name".to_string(), optional(&u.name));
    map.insert("username".to_string(), text(&u.username));
    map.insert("host".to_string(), optional(&u.host));
    map.insert("avatarUrl".to_string(), optional(&u.avatar_url));
    serde_json::Value::Object(map)
}

fn user_in(v: &serde_json::Value) -> Option<ChatReactionUser> {
    Some(ChatReactionUser {
        id: text_in(v, "id")?,
        name: text_in(v, "name"),
        username: text_in(v, "username")?,
        host: text_in(v, "host"),
        avatar_url: text_in(v, "avatarUrl"),
    })
}

fn message_json(m: &ChatMessage) -> String {
    let mut map = serde_json::Map::new();
    map.insert("id".to_string(), text(&m.id));
    map.insert("createdAt".to_string(), text(&m.created_at));
    map.insert("fromUserId".to_string(), text(&m.from_user_id));
    map.insert("toUserId".to_string(), optional(&m.to_user_id));
    map.insert("toRoomId".to_string(), optional(&m.to_room_id));
    map.insert("text".to_string(), optional(&m.text));
    map.insert(
        "isRead".to_string(),
        match m.is_read {
            Some(b) => serde_json::Value::Bool(b),
            None => serde_json::Value::Null,
        },
    );
    let mut reactions = Vec::new();
    for r in &m.reactions {
        let mut reaction = serde_json::Map::new();
        reaction.insert(
            "user".to_string(),
            match &r.user {
                Some(u) => user_json(u),
                None => serde_json::Value::Null,
            },
        );
        reaction.insert("reaction".to_string(), text(&r.reaction));
        reactions.push(serde_json::Value::Object(reaction));
    }
    map.insert("reactions".to_string(), serde_json::Value::Array(reactions));
    serde_json::to_string(&serde_json::Value::Object(map)).unwrap()
}

fn message_in(json: &str) -> Option<ChatMessage> {
    let v = serde_json::from_str::<serde_json::Value>(json).ok()?;
    let mut reactions = Vec::new();
    for r in v.get("reactions")?.as_array()? {
        reactions.push(ChatMessageReaction {
            user: r.get("user").and_then(user_in),
            reaction: text_in(r, "reaction")?,
        });
    }
    Some(ChatMessage {
        id: text_in(&v, "id")?,
        created_at: text_in(&v, "createdAt")?,
        from_user_id: text_in(&v, "fromUserId")?,
        from_user: None,
        to_user_id: text_in(&v, "toUserId"),
        to_user: None,
        to_room_id: text_in(&v, "toRoomId"),
        to_room: None,
        text: text_in(&v, "text"),
        file_id: None,
        file: None,
        is_read: v.get("isRead").and_then(|b| b.as_bool()),
        reactions,
    })
}

fn messages(jsons: &[String]) -> Vec<ChatMessage> {
    present_only(jsons.iter().map(|json| message_in(json)).collect())
}

// ---- migrations ----

#[test]
fn migration_creates_all_tables() {
    let (_dir, db) = temp_db();
    let conn = &db.writer;

    let tables: Vec<String> = conn
        .prepare("SELECT name FROM sqlite_master WHERE type='table' ORDER BY name")
        .unwrap()
        .query_map([], |row| row.get(0))
        .unwrap()
        .collect::<Result<Vec<_>, _>>()
        .unwrap();

    assert!(tables.contains(&"accounts".to_string()));
    assert!(tables.contains(&"server_detections".to_string()));
    assert!(!tables.contains(&"servers".to_string()));
    assert!(tables.contains(&"notes_cache".to_string()));
    assert!(tables.contains(&"ogp_cache".to_string()));
    assert!(tables.contains(&"chat_messages_cache".to_string()));
    assert!(tables.contains(&"refinery_schema_history".to_string()));
}

#[test]
fn migration_creates_fts5_virtual_table() {
    let (_dir, db) = temp_db();
    let count: i64 = db
        .writer
        .query_row(
            "SELECT COUNT(*) FROM sqlite_master WHERE type='table' AND name='notes_fts'",
            [],
            |row| row.get(0),
        )
        .unwrap();
    assert_eq!(count, 1);
}

#[test]
fn migration_is_idempotent() {
    let dir = tempfile::tempdir().unwrap();
    let db_path = dir.path().join("test.db");

    let db = Db::open(&db_path).unwrap();
    drop(db);

    let db = Db::open(&db_path).unwrap();
    assert!(db.load_accounts().unwrap().is_empty());
}

#[test]
fn migration_tracks_schema_version() {
    let (_dir, db) = temp_db();
    let version: i32 = db
        .writer
        .query_row("SELECT MAX(version) FROM refinery_schema_history", [], |row| row.get(0))
        .unwrap();
    assert!(version >= 1);
}

#[test]
fn ogp_cache_has_summaly_columns() {
    let (_dir, db) = temp_db();
    let columns: Vec<String> = db
        .writer
        .prepare("SELECT name FROM pragma_table_info('ogp_cache')")
        .unwrap()
        .query_map([], |row| row.get(0))
        .unwrap()
        .collect::<Result<Vec<_>, _>>()
        .unwrap();

    for expected in &[
        "icon",
        "player_url",
        "player_width",
        "player_height",
        "player_allow",
        "final_url",
        "sensitive",
        "medias_json",
    ] {
        assert!(columns.contains(&expected.to_string()), "Missing column: {expected}");
    }
}

#[test]
fn notes_cache_has_timeline_type_column() {
    let (_dir, db) = temp_db();
    let has: bool = db
        .writer
        .prepare("SELECT COUNT(*) FROM pragma_table_info('notes_cache') WHERE name='timeline_type'")
        .unwrap()
        .query_row([], |row| row.get(0))
        .unwrap();
    assert!(has);
}

// ---- accounts ----

fn sample_account() -> Account {
    Account {
        id: "acc-1".to_string(),
        host: "misskey.io".to_string(),
        token: "test-token".to_string(),
        user_id: "user-1".to_string(),
        username: "alice".to_string(),
        display_name: Some("Alice".to_string()),
        avatar_url: None,
        software: "misskey".to_string(),
    }
}

#[test]
fn backup_to_produces_a_readable_copy_with_data() {
    let (dir, db) = temp_db();
    db.upsert_account(&sample_account()).unwrap();
    let dest = dir.path().join("backup.db");

    db.backup_to(&dest, None, false).unwrap();

    assert!(dest.exists());
    assert!(!dir.path().join("backup.db-wal").exists());

    let restored = Db::open(&dest).unwrap();
    let accounts = restored.load_accounts().unwrap();
    assert_eq!(accounts.len(), 1);
    assert_eq!(accounts[0].token, "test-token");
}

#[test]
fn backup_to_can_strip_tokens_from_the_copy() {
    let (dir, db) = temp_db();
    db.upsert_account(&sample_account()).unwrap();
    let dest = dir.path().join("backup.db");

    db.backup_to(&dest, None, true).unwrap();

    let restored = Db::open(&dest).unwrap();
    assert_eq!(restored.load_accounts().unwrap()[0].token, "");
    // The database itself keeps its tokens.
    assert_eq!(db.load_accounts().unwrap()[0].token, "test-token");
}

#[test]
fn backup_to_overwrites_an_existing_file() {
    let (dir, db) = temp_db();
    db.upsert_account(&sample_account()).unwrap();
    let mut stale = tempfile::Builder::new()
        .prefix("backup")
        .suffix(".db")
        .tempfile_in(dir.path())
        .unwrap();
    std::io::Write::write_all(&mut stale, b"stale").unwrap();
    let existing = stale.into_temp_path();
    let dest: PathBuf = existing.to_path_buf();
    assert!(dest.exists());

    db.backup_to(&dest, Some(existing), false).unwrap();

    let restored = Db::open(&dest).unwrap();
    assert_eq!(restored.load_accounts().unwrap().len(), 1);
}

#[test]
fn account_upsert_and_load() {
    let (_dir, db) = temp_db();
    db.upsert_account(&sample_account()).unwrap();

    let accounts = db.load_accounts().unwrap();
    assert_eq!(accounts.len(), 1);
    assert_eq!(accounts[0].username, "alice");
    assert_eq!(accounts[0].host, "misskey.io");
}

#[test]
fn account_get_by_id() {
    let (_dir, db) = temp_db();
    db.upsert_account(&sample_account()).unwrap();

    let acc = db.get_account("acc-1").unwrap().unwrap();
    assert_eq!(acc.username, "alice");

    assert!(db.get_account("nonexistent").unwrap().is_none());
}

#[test]
fn account_delete() {
    let (_dir, db) = temp_db();
    db.upsert_account(&sample_account()).unwrap();
    db.delete_account("acc-1").unwrap();
    assert!(db.load_accounts().unwrap().is_empty());
}

#[test]
fn account_clear_token() {
    let (_dir, db) = temp_db();
    db.upsert_account(&sample_account()).unwrap();
    db.clear_token("acc-1").unwrap();

    let acc = db.get_account("acc-1").unwrap().unwrap();
    assert!(acc.token.is_empty());
}

#[test]
fn a_second_upsert_keeps_the_id_and_the_place() {
    let (_dir, db) = temp_db();
    db.upsert_account(&sample_account()).unwrap();
    let mut bob = sample_account();
    bob.id = "acc-2".to_string();
    bob.user_id = "user-2".to_string();
    bob.username = "bob".to_string();
    db.upsert_account(&bob).unwrap();

    let mut again = sample_account();
    again.id = "acc-3".to_string();
    again.token = "new-token".to_string();
    again.display_name = None;
    again.avatar_url = Some("https://misskey.io/a.png".to_string());
    db.upsert_account(&again).unwrap();

    let accounts = db.load_accounts().unwrap();
    assert_eq!(accounts.len(), 2);
    assert_eq!(accounts[0].id, "acc-1");
    assert_eq!(accounts[0].token, "new-token");
    assert_eq!(accounts[0].display_name, None);
    assert_eq!(accounts[0].avatar_url, Some("https://misskey.io/a.png".to_string()));
    assert_eq!(accounts[1].id, "acc-2");
    assert_eq!(accounts[1].username, "bob");

    let query = Database::get_account_by_host_user("misskey.io", "user-2");
    let found = Database::get_account_reply(&db.ask(&query).unwrap()).unwrap().unwrap();
    assert_eq!(found.id, "acc-2");
    let query = Database::get_account_by_host("misskey.io");
    let found = Database::get_account_reply(&db.ask(&query).unwrap()).unwrap().unwrap();
    assert_eq!(found.host, "misskey.io");
    let query = Database::get_account_by_host("elsewhere.example");
    assert!(Database::get_account_reply(&db.ask(&query).unwrap()).unwrap().is_none());
}

#[test]
fn clearing_one_token_leaves_the_others() {
    let (_dir, db) = temp_db();
    db.upsert_account(&sample_account()).unwrap();
    let mut bob = sample_account();
    bob.id = "acc-2".to_string();
    bob.user_id = "user-2".to_string();
    db.upsert_account(&bob).unwrap();

    db.clear_token("acc-2").unwrap();
    let accounts = db.load_accounts().unwrap();
    assert_eq!(accounts[0].token, "test-token");
    assert_eq!(accounts[1].token, "");
    assert_eq!(accounts[1].username, "alice");
}

// ---- servers ----

fn sample_detection() -> ServerDetection {
    ServerDetection {
        host: "misskey.io".to_string(),
        software_name: "misskey".to_string(),
        software_version: "2025.3.0".to_string(),
        software_repository: Some("https://github.com/misskey-dev/misskey".to_string()),
        meta_json: "{}".to_string(),
        updated_at: 1700000000,
    }
}

#[test]
fn server_detection_upsert_and_load() {
    let (_dir, db) = temp_db();
    db.upsert_server_detection(&sample_detection()).unwrap();

    let dets = db.load_server_detections().unwrap();
    assert_eq!(dets.len(), 1);
    assert_eq!(dets[0].host, "misskey.io");
}

#[test]
fn server_detection_get_by_host_and_update() {
    let (_dir, db) = temp_db();
    db.upsert_server_detection(&sample_detection()).unwrap();

    let d = db.get_server_detection("misskey.io").unwrap().unwrap();
    assert_eq!(d.software_version, "2025.3.0");

    let mut newer = sample_detection();
    newer.software_version = "2025.4.0".to_string();
    newer.updated_at = 1700001000;
    db.upsert_server_detection(&newer).unwrap();
    let d = db.get_server_detection("misskey.io").unwrap().unwrap();
    assert_eq!(d.software_version, "2025.4.0");
    assert_eq!(d.updated_at, 1700001000);

    assert!(db.get_server_detection("nonexistent").unwrap().is_none());
}

// ---- notes ----

fn sample_note(id: &str, words: &str) -> NoteRecord {
    let mut map = serde_json::Map::new();
    map.insert("id".to_string(), text(id));
    map.insert("text".to_string(), text(words));
    NoteRecord {
        id: id.to_string(),
        account_id: "acc-1".to_string(),
        server_host: "misskey.io".to_string(),
        created_at: "2025-01-01T00:00:00Z".to_string(),
        text: Some(words.to_string()),
        uri: None,
        json: Some(serde_json::to_string(&serde_json::Value::Object(map)).unwrap()),
    }
}

#[test]
fn cache_note_and_retrieve() {
    let (_dir, db) = temp_db();
    let note = sample_note("note-1", "Hello world");
    db.cache_notes(&[note], "home").unwrap();

    let cached = db.get_cached_timeline("acc-1", "home", 10).unwrap();
    assert_eq!(cached.len(), 1);
    assert_eq!(cached[0], "note-1");
}

#[test]
fn cache_note_delete() {
    let (_dir, db) = temp_db();
    db.cache_notes(&[sample_note("note-1", "test")], "home").unwrap();
    db.delete_cached_note("note-1").unwrap();

    let cached = db.get_cached_timeline("acc-1", "home", 10).unwrap();
    assert!(cached.is_empty());
}

#[test]
fn fts_search_finds_cached_notes() {
    let (_dir, db) = temp_db();
    db.cache_notes(
        &[
            sample_note("n1", "Rust programming language"),
            sample_note("n2", "Python scripting"),
        ],
        "home",
    )
    .unwrap();

    let results = db.search_cached_notes("acc-1", "Rust", 10).unwrap();
    assert_eq!(results.len(), 1);
    assert_eq!(results[0], "n1");
}

#[test]
fn fts_search_reflects_note_edit() {
    let (_dir, db) = temp_db();
    db.cache_notes(&[sample_note("n1", "before edit text")], "home").unwrap();

    // The note is cached again with the text it was edited to.
    db.cache_notes(&[sample_note("n1", "after edit text")], "home").unwrap();

    let hit_new = db.search_cached_notes("acc-1", "after", 10).unwrap();
    assert_eq!(hit_new.len(), 1, "found by the text after the edit");
    assert_eq!(hit_new[0], "n1");

    let hit_old = db.search_cached_notes("acc-1", "before", 10).unwrap();
    assert!(hit_old.is_empty(), "not found by the text before the edit");
}

#[test]
fn fts_search_reflects_edit_from_null_text() {
    let (_dir, db) = temp_db();
    // A note without text is cached again with one.
    let mut no_text = sample_note("n1", "");
    no_text.text = None;
    db.cache_notes(&[no_text], "home").unwrap();

    db.cache_notes(&[sample_note("n1", "now has text")], "home").unwrap();

    let results = db.search_cached_notes("acc-1", "now has", 10).unwrap();
    assert_eq!(results.len(), 1);
}

#[test]
fn searches_take_words_literally() {
    let (_dir, db) = temp_db();
    db.cache_notes(
        &[
            sample_note("n1", "she said \"hello\" twice"),
            sample_note("n2", "hello OR goodbye"),
            sample_note("n3", "nothing of the kind"),
        ],
        "home",
    )
    .unwrap();

    let quoted = db.search_cached_notes("acc-1", "\"hello\"", 10).unwrap();
    assert_eq!(quoted, vec!["n1"]);
    let operator = db.search_cached_notes("acc-1", "hello OR", 10).unwrap();
    assert_eq!(operator, vec!["n2"]);
    let negated = db.search_cached_notes("acc-1", "NOT hello", 10).unwrap();
    assert!(negated.is_empty());
}

#[test]
fn short_searches_scan_the_text() {
    let (_dir, db) = temp_db();
    db.cache_notes(&[sample_note("n1", "go is a language"), sample_note("n2", "rust")], "home")
        .unwrap();
    assert_eq!(db.search_cached_notes("acc-1", "go", 10).unwrap(), vec!["n1"]);
    assert_eq!(db.search_cached_notes("acc-1", "\u{732b}", 10).unwrap().len(), 0);
    // No words find everything, up to the limit.
    assert_eq!(db.search_cached_notes("acc-1", "", 10).unwrap().len(), 2);
    assert_eq!(db.search_cached_notes("acc-1", "", 1).unwrap().len(), 1);
    assert_eq!(db.search_cached_notes("acc-1", "", -1).unwrap().len(), 2);
    assert_eq!(db.search_cached_notes("acc-2", "", 10).unwrap().len(), 0);
}

#[test]
fn searches_stay_within_their_dates() {
    let (_dir, db) = temp_db();
    for i in 1..6 {
        let mut note = sample_note(&format!("n{i}"), "same words");
        note.created_at = format!("2025-01-0{i}T00:00:00Z");
        db.cache_note(&note, "home").unwrap();
    }
    let search = |since: Option<&str>, until: Option<&str>, ascending: bool| {
        let query = Database::search_cached_notes_advanced(
            "acc-1", "same", 10, since, until, ascending,
        );
        ids(&Database::search_reply(&db.ask(&query).unwrap()))
    };
    assert_eq!(
        search(Some("2025-01-02T00:00:00Z"), Some("2025-01-04T00:00:00Z"), true),
        vec!["n2", "n3", "n4"]
    );
    assert_eq!(search(Some("2025-01-04T00:00:00Z"), None, false), vec!["n5", "n4"]);
    assert_eq!(search(None, Some("2025-01-02T00:00:00Z"), false), vec!["n2", "n1"]);
    // Ascending and descending are the same the other way round.
    let mut up = search(None, None, true);
    up.reverse();
    assert_eq!(up, search(None, None, false));
    assert_eq!(up.len(), 5);
}

#[test]
fn cache_date_range() {
    let (_dir, db) = temp_db();
    db.cache_notes(&[sample_note("n1", "test")], "home").unwrap();

    let range = db.get_cache_date_range("acc-1", "home").unwrap();
    assert!(range.is_some());
    let (oldest, newest) = range.unwrap();
    assert_eq!(oldest, newest);
}

#[test]
fn a_timeline_without_notes_has_no_dates() {
    let (_dir, db) = temp_db();
    assert_eq!(db.get_cache_date_range("acc-1", "home").unwrap(), None);
    let mut older = sample_note("n1", "test");
    older.created_at = "2024-12-31T00:00:00Z".to_string();
    db.cache_notes(&[sample_note("n2", "test"), older], "home").unwrap();
    assert_eq!(
        db.get_cache_date_range("acc-1", "home").unwrap(),
        Some(("2024-12-31T00:00:00Z".to_string(), "2025-01-01T00:00:00Z".to_string()))
    );
}

#[test]
fn timelines_are_newest_first_and_limited() {
    let (_dir, db) = temp_db();
    for i in 1..5 {
        let mut note = sample_note(&format!("n{i}"), "words");
        note.created_at = format!("2025-01-0{i}T00:00:00Z");
        note.uri = Some(format!("https://misskey.io/notes/n{i}"));
        db.cache_note(&note, "home").unwrap();
    }
    assert_eq!(db.get_cached_timeline("acc-1", "home", 2).unwrap(), vec!["n4", "n3"]);
    assert_eq!(db.get_cached_timeline("acc-1", "home", -1).unwrap().len(), 4);
    assert!(db.get_cached_timeline("acc-1", "local", 2).unwrap().is_empty());
    assert!(db.get_cached_timeline("acc-2", "home", 2).unwrap().is_empty());

    let before =
        Database::get_cached_timeline_before("acc-1", "home", "2025-01-02T00:00:00Z", 10);
    let answer = db.ask(&before).unwrap();
    assert_eq!(ids(&Database::notes_reply(&answer).unwrap()), vec!["n2", "n1"]);

    let by_uri = Database::find_notes_by_uri("https://misskey.io/notes/n3");
    let answer = db.ask(&by_uri).unwrap();
    assert_eq!(ids(&Database::notes_reply(&answer).unwrap()), vec!["n3"]);

    // A note that is cached again moves to the timeline it was cached for last
    // and keeps the time at which it was created.
    let mut again = sample_note("n1", "words");
    again.created_at = "2030-01-01T00:00:00Z".to_string();
    db.cache_note(&again, "local").unwrap();
    assert_eq!(db.get_cached_timeline("acc-1", "home", 10).unwrap(), vec!["n4", "n3", "n2"]);
    assert_eq!(db.get_cached_timeline("acc-1", "local", 10).unwrap(), vec!["n1"]);
    assert_eq!(
        db.get_cache_date_range("acc-1", "local").unwrap().unwrap().0,
        "2025-01-01T00:00:00Z"
    );
    assert_eq!(db.account_cache_count("acc-1").unwrap(), 4);
}

#[test]
fn note_statistics_count_notes_and_bytes() {
    let (_dir, db) = temp_db();
    db.cache_notes(&[sample_note("n1", "test"), sample_note("n2", "test")], "home").unwrap();
    let (count, pages, size) = Database::cache_stats();
    let (notes, bytes) = Database::cache_stats_reply(
        &db.ask(&count).unwrap(),
        &ask_sql(&db.reader, &pages).unwrap(),
        &ask_sql(&db.reader, &size).unwrap(),
    )
    .unwrap();
    assert_eq!(notes, 2);
    let page_count: i64 =
        db.reader.query_row("PRAGMA page_count", [], |row| row.get(0)).unwrap();
    let page_size: i64 = db.reader.query_row("PRAGMA page_size", [], |row| row.get(0)).unwrap();
    assert_eq!(bytes, page_count * page_size);
}

// ---- summaries ----

fn sample_summary(url: &str, title: &str) -> SummaryRow {
    SummaryRow {
        url: url.to_string(),
        title: Some(title.to_string()),
        description: None,
        thumbnail: None,
        sitename: None,
        icon: None,
        player_url: None,
        player_width: None,
        player_height: None,
        player_allow: None,
        final_url: None,
        sensitive: false,
        medias_json: None,
    }
}

#[test]
fn other_work_leaves_a_stored_summary() {
    let (_dir, db) = temp_db();
    let row = sample_summary("https://page.example", "kept");
    db.cache_summary("https://page.example", &row, 3600).unwrap();
    let other = sample_summary("https://other.example", "other");
    db.cache_summary("https://other.example", &other, 3600).unwrap();
    db.cache_summary("https://gone.example", &other, -1).unwrap();
    db.cache_note(&sample_note("a", "hello"), "home").unwrap();
    db.run(&Database::cleanup_expired_ogp(now())).unwrap();
    db.run(&Database::clear_all_notes_cache()).unwrap();
    let read = db.get_cached_summary("https://page.example").unwrap().unwrap();
    assert_eq!(read.title, Some("kept".to_string()));
    assert_eq!(read.url, "https://page.example");
}

#[test]
fn ogp_cache_store_and_retrieve() {
    let (_dir, db) = temp_db();
    let mut row = sample_summary("https://example.com", "Example");
    row.description = Some("A test page".to_string());
    db.cache_summary("https://example.com", &row, 3600).unwrap();

    let cached = db.get_cached_summary("https://example.com").unwrap();
    assert!(cached.is_some());
    assert_eq!(cached.unwrap().title, Some("Example".to_string()));
}

#[test]
fn ogp_cache_expired_returns_none() {
    let (_dir, db) = temp_db();
    let row = sample_summary("https://expired.com", "Old");
    db.cache_summary("https://expired.com", &row, 0).unwrap();

    let cached = db.get_cached_summary("https://expired.com").unwrap();
    assert!(cached.is_none());
}

#[test]
fn summaries_come_back_whole() {
    let (_dir, db) = temp_db();
    let row = SummaryRow {
        url: "https://other.example".to_string(),
        title: Some("t".to_string()),
        description: Some("d".to_string()),
        thumbnail: Some("th".to_string()),
        sitename: Some("s".to_string()),
        icon: Some("i".to_string()),
        player_url: Some("p".to_string()),
        player_width: Some(4_000_000_000),
        player_height: Some(0),
        player_allow: Some("a".to_string()),
        final_url: Some("f".to_string()),
        sensitive: true,
        medias_json: Some("[]".to_string()),
    };
    db.cache_summary("https://page.example", &row, 3600).unwrap();
    db.cache_summary("https://gone.example", &row, -1).unwrap();

    let read = db.get_cached_summary("https://page.example").unwrap().unwrap();
    // The url is the one that it was stored for.
    assert_eq!(read.url, "https://page.example");
    assert_eq!(read.title, Some("t".to_string()));
    assert_eq!(read.description, Some("d".to_string()));
    assert_eq!(read.thumbnail, Some("th".to_string()));
    assert_eq!(read.sitename, Some("s".to_string()));
    assert_eq!(read.icon, Some("i".to_string()));
    assert_eq!(read.player_url, Some("p".to_string()));
    assert_eq!(read.player_width, Some(4_000_000_000));
    assert_eq!(read.player_height, Some(0));
    assert_eq!(read.player_allow, Some("a".to_string()));
    assert_eq!(read.final_url, Some("f".to_string()));
    assert!(read.sensitive);
    assert_eq!(read.medias_json, Some("[]".to_string()));

    let answer = db.ask(&Database::load_summary_cache(10, now())).unwrap();
    let all = Database::load_summary_cache_reply(&answer).unwrap();
    assert_eq!(all.len(), 1);
    assert_eq!(all[0].url, "https://page.example");
    assert_eq!(all[0].title, Some("t".to_string()));
    assert_eq!(all[0].medias_json, Some("[]".to_string()));

    assert_eq!(db.run(&Database::cleanup_expired_ogp(now())).unwrap(), 1);
    assert!(db.get_cached_summary("https://page.example").unwrap().is_some());
    assert_eq!(db.run(&Database::clear_ogp_cache()).unwrap(), 1);
    assert!(db.get_cached_summary("https://page.example").unwrap().is_none());
}

#[test]
fn loaded_summaries_are_what_their_urls_say() {
    let (_dir, db) = temp_db();
    for i in 0..4 {
        let url = format!("https://page{i}.example");
        let ttl = if i == 3 { 0 } else { 3600 };
        db.cache_summary(&url, &sample_summary(&url, &format!("t{i}")), ttl).unwrap();
    }
    let load = |limit: usize| {
        let answer = db.ask(&Database::load_summary_cache(limit, now())).unwrap();
        Database::load_summary_cache_reply(&answer).unwrap()
    };
    assert_eq!(load(2).len(), 2);
    let all = load(10);
    assert_eq!(all.len(), 3);
    let mut urls: Vec<String> = all.iter().map(|row| row.url.clone()).collect();
    urls.sort();
    urls.dedup();
    assert_eq!(urls.len(), 3);
    for row in &all {
        let read = db.get_cached_summary(&row.url).unwrap().unwrap();
        assert_eq!(read.url, row.url);
        assert_eq!(read.title, row.title);
    }
}

#[test]
fn summaries_with_broken_columns_are_errors() {
    let (_dir, db) = temp_db();
    let row = sample_summary("https://page.example", "t");
    db.cache_summary("https://page.example", &row, 3600).unwrap();
    db.writer.execute("UPDATE ogp_cache SET player_width = -1", []).unwrap();
    let e = db.get_cached_summary("https://page.example").unwrap_err();
    assert!(matches!(
        e,
        NoteDeckError::Database(DatabaseError::IntegralValueOutOfRange { column: 6, value: -1 })
    ));
    db.writer
        .execute("UPDATE ogp_cache SET player_width = NULL, title = x'00'", [])
        .unwrap();
    let e = db.get_cached_summary("https://page.example").unwrap_err();
    assert!(matches!(
        e,
        NoteDeckError::Database(DatabaseError::InvalidColumnType { column: 0 })
    ));
    db.writer.execute("UPDATE ogp_cache SET title = CAST(x'ff' AS TEXT)", []).unwrap();
    let e = db.get_cached_summary("https://page.example").unwrap_err();
    assert!(matches!(e, NoteDeckError::Database(DatabaseError::Utf8Error { column: 0 })));
}

// ---- evictions ----

fn note_for_account(id: &str, account_id: &str) -> NoteRecord {
    let mut n = sample_note(id, "hello");
    n.account_id = account_id.to_string();
    n
}

fn set_cached_at(db: &Db, note_id: &str, cached_at: i64) {
    db.writer
        .execute("UPDATE notes_cache SET cached_at = ?1 WHERE note_id = ?2", (cached_at, note_id))
        .unwrap();
}

#[test]
fn a_cached_note_keeps_where_and_when_it_was_written() {
    let (_dir, db) = temp_db();
    let first = note_for_account("a", "acc-1");
    commit(&db.writer, &Database::cache_note(&first, "home", 1_000)).unwrap();
    let mut second = note_for_account("a", "acc-1");
    second.server_host = "elsewhere.example".to_string();
    second.created_at = "2031-01-01T00:00:00Z".to_string();
    let mut other = note_for_account("a", "acc-2");
    other.server_host = "elsewhere.example".to_string();
    let batch = vec![second, other.clone()];
    commit(&db.writer, &Database::cache_notes(&batch, "local", 2_000)).unwrap();

    let stored = |account_id: &str| {
        db.writer
            .query_row(
                "SELECT server_host, created_at, timeline_type, cached_at FROM notes_cache \
                 WHERE note_id = 'a' AND account_id = ?1",
                [account_id],
                |row| {
                    Ok((
                        row.get::<_, String>(0)?,
                        row.get::<_, String>(1)?,
                        row.get::<_, String>(2)?,
                        row.get::<_, i64>(3)?,
                    ))
                },
            )
            .unwrap()
    };
    assert_eq!(
        stored("acc-1"),
        (first.server_host, first.created_at, "local".to_string(), 2_000)
    );
    assert_eq!(
        stored("acc-2"),
        (other.server_host, other.created_at, "local".to_string(), 2_000)
    );
}

#[test]
fn cleanup_removes_notes_older_than_ttl() {
    let (_dir, db) = temp_db();
    db.cache_note(&note_for_account("fresh", "acc-1"), "home").unwrap();
    db.cache_note(&note_for_account("stale", "acc-1"), "home").unwrap();
    set_cached_at(&db, "stale", 0);

    let cfg = EvictionConfig { per_account_limit: Some(10_000), ttl_days: Some(1) };
    let deleted = db.cleanup_with_eviction(&cfg).unwrap();
    assert_eq!(deleted, 1);

    let remaining = db.get_cached_timeline("acc-1", "home", 100).unwrap();
    assert_eq!(remaining.len(), 1);
    assert_eq!(remaining[0], "fresh");
}

#[test]
fn cleanup_caps_per_account_count() {
    let (_dir, db) = temp_db();
    for i in 0..5 {
        db.cache_note(&note_for_account(&format!("n{i}"), "acc-1"), "home").unwrap();
    }
    set_cached_at(&db, "n0", 1000);
    set_cached_at(&db, "n1", 1001);

    let cfg = EvictionConfig { per_account_limit: Some(3), ttl_days: None };
    let deleted = db.cleanup_with_eviction(&cfg).unwrap();
    assert_eq!(deleted, 2);

    let remaining = db.get_cached_timeline("acc-1", "home", 100).unwrap();
    assert_eq!(remaining.len(), 3);
    let mut ids: Vec<&str> = remaining.iter().map(|n| n.as_str()).collect();
    ids.sort();
    assert_eq!(ids, vec!["n2", "n3", "n4"]);
}

#[test]
fn cleanup_per_account_independent() {
    let (_dir, db) = temp_db();
    for i in 0..4 {
        db.cache_note(&note_for_account(&format!("a{i}"), "acc-1"), "home").unwrap();
    }
    for i in 0..2 {
        db.cache_note(&note_for_account(&format!("b{i}"), "acc-2"), "home").unwrap();
    }
    set_cached_at(&db, "a0", 1000);
    set_cached_at(&db, "a1", 1001);

    let cfg = EvictionConfig { per_account_limit: Some(2), ttl_days: None };
    let deleted = db.cleanup_with_eviction(&cfg).unwrap();
    assert_eq!(deleted, 2);

    assert_eq!(db.account_cache_count("acc-1").unwrap(), 2);
    assert_eq!(db.account_cache_count("acc-2").unwrap(), 2);

    // To evict again does nothing.
    assert_eq!(db.cleanup_with_eviction(&cfg).unwrap(), 0);
}

#[test]
fn cleanup_no_op_when_under_limits() {
    let (_dir, db) = temp_db();
    for i in 0..3 {
        db.cache_note(&note_for_account(&format!("n{i}"), "acc-1"), "home").unwrap();
    }
    let cfg = EvictionConfig { per_account_limit: Some(100), ttl_days: None };
    let deleted = db.cleanup_with_eviction(&cfg).unwrap();
    assert_eq!(deleted, 0);
    assert_eq!(db.account_cache_count("acc-1").unwrap(), 3);
}

#[test]
fn cleanup_with_both_disabled_is_pure_noop() {
    let (_dir, db) = temp_db();
    for i in 0..3 {
        db.cache_note(&note_for_account(&format!("n{i}"), "acc-1"), "home").unwrap();
    }
    let cfg = EvictionConfig { per_account_limit: None, ttl_days: None };
    assert!(Database::cleanup_with_eviction(&cfg, now()).statements.is_empty());
    let deleted = db.cleanup_with_eviction(&cfg).unwrap();
    assert_eq!(deleted, 0);
    assert_eq!(db.account_cache_count("acc-1").unwrap(), 3);
}

#[test]
fn cleanup_only_ttl_keeps_high_count() {
    let (_dir, db) = temp_db();
    for i in 0..5 {
        db.cache_note(&note_for_account(&format!("n{i}"), "acc-1"), "home").unwrap();
    }
    let cfg = EvictionConfig { per_account_limit: None, ttl_days: Some(1) };
    let deleted = db.cleanup_with_eviction(&cfg).unwrap();
    assert_eq!(deleted, 0);
    assert_eq!(db.account_cache_count("acc-1").unwrap(), 5);
}

#[test]
fn evictions_run_when_the_database_is_opened() {
    let dir = tempfile::tempdir().unwrap();
    let db_path = dir.path().join("test.db");
    let db = Db::open(&db_path).unwrap();
    for i in 0..4 {
        db.cache_note(&note_for_account(&format!("n{i}"), "acc-1"), "home").unwrap();
    }
    drop(db);

    let cfg = EvictionConfig { per_account_limit: Some(1), ttl_days: None };
    let db = Db::opened(&db_path, Database::open_with_eviction(cfg)).unwrap();
    assert_eq!(db.account_cache_count("acc-1").unwrap(), 1);
    let deleted = db.evict(&Database::cleanup_cache(now())).unwrap();
    assert_eq!(deleted, 0);
}

#[test]
fn clearing_caches_reports_what_was_there() {
    let (_dir, db) = temp_db();
    db.cache_note(&note_for_account("a", "acc-1"), "home").unwrap();
    db.cache_note(&note_for_account("b", "acc-1"), "home").unwrap();
    db.cache_note(&note_for_account("c", "acc-2"), "home").unwrap();
    assert_eq!(db.run(&Database::clear_account_cache("acc-1")).unwrap(), 2);
    assert_eq!(db.account_cache_count("acc-1").unwrap(), 0);
    assert_eq!(db.account_cache_count("acc-2").unwrap(), 1);
    assert_eq!(db.run(&Database::clear_all_notes_cache()).unwrap(), 1);
    assert_eq!(db.account_cache_count("acc-2").unwrap(), 0);
}

#[test]
fn auto_vacuum_mode_is_incremental_after_open() {
    let (_dir, db) = temp_db();
    let mode: i64 = db.writer.query_row("PRAGMA auto_vacuum", [], |row| row.get(0)).unwrap();
    // 0 = NONE, 1 = FULL, 2 = INCREMENTAL
    assert_eq!(mode, 2, "auto_vacuum should be INCREMENTAL");
}

#[test]
fn opening_does_not_vacuum_a_new_database() {
    let dir = tempfile::tempdir().unwrap();
    let db_path = dir.path().join("test.db");
    let mut stages = vec![
        Stage::OpenWriter,
        Stage::AskFirstMode,
        Stage::PresetVacuumMode,
        Stage::ConfigureWriter,
        Stage::RestrictPermissions,
        Stage::AskVacuumMode,
        Stage::Migrate,
        Stage::AskIndex,
        Stage::OpenReader,
        Stage::ConfigureReader,
        Stage::EvictNotes,
        Stage::EvictMessages,
        Stage::ReturnPages,
        Stage::Open,
    ];
    let db = Db::open(&db_path).unwrap();
    assert_eq!(db.stages, stages);
    let mode: i64 = db.writer.query_row("PRAGMA auto_vacuum", [], |row| row.get(0)).unwrap();
    assert_eq!(mode, 2);
    drop(db);
    // Nor one that was opened before, which has the mode already.
    stages.remove(2);
    let db = Db::open(&db_path).unwrap();
    assert_eq!(db.stages, stages);
}

#[test]
fn opening_vacuums_an_old_database_once() {
    let dir = tempfile::tempdir().unwrap();
    let db_path = dir.path().join("test.db");
    let old = rusqlite::Connection::open(&db_path).unwrap();
    old.execute_batch("CREATE TABLE kept (x INTEGER); INSERT INTO kept VALUES (7);").unwrap();
    drop(old);

    let db = Db::open(&db_path).unwrap();
    assert_eq!(
        db.stages[5..10].to_vec(),
        vec![
            Stage::AskVacuumMode,
            Stage::SetVacuumMode,
            Stage::CheckVacuumMode,
            Stage::Vacuum,
            Stage::Migrate,
        ]
    );
    let mode: i64 = db.writer.query_row("PRAGMA auto_vacuum", [], |row| row.get(0)).unwrap();
    assert_eq!(mode, 2);
    let kept: i64 = db.writer.query_row("SELECT x FROM kept", [], |row| row.get(0)).unwrap();
    assert_eq!(kept, 7);
    drop(db);

    let db = Db::open(&db_path).unwrap();
    assert!(!db.stages.contains(&Stage::Vacuum));
}

#[test]
fn opening_vacuums_a_database_with_another_mode_once() {
    let dir = tempfile::tempdir().unwrap();
    let db_path = dir.path().join("test.db");
    let old = rusqlite::Connection::open(&db_path).unwrap();
    old.execute_batch(
        "PRAGMA auto_vacuum=FULL; CREATE TABLE kept (x INTEGER); INSERT INTO kept VALUES (7);",
    )
    .unwrap();
    let mode: i64 = old.query_row("PRAGMA auto_vacuum", [], |row| row.get(0)).unwrap();
    assert_eq!(mode, 1);
    drop(old);

    let db = Db::open(&db_path).unwrap();
    assert_eq!(
        db.stages[..8].to_vec(),
        vec![
            Stage::OpenWriter,
            Stage::AskFirstMode,
            Stage::ConfigureWriter,
            Stage::RestrictPermissions,
            Stage::AskVacuumMode,
            Stage::ChangeVacuumMode,
            Stage::Vacuum,
            Stage::Migrate,
        ]
    );
    let mode: i64 = db.writer.query_row("PRAGMA auto_vacuum", [], |row| row.get(0)).unwrap();
    assert_eq!(mode, 2);
    let kept: i64 = db.writer.query_row("SELECT x FROM kept", [], |row| row.get(0)).unwrap();
    assert_eq!(kept, 7);
    drop(db);

    let db = Db::open(&db_path).unwrap();
    assert!(!db.stages.contains(&Stage::Vacuum));
}

#[test]
fn a_file_without_contents_takes_the_mode_that_is_set() {
    let dir = tempfile::tempdir().unwrap();
    let conn = rusqlite::Connection::open(dir.path().join("test.db")).unwrap();
    let mut opening = Opening { stage: Stage::AskVacuumMode, ..Database::open() };
    let mut stages = Vec::new();
    while opening.stage != Stage::Migrate {
        stages.push(opening.stage);
        let reply = match opening.action(now()) {
            Action::AskWriter(sql) => ask_sql(&conn, &sql),
            Action::RunWriter(sql) => {
                conn.execute_batch(&sql.text).map(|_| nothing()).map_err(failure)
            }
            _ => panic!("another action"),
        };
        opening = opening.advance(&reply).unwrap();
    }
    assert_eq!(
        stages,
        vec![Stage::AskVacuumMode, Stage::SetVacuumMode, Stage::CheckVacuumMode]
    );
    let mode: i64 = conn.query_row("PRAGMA auto_vacuum", [], |row| row.get(0)).unwrap();
    assert_eq!(mode, 2);
}

#[test]
fn opening_what_cannot_be_opened_is_an_error() {
    let dir = tempfile::tempdir().unwrap();
    let e = match Db::open(&dir.path().join("missing").join("test.db")) {
        Ok(_) => panic!("opened a database in a missing directory"),
        Err(e) => e,
    };
    assert!(matches!(
        e,
        NoteDeckError::Database(DatabaseError::SqliteFailure { code: 14, .. })
    ));
}

#[test]
fn incremental_vacuum_step_runs_without_error() {
    let (_dir, db) = temp_db();
    for i in 0..50 {
        db.cache_note(&note_for_account(&format!("n{i}"), "acc-1"), "home").unwrap();
    }
    db.run(&Database::clear_all_notes_cache()).unwrap();
    db.incremental_vacuum_step().unwrap();
    db.incremental_vacuum_step().unwrap();
}

// ---- chat messages ----

fn dm_msg(id: &str, from: &str, to: &str, text: &str, created_at: &str) -> ChatMessage {
    ChatMessage {
        id: id.to_string(),
        created_at: created_at.to_string(),
        from_user_id: from.to_string(),
        from_user: None,
        to_user_id: Some(to.to_string()),
        to_user: None,
        to_room_id: None,
        to_room: None,
        text: Some(text.to_string()),
        file_id: None,
        file: None,
        is_read: Some(false),
        reactions: Vec::new(),
    }
}

fn room_msg(id: &str, from: &str, room: &str, text: &str, created_at: &str) -> ChatMessage {
    ChatMessage {
        id: id.to_string(),
        created_at: created_at.to_string(),
        from_user_id: from.to_string(),
        from_user: None,
        to_user_id: None,
        to_user: None,
        to_room_id: Some(room.to_string()),
        to_room: None,
        text: Some(text.to_string()),
        file_id: None,
        file: None,
        is_read: Some(false),
        reactions: Vec::new(),
    }
}

fn reactor(id: &str, username: &str) -> ChatReactionUser {
    ChatReactionUser {
        id: id.to_string(),
        name: None,
        username: username.to_string(),
        host: None,
        avatar_url: None,
    }
}

#[test]
fn a_cached_message_keeps_its_server() {
    let (_dir, db) = temp_db();
    let record = |id: &str, created_at: &str| {
        let message = dm_msg(id, "me", "bob", "hi", created_at);
        let json = Some(message_json(&message));
        ChatRecord { message, json }
    };
    let first = vec![record("m1", "2031-01-01T00:00:00Z")];
    let second = vec![record("m1", "2031-01-02T00:00:00Z"), record("m2", "2031-01-03T00:00:00Z")];
    let (transaction, _) =
        Database::cache_chat_messages(&first, "acc-1", "me", "one.example", 1_000);
    commit(&db.writer, &transaction).unwrap();
    let (transaction, _) =
        Database::cache_chat_messages(&second, "acc-1", "me", "two.example", 2_000);
    commit(&db.writer, &transaction).unwrap();

    let stored = |message_id: &str| {
        db.writer
            .query_row(
                "SELECT server_host, created_at, cached_at FROM chat_messages_cache \
                 WHERE message_id = ?1",
                [message_id],
                |row| {
                    Ok((
                        row.get::<_, String>(0)?,
                        row.get::<_, String>(1)?,
                        row.get::<_, i64>(2)?,
                    ))
                },
            )
            .unwrap()
    };
    assert_eq!(
        stored("m1"),
        ("one.example".to_string(), "2031-01-02T00:00:00Z".to_string(), 2_000)
    );
    assert_eq!(
        stored("m2"),
        ("two.example".to_string(), "2031-01-03T00:00:00Z".to_string(), 2_000)
    );
}

#[test]
fn cache_chat_message_dm_and_retrieve() {
    let (_dir, db) = temp_db();
    let msg = dm_msg("m1", "me", "alice", "hi", "2026-05-01T00:00:00Z");
    let written = db.cache_chat_message(&msg, "acc-1", "me", "example.com").unwrap();
    assert!(written);

    let history = db.get_cached_chat_history("acc-1", 10).unwrap();
    assert_eq!(history.len(), 1);
    assert_eq!(history[0].id, "m1");

    let thread = db.get_cached_chat_thread_messages("acc-1", "u:alice", None, 10).unwrap();
    assert_eq!(thread.len(), 1);
    assert_eq!(thread[0].id, "m1");
}

#[test]
fn cache_chat_message_room_and_retrieve() {
    let (_dir, db) = temp_db();
    let msg = room_msg("m1", "alice", "room42", "hello", "2026-05-01T00:00:00Z");
    db.cache_chat_message(&msg, "acc-1", "me", "example.com").unwrap();

    let thread = db.get_cached_chat_thread_messages("acc-1", "r:room42", None, 10).unwrap();
    assert_eq!(thread.len(), 1);
    assert_eq!(thread[0].id, "m1");
}

#[test]
fn cache_chat_message_skips_invalid() {
    let (_dir, db) = temp_db();
    let invalid = ChatMessage {
        id: "m1".to_string(),
        created_at: "2026-05-01T00:00:00Z".to_string(),
        from_user_id: "alice".to_string(),
        from_user: None,
        to_user_id: None,
        to_user: None,
        to_room_id: None,
        to_room: None,
        text: None,
        file_id: None,
        file: None,
        is_read: None,
        reactions: Vec::new(),
    };
    let written = db.cache_chat_message(&invalid, "acc-1", "me", "example.com").unwrap();
    assert!(!written);
    assert_eq!(db.chat_cache_count("acc-1").unwrap(), 0);
}

#[test]
fn batches_of_messages_skip_those_without_a_thread() {
    let (_dir, db) = temp_db();
    let mut lost = dm_msg("m2", "me", "alice", "hi", "2026-05-01T00:00:00Z");
    lost.to_user_id = None;
    let records: Vec<ChatRecord> = [
        dm_msg("m1", "me", "alice", "hi", "2026-05-01T00:00:00Z"),
        lost,
        room_msg("m3", "bob", "room42", "yo", "2026-05-01T00:00:30Z"),
    ]
    .iter()
    .map(|m| ChatRecord { message: m.clone(), json: Some(message_json(m)) })
    .collect();
    let (transaction, written) =
        Database::cache_chat_messages(&records, "acc-1", "me", "example.com", now());
    assert_eq!(written, 2);
    assert_eq!(commit(&db.writer, &transaction).unwrap(), vec![1, 1]);
    assert_eq!(db.chat_cache_count("acc-1").unwrap(), 2);

    let (transaction, written) =
        Database::cache_chat_messages(&Vec::new(), "acc-1", "me", "example.com", now());
    assert_eq!(written, 0);
    assert!(transaction.statements.is_empty());
}

#[test]
fn chat_history_returns_one_per_thread() {
    let (_dir, db) = temp_db();
    for i in 0..5 {
        let ts = format!("2026-05-01T00:0{i}:00Z");
        let m = dm_msg(&format!("dm{i}"), "me", "alice", "hi", &ts);
        db.cache_chat_message(&m, "acc-1", "me", "example.com").unwrap();
    }
    let other = room_msg("r1", "bob", "room42", "yo", "2026-05-01T00:00:30Z");
    db.cache_chat_message(&other, "acc-1", "me", "example.com").unwrap();

    let history = db.get_cached_chat_history("acc-1", 100).unwrap();
    assert_eq!(history.len(), 2);
    let dm = history.iter().find(|m| m.to_user_id.as_deref() == Some("alice")).unwrap();
    assert_eq!(dm.id, "dm4");
    // Newest first, and no more than were asked for.
    assert_eq!(history[0].id, "dm4");
    assert_eq!(db.get_cached_chat_history("acc-1", 1).unwrap().len(), 1);
    assert!(db.get_cached_chat_history("acc-2", 10).unwrap().is_empty());
}

#[test]
fn chat_thread_messages_until_id_pagination() {
    let (_dir, db) = temp_db();
    for i in 0..5 {
        let ts = format!("2026-05-01T00:0{i}:00Z");
        let m = dm_msg(&format!("m{i}"), "me", "alice", "hi", &ts);
        db.cache_chat_message(&m, "acc-1", "me", "example.com").unwrap();
    }
    let older =
        db.get_cached_chat_thread_messages("acc-1", "u:alice", Some("m3"), 10).unwrap();
    let ids: Vec<&str> = older.iter().map(|m| m.id.as_str()).collect();
    assert_eq!(ids, vec!["m2", "m1", "m0"]);
    // Before a message that is not there, there is nothing.
    let none =
        db.get_cached_chat_thread_messages("acc-1", "u:alice", Some("missing"), 10).unwrap();
    assert!(none.is_empty());
}

#[test]
fn apply_chat_message_reaction_appends() {
    let (_dir, db) = temp_db();
    let msg = dm_msg("m1", "me", "alice", "hi", "2026-05-01T00:00:00Z");
    db.cache_chat_message(&msg, "acc-1", "me", "example.com").unwrap();
    let r = reactor("alice", "alice");
    let applied = db.apply_chat_message_reaction("acc-1", "m1", &r, "👍", true).unwrap();
    assert!(applied);

    let stored = db.get_cached_chat_thread_messages("acc-1", "u:alice", None, 10).unwrap();
    assert_eq!(stored[0].reactions.len(), 1);
    assert_eq!(stored[0].reactions[0].reaction, "👍");
    assert_eq!(stored[0].reactions[0].user.as_ref().unwrap().id, "alice");
}

#[test]
fn apply_chat_message_reaction_removes_match() {
    let (_dir, db) = temp_db();
    let mut msg = dm_msg("m1", "me", "alice", "hi", "2026-05-01T00:00:00Z");
    msg.reactions.push(ChatMessageReaction {
        user: Some(reactor("alice", "alice")),
        reaction: "👍".to_string(),
    });
    msg.reactions.push(ChatMessageReaction {
        user: Some(reactor("bob", "bob")),
        reaction: "❤️".to_string(),
    });
    db.cache_chat_message(&msg, "acc-1", "me", "example.com").unwrap();

    let applied = db
        .apply_chat_message_reaction("acc-1", "m1", &reactor("alice", "alice"), "👍", false)
        .unwrap();
    assert!(applied);

    let stored = db.get_cached_chat_thread_messages("acc-1", "u:alice", None, 10).unwrap();
    assert_eq!(stored[0].reactions.len(), 1);
    assert_eq!(stored[0].reactions[0].reaction, "❤️");
}

#[test]
fn apply_chat_message_reaction_no_match_returns_false() {
    let (_dir, db) = temp_db();
    let msg = dm_msg("m1", "me", "alice", "hi", "2026-05-01T00:00:00Z");
    db.cache_chat_message(&msg, "acc-1", "me", "example.com").unwrap();
    let unmatched = db
        .apply_chat_message_reaction("acc-1", "m1", &reactor("alice", "alice"), "👍", false)
        .unwrap();
    assert!(!unmatched);
    let absent = db
        .apply_chat_message_reaction("acc-1", "missing", &reactor("alice", "alice"), "👍", true)
        .unwrap();
    assert!(!absent);
}

#[test]
fn reactions_to_unreadable_messages_are_not_applied() {
    let (_dir, db) = temp_db();
    let msg = dm_msg("m1", "me", "alice", "hi", "2026-05-01T00:00:00Z");
    db.cache_chat_message(&msg, "acc-1", "me", "example.com").unwrap();
    db.writer.execute("UPDATE chat_messages_cache SET message_json = 'no JSON'", []).unwrap();
    let applied = db
        .apply_chat_message_reaction("acc-1", "m1", &reactor("alice", "alice"), "👍", true)
        .unwrap();
    assert!(!applied);
    assert!(db.get_cached_chat_thread_messages("acc-1", "u:alice", None, 10).unwrap().is_empty());
}

#[test]
fn delete_cached_chat_message_works() {
    let (_dir, db) = temp_db();
    let msg = dm_msg("m1", "me", "alice", "hi", "2026-05-01T00:00:00Z");
    db.cache_chat_message(&msg, "acc-1", "me", "example.com").unwrap();
    assert_eq!(db.chat_cache_count("acc-1").unwrap(), 1);

    let removed = db.delete_cached_chat_message("acc-1", "m1").unwrap();
    assert!(removed);
    assert_eq!(db.chat_cache_count("acc-1").unwrap(), 0);
    assert!(!db.delete_cached_chat_message("acc-1", "m1").unwrap());
}

#[test]
fn cleanup_chat_per_account_independent() {
    let (_dir, db) = temp_db();
    for i in 0..5 {
        let ts = format!("2026-05-01T00:0{i}:00Z");
        let m = dm_msg(&format!("a{i}"), "me", "alice", "hi", &ts);
        db.cache_chat_message(&m, "acc-1", "me", "example.com").unwrap();
        let m2 = dm_msg(&format!("b{i}"), "me", "bob", "yo", &ts);
        db.cache_chat_message(&m2, "acc-2", "me", "example.com").unwrap();
    }

    let cfg = ChatEvictionConfig { per_account_limit: Some(2), ttl_days: None };
    let _ = db.cleanup_chat_with_eviction(&cfg).unwrap();
    assert_eq!(db.chat_cache_count("acc-1").unwrap(), 2);
    assert_eq!(db.chat_cache_count("acc-2").unwrap(), 2);
}

#[test]
fn delete_account_purges_chat_cache() {
    let (_dir, db) = temp_db();
    db.upsert_account(&Account {
        id: "acc-1".to_string(),
        host: "example.com".to_string(),
        token: String::new(),
        user_id: "me".to_string(),
        username: "me".to_string(),
        display_name: None,
        avatar_url: None,
        software: "misskey".to_string(),
    })
    .unwrap();
    let msg = dm_msg("m1", "me", "alice", "hi", "2026-05-01T00:00:00Z");
    db.cache_chat_message(&msg, "acc-1", "me", "example.com").unwrap();
    db.cache_chat_message(&msg, "acc-2", "me", "example.com").unwrap();
    assert_eq!(db.chat_cache_count("acc-1").unwrap(), 1);

    db.delete_account("acc-1").unwrap();
    assert_eq!(db.chat_cache_count("acc-1").unwrap(), 0);
    // Another account keeps its messages.
    assert_eq!(db.chat_cache_count("acc-2").unwrap(), 1);
}

#[test]
fn get_cached_latest_message_id_returns_max_per_thread() {
    let (_dir, db) = temp_db();
    for i in 0..3 {
        let ts = format!("2026-05-01T00:0{i}:00Z");
        let m = dm_msg(&format!("m{i}"), "me", "alice", "hi", &ts);
        db.cache_chat_message(&m, "acc-1", "me", "example.com").unwrap();
    }
    let latest = db.get_cached_chat_latest_message_id("acc-1", "u:alice").unwrap();
    assert_eq!(latest, Some("m2".to_string()));

    let absent = db.get_cached_chat_latest_message_id("acc-1", "u:nonexistent").unwrap();
    assert!(absent.is_none());
}

#[test]
fn cache_chat_message_upserts_on_conflict() {
    let (_dir, db) = temp_db();
    let mut msg = dm_msg("m1", "me", "alice", "hi", "2026-05-01T00:00:00Z");
    db.cache_chat_message(&msg, "acc-1", "me", "example.com").unwrap();
    msg.text = Some("edited".to_string());
    db.cache_chat_message(&msg, "acc-1", "me", "example.com").unwrap();
    let stored = db.get_cached_chat_thread_messages("acc-1", "u:alice", None, 10).unwrap();
    assert_eq!(stored.len(), 1);
    assert_eq!(stored[0].text.as_deref(), Some("edited"));
}

#[test]
fn chat_statistics_count_messages_and_bytes() {
    let (_dir, db) = temp_db();
    let (count, size) = Database::chat_cache_stats();
    let stats = || {
        Database::chat_cache_stats_reply(&db.ask(&count).unwrap(), &db.ask(&size)).unwrap()
    };
    let pages = || -> (i64, i64) {
        db.reader
            .query_row(
                "SELECT COUNT(*), SUM(pgsize) FROM dbstat WHERE name = 'chat_messages_cache'",
                [],
                |row| Ok((row.get(0)?, row.get(1)?)),
            )
            .unwrap()
    };
    // The table has a page, but no messages.
    assert_eq!(pages().0, 1);
    assert_eq!(stats(), (0, 0));

    let msg = dm_msg("m1", "me", "alice", "hi", "2026-05-01T00:00:00Z");
    db.cache_chat_message(&msg, "acc-1", "me", "example.com").unwrap();
    assert_eq!(stats(), (1, pages().1));
    assert_eq!(pages(), (1, 4096));

    // Messages of all accounts count, and more of them take more pages.
    for i in 0..100 {
        let long = dm_msg(&format!("l{i}"), "me", "alice", &"x".repeat(500), "2026");
        db.cache_chat_message(&long, "acc-2", "me", "example.com").unwrap();
    }
    let (messages, bytes) = stats();
    assert_eq!(messages, 101);
    assert_eq!(bytes, pages().1);
    assert!(pages().0 > 10);
    // Less than the whole database.
    let whole: i64 = db.reader.query_row("PRAGMA page_count", [], |row| row.get(0)).unwrap();
    assert!(bytes < whole * 4096);

    assert_eq!(db.run(&Database::clear_chat_cache_for_account("acc-1")).unwrap(), 1);
    assert_eq!(db.run(&Database::clear_chat_cache_for_account("acc-2")).unwrap(), 100);
    assert_eq!(stats(), (0, 0));
}

#[test]
fn batches_that_fail_change_nothing() {
    let (_dir, db) = temp_db();
    db.writer
        .execute_batch(
            "CREATE TRIGGER no_bad_note BEFORE INSERT ON notes_cache WHEN new.note_id = 'bad'
             BEGIN SELECT RAISE(ABORT, 'refused'); END;
             CREATE TRIGGER no_bad_message BEFORE INSERT ON chat_messages_cache
             WHEN new.message_id = 'bad'
             BEGIN SELECT RAISE(ABORT, 'refused'); END;
             CREATE TRIGGER no_cap BEFORE DELETE ON notes_cache WHEN old.note_id = 'n3'
             BEGIN SELECT RAISE(ABORT, 'refused'); END;",
        )
        .unwrap();
    let mut first = sample_note("n1", "first");
    first.uri = Some("https://misskey.io/notes/n1".to_string());
    db.cache_note(&first, "home").unwrap();

    let batch =
        [sample_note("n1", "edited"), sample_note("n2", "second"), sample_note("bad", "third")];
    assert!(db.cache_notes(&batch, "local").is_err());
    assert_eq!(db.get_cached_timeline("acc-1", "home", 10).unwrap(), vec!["n1"]);
    assert!(db.get_cached_timeline("acc-1", "local", 10).unwrap().is_empty());
    assert_eq!(db.search_cached_notes("acc-1", "first", 10).unwrap(), vec!["n1"]);
    assert_eq!(db.account_cache_count("acc-1").unwrap(), 1);

    let records: Vec<ChatRecord> = [
        dm_msg("m1", "me", "alice", "hi", "2026-05-01T00:00:00Z"),
        dm_msg("bad", "me", "alice", "hi", "2026-05-01T00:00:00Z"),
    ]
    .iter()
    .map(|m| ChatRecord { message: m.clone(), json: Some(message_json(m)) })
    .collect();
    let (transaction, _) =
        Database::cache_chat_messages(&records, "acc-1", "me", "example.com", now());
    assert!(commit(&db.writer, &transaction).is_err());
    assert_eq!(db.chat_cache_count("acc-1").unwrap(), 0);

    // The age limit would remove a note, but the cap then fails.
    db.cache_notes(&[sample_note("n2", "x"), sample_note("n3", "x")], "home").unwrap();
    set_cached_at(&db, "n1", 0);
    let cfg = EvictionConfig { per_account_limit: Some(0), ttl_days: Some(1) };
    assert!(db.cleanup_with_eviction(&cfg).is_err());
    assert_eq!(db.account_cache_count("acc-1").unwrap(), 3);
}

#[test]
fn batches_of_messages_leave_other_rows_alone() {
    let (_dir, db) = temp_db();
    let old = dm_msg("m1", "me", "alice", "old", "2026-05-01T00:00:00Z");
    db.cache_chat_message(&old, "acc-1", "me", "example.com").unwrap();
    db.cache_chat_message(&old, "acc-2", "me", "example.com").unwrap();
    let other = dm_msg("m2", "me", "alice", "other", "2026-05-01T00:01:00Z");
    db.cache_chat_message(&other, "acc-1", "me", "example.com").unwrap();

    let records: Vec<ChatRecord> = [
        room_msg("m1", "alice", "room42", "new", "2026-05-01T00:02:00Z"),
        dm_msg("m3", "me", "alice", "third", "2026-05-01T00:03:00Z"),
    ]
    .iter()
    .map(|m| ChatRecord { message: m.clone(), json: Some(message_json(m)) })
    .collect();
    let (transaction, written) =
        Database::cache_chat_messages(&records, "acc-1", "me", "example.com", now());
    commit(&db.writer, &transaction).unwrap();
    assert_eq!(written, 2);

    let room = db.get_cached_chat_thread_messages("acc-1", "r:room42", None, 10).unwrap();
    assert_eq!(room.len(), 1);
    assert_eq!(room[0].text.as_deref(), Some("new"));
    let dm = db.get_cached_chat_thread_messages("acc-1", "u:alice", None, 10).unwrap();
    let ids: Vec<&str> = dm.iter().map(|m| m.id.as_str()).collect();
    assert_eq!(ids, vec!["m3", "m2"]);
    let elsewhere = db.get_cached_chat_thread_messages("acc-2", "u:alice", None, 10).unwrap();
    assert_eq!(elsewhere.len(), 1);
    assert_eq!(elsewhere[0].text.as_deref(), Some("old"));
}
