//! The library's rules without an engine.
use notedeck_store::lifecycle::{Action, BackupStep, Opening, Stage};
use notedeck_store::messages::{ReactionStep, ThreadStep};
use notedeck_store::schema::SCHEMA;
use notedeck_store::{
    Account, Answer, ChatEvictionConfig, ChatMessage, ChatMessageReaction, ChatReactionUser,
    ChatRecord, Database, DatabaseError, EvictionConfig, NoteDeckError, NoteRecord, SummaryRow,
    Value,
};

fn text(s: &str) -> Value {
    Value::Text(s.to_string())
}

fn texts(params: &[Value]) -> Vec<String> {
    params
        .iter()
        .map(|v| match v {
            Value::Null => "NULL".to_string(),
            Value::Integer(i) => i.to_string(),
            Value::Text(s) => s.clone(),
            Value::InvalidText => "?".to_string(),
            Value::Other => "?".to_string(),
        })
        .collect()
}

fn answer(rows: Vec<Vec<Value>>) -> Answer {
    Answer { rows, failure: None }
}

fn locked() -> NoteDeckError {
    NoteDeckError::Database(DatabaseError::SqliteFailure {
        code: 5,
        message: Some("database is locked".to_string()),
    })
}

// ---- configurations ----

#[test]
fn default_config_is_lenient() {
    let cfg = EvictionConfig::default();
    assert_eq!(cfg.per_account_limit, Some(1_000_000));
    assert_eq!(cfg.ttl_days, None);
}

#[test]
fn default_chat_config_is_lenient() {
    let cfg = ChatEvictionConfig::default();
    assert_eq!(cfg.per_account_limit, Some(1_000_000));
    assert_eq!(cfg.ttl_days, None);
}

// ---- SQL ----

#[test]
fn statements_number_their_placeholders() {
    let account = Account {
        id: "a".to_string(),
        host: "h".to_string(),
        token: "t'; DROP TABLE accounts; --".to_string(),
        user_id: "u".to_string(),
        username: "n".to_string(),
        display_name: None,
        avatar_url: Some("v".to_string()),
        software: "s".to_string(),
    };
    let sql = Database::upsert_account(&account).sql();
    assert_eq!(
        sql.text,
        "INSERT INTO accounts (id, host, token, user_id, username, display_name, avatar_url, \
         software) VALUES (?1, ?2, ?3, ?4, ?5, ?6, ?7, ?8) ON CONFLICT(host, user_id) DO UPDATE \
         SET token = excluded.token, username = excluded.username, \
         display_name = excluded.display_name, avatar_url = excluded.avatar_url, \
         software = excluded.software"
    );
    assert_eq!(
        texts(&sql.params),
        vec!["a", "h", "t'; DROP TABLE accounts; --", "u", "n", "NULL", "v", "s"]
    );
}

#[test]
fn placeholders_go_beyond_nine() {
    let row = SummaryRow {
        url: "u".to_string(),
        title: None,
        description: None,
        thumbnail: None,
        sitename: None,
        icon: None,
        player_url: None,
        player_width: Some(640),
        player_height: None,
        player_allow: None,
        final_url: None,
        sensitive: true,
        medias_json: None,
    };
    let sql = Database::cache_summary("u", &row, 60, 1000).sql();
    assert!(sql.text.contains("VALUES (?1, ?2, ?3, ?4, ?5, ?6, ?7, ?8, ?9, ?10, ?11, ?12, ?13, ?14)"));
    assert_eq!(sql.params.len(), 14);
    assert!(matches!(sql.params[7], Value::Integer(640)));
    assert!(matches!(sql.params[11], Value::Integer(1)));
    assert!(matches!(sql.params[13], Value::Integer(1060)));
}

#[test]
fn updates_and_deletions_name_their_conditions() {
    let sql = Database::clear_token("acc-1").sql();
    assert_eq!(sql.text, "UPDATE accounts SET token = ?1 WHERE id = ?2");
    assert_eq!(texts(&sql.params), vec!["", "acc-1"]);

    let sql = Database::delete_cached_chat_message("acc-1", "m1").sql();
    assert_eq!(
        sql.text,
        "DELETE FROM chat_messages_cache WHERE account_id = ?1 AND message_id = ?2"
    );
    assert_eq!(texts(&sql.params), vec!["acc-1", "m1"]);

    assert_eq!(Database::clear_all_notes_cache().sql().text, "DELETE FROM notes_cache");
    assert_eq!(Database::clear_ogp_cache().sql().text, "DELETE FROM ogp_cache");

    let statements = Database::delete_account("acc-1");
    let deletions: Vec<String> = statements.iter().map(|s| s.sql().text).collect();
    assert_eq!(
        deletions,
        vec![
            "DELETE FROM notes_cache WHERE account_id = ?1",
            "DELETE FROM chat_messages_cache WHERE account_id = ?1",
            "DELETE FROM accounts WHERE id = ?1",
        ]
    );
}

#[test]
fn queries_name_their_order_and_limit() {
    assert_eq!(
        Database::load_accounts().sql().text,
        "SELECT id, host, token, user_id, username, display_name, avatar_url, software \
         FROM accounts ORDER BY rowid"
    );
    let sql = Database::get_account_by_host("h").sql();
    assert!(sql.text.ends_with(" FROM accounts WHERE host = ?1 LIMIT ?2"));
    assert_eq!(texts(&sql.params), vec!["h", "1"]);

    let sql = Database::get_cached_timeline_before("acc-1", "home", "2025", 7).sql();
    assert_eq!(
        sql.text,
        "SELECT note_json FROM notes_cache WHERE account_id = ?1 AND timeline_type = ?2 AND \
         created_at <= ?3 ORDER BY created_at DESC LIMIT ?4"
    );
    assert_eq!(texts(&sql.params), vec!["acc-1", "home", "2025", "7"]);

    let sql = Database::get_cached_chat_history("acc-1", 3).sql();
    assert_eq!(
        sql.text,
        "SELECT message_json FROM chat_messages_cache WHERE rowid IN (SELECT rowid FROM (SELECT \
         rowid, ROW_NUMBER() OVER (PARTITION BY thread_id ORDER BY created_at DESC) AS rn FROM \
         chat_messages_cache WHERE account_id = ?1) WHERE rn = 1) ORDER BY created_at DESC LIMIT ?2"
    );
}

#[test]
fn searches_choose_between_the_index_and_a_scan() {
    let sql = Database::search_cached_notes("acc-1", "say \"hi\"", 5).sql();
    assert_eq!(
        sql.text,
        "SELECT note_json FROM notes_cache WHERE account_id = ?1 AND rowid IN (SELECT rowid FROM \
         notes_fts WHERE notes_fts MATCH ?2) ORDER BY created_at DESC LIMIT ?3"
    );
    assert_eq!(texts(&sql.params), vec!["acc-1", "\"say \"\"hi\"\"\"", "5"]);

    // Three characters, though nine bytes.
    let sql = Database::search_cached_notes("acc-1", "\u{732b}\u{732b}\u{732b}", 5).sql();
    assert!(sql.text.contains("MATCH ?2"));
    // Two characters, though six bytes.
    let sql = Database::search_cached_notes("acc-1", "\u{732b}\u{732b}", 5).sql();
    assert!(sql.text.contains("text LIKE ?2"));
    assert_eq!(texts(&sql.params)[1], "%\u{732b}\u{732b}%");

    let sql =
        Database::search_cached_notes_advanced("acc-1", "", 5, Some("a"), Some("b"), true).sql();
    assert_eq!(
        sql.text,
        "SELECT note_json FROM notes_cache WHERE account_id = ?1 AND created_at >= ?2 AND \
         created_at <= ?3 ORDER BY created_at ASC LIMIT ?4"
    );
    assert_eq!(texts(&sql.params), vec!["acc-1", "a", "b", "5"]);
}

#[test]
fn evictions_delete_the_old_and_then_the_many() {
    let cfg = EvictionConfig { per_account_limit: Some(3), ttl_days: Some(2) };
    let t = Database::cleanup_with_eviction(&cfg, 1_000_000);
    assert_eq!(t.statements.len(), 2);
    let old = t.statements[0].sql();
    assert_eq!(old.text, "DELETE FROM notes_cache WHERE cached_at < ?1");
    assert!(matches!(old.params[0], Value::Integer(827_200)));
    let many = t.statements[1].sql();
    assert_eq!(
        many.text,
        "DELETE FROM notes_cache WHERE rowid IN (SELECT rowid FROM (SELECT rowid, ROW_NUMBER() \
         OVER (PARTITION BY account_id ORDER BY cached_at DESC) AS rn FROM notes_cache) WHERE rn \
         > ?1)"
    );
    assert!(matches!(many.params[0], Value::Integer(3)));

    let cfg = ChatEvictionConfig { per_account_limit: None, ttl_days: Some(-1) };
    let t = Database::cleanup_chat_with_eviction(&cfg, 0);
    assert_eq!(t.statements.len(), 1);
    let old = t.statements[0].sql();
    assert_eq!(old.text, "DELETE FROM chat_messages_cache WHERE cached_at < ?1");
    assert!(matches!(old.params[0], Value::Integer(86_400)));

    assert_eq!(Database::total_deleted(&vec![3, 4]), 7);
    assert_eq!(Database::total_deleted(&Vec::new()), 0);
}

#[test]
fn notes_that_are_no_json_are_cached_without() {
    let note = NoteRecord {
        id: "n1".to_string(),
        account_id: "acc-1".to_string(),
        server_host: "misskey.io".to_string(),
        created_at: "2025".to_string(),
        text: None,
        uri: None,
        json: None,
    };
    let sql = Database::cache_note(&note, "home", 9).statements[0].sql();
    assert_eq!(
        texts(&sql.params),
        vec!["n1", "acc-1", "misskey.io", "2025", "NULL", "", "9", "home", "NULL"]
    );
}

// ---- replies ----

#[test]
fn replies_read_rows() {
    let row = vec![
        text("acc-1"),
        text("misskey.io"),
        text("t"),
        text("user-1"),
        text("alice"),
        Value::Null,
        text("https://misskey.io/a.png"),
        text("misskey"),
    ];
    let found = Database::get_account_reply(&answer(vec![row.clone()])).unwrap().unwrap();
    assert_eq!(found.id, "acc-1");
    assert_eq!(found.display_name, None);
    assert_eq!(found.avatar_url, Some("https://misskey.io/a.png".to_string()));
    assert!(Database::get_account_reply(&answer(Vec::new())).unwrap().is_none());

    let mut nameless = row.clone();
    nameless[4] = Value::Null;
    let e = Database::get_account_reply(&answer(vec![nameless.clone()])).unwrap_err();
    assert!(matches!(
        e,
        NoteDeckError::Database(DatabaseError::InvalidColumnType { column: 4 })
    ));
    // The first row that cannot be read is the error of all.
    let e = Database::load_accounts_reply(&answer(vec![row.clone(), nameless])).unwrap_err();
    assert!(matches!(
        e,
        NoteDeckError::Database(DatabaseError::InvalidColumnType { column: 4 })
    ));
    let e = Database::get_account_reply(&answer(vec![row[..7].to_vec()])).unwrap_err();
    assert!(matches!(
        e,
        NoteDeckError::Database(DatabaseError::InvalidColumnIndex { column: 7 })
    ));
    let e = Database::load_accounts_reply(&Answer { rows: vec![row], failure: Some(locked()) })
        .unwrap_err();
    assert!(matches!(
        e,
        NoteDeckError::Database(DatabaseError::SqliteFailure { code: 5, .. })
    ));
}

#[test]
fn counts_need_a_row() {
    assert_eq!(Database::count_reply(&answer(vec![vec![Value::Integer(3)]])).unwrap(), 3);
    let e = Database::count_reply(&answer(Vec::new())).unwrap_err();
    assert!(matches!(e, NoteDeckError::Database(DatabaseError::QueryReturnedNoRows)));
}

#[test]
fn searches_pass_over_what_cannot_be_read() {
    let rows = vec![vec![text("a")], vec![Value::Null], vec![Value::InvalidText], vec![text("b")]];
    assert_eq!(Database::search_reply(&answer(rows.clone())), vec!["a", "b"]);
    assert_eq!(Database::messages_reply(&answer(rows.clone())), vec!["a", "b"]);
    let e = Database::notes_reply(&answer(rows)).unwrap_err();
    assert!(matches!(
        e,
        NoteDeckError::Database(DatabaseError::InvalidColumnType { column: 0 })
    ));
    // A failure ends a search and is an error of a timeline.
    let broken = Answer { rows: vec![vec![text("a")]], failure: Some(locked()) };
    assert_eq!(Database::search_reply(&broken), vec!["a"]);
    assert!(Database::notes_reply(&broken).is_err());
}

#[test]
fn date_ranges_need_both_ends() {
    let range = |a: Value, b: Value| Database::get_cache_date_range_reply(&answer(vec![vec![a, b]]));
    assert_eq!(
        range(text("a"), text("b")).unwrap(),
        Some(("a".to_string(), "b".to_string()))
    );
    assert_eq!(range(Value::Null, Value::Null).unwrap(), None);
    assert_eq!(range(text("a"), Value::Null).unwrap(), None);
    assert!(range(Value::Integer(1), Value::Null).is_err());
}

#[test]
fn statistics_without_a_size_have_none() {
    let (_, size) = Database::chat_cache_stats();
    assert_eq!(
        size.sql().text,
        "SELECT COALESCE(SUM(pgsize), 0) FROM dbstat WHERE name = ?1"
    );
    assert_eq!(texts(&size.sql().params), vec!["chat_messages_cache"]);

    let count = answer(vec![vec![Value::Integer(2)]]);
    let size = Ok(answer(vec![vec![Value::Integer(4096)]]));
    assert_eq!(Database::chat_cache_stats_reply(&count, &size).unwrap(), (2, 4096));
    let empty = answer(vec![vec![Value::Integer(0)]]);
    assert_eq!(Database::chat_cache_stats_reply(&empty, &size).unwrap(), (0, 0));
    assert_eq!(Database::chat_cache_stats_reply(&count, &Err(locked())).unwrap(), (2, 0));
    assert_eq!(
        Database::chat_cache_stats_reply(&count, &Ok(answer(Vec::new()))).unwrap(),
        (2, 0)
    );
    assert!(Database::chat_cache_stats_reply(&answer(Vec::new()), &size).is_err());
}

#[test]
fn poisoned_connections_are_locked() {
    assert!(Database::lock_read(false).is_ok());
    assert!(Database::lock_write(false).is_ok());
    match Database::lock_read(true) {
        Err(NoteDeckError::Database(DatabaseError::SqliteFailure { code, message })) => {
            assert_eq!(code, 6);
            assert_eq!(message, Some("Reader lock poisoned".to_string()));
        }
        _ => panic!("a poisoned connection was used"),
    }
    match Database::lock_write(true) {
        Err(NoteDeckError::Database(DatabaseError::SqliteFailure { code, message })) => {
            assert_eq!(code, 6);
            assert_eq!(message, Some("Writer lock poisoned".to_string()));
        }
        _ => panic!("a poisoned connection was used"),
    }
}

// ---- opening ----

#[test]
fn opening_stops_at_a_failure() {
    let opening = Database::open();
    assert!(matches!(opening.action(0), Action::OpenWriter));
    assert!(matches!(
        opening.advance(&Err(locked())),
        Err(NoteDeckError::Database(DatabaseError::SqliteFailure { code: 5, .. }))
    ));
    // Permissions that cannot be restricted are no reason to stop.
    let opening = Opening { stage: Stage::RestrictPermissions, ..Database::open() };
    let opening = opening.advance(&Err(locked())).unwrap();
    assert_eq!(opening.stage, Stage::AskVacuumMode);
    // A mode that does not come is.
    assert!(matches!(
        opening.advance(&Ok(answer(Vec::new()))),
        Err(NoteDeckError::Database(DatabaseError::QueryReturnedNoRows))
    ));
}

#[test]
fn opening_vacuums_only_where_the_mode_is_not_taken() {
    let mode = |n: i64| Ok(answer(vec![vec![Value::Integer(n)]]));
    let at = |stage: Stage| Opening { stage, ..Database::open() };
    assert_eq!(at(Stage::AskVacuumMode).advance(&mode(2)).unwrap().stage, Stage::Migrate);
    let set = at(Stage::AskVacuumMode).advance(&mode(0)).unwrap();
    assert_eq!(set.stage, Stage::SetVacuumMode);
    match set.action(0) {
        Action::RunWriter(sql) => assert_eq!(sql.text, "PRAGMA auto_vacuum=INCREMENTAL;"),
        _ => panic!("the mode is not set"),
    }
    let check = set.advance(&Ok(answer(Vec::new()))).unwrap();
    assert_eq!(check.stage, Stage::CheckVacuumMode);
    match check.action(0) {
        Action::AskWriter(sql) => assert_eq!(sql.text, "PRAGMA auto_vacuum"),
        _ => panic!("the mode is not asked for"),
    }
    assert_eq!(check.clone().advance(&mode(2)).unwrap().stage, Stage::Migrate);
    let vacuum = check.advance(&mode(0)).unwrap();
    assert_eq!(vacuum.stage, Stage::Vacuum);
    // A file with another mode is vacuumed in any case.
    let change = at(Stage::AskVacuumMode).advance(&mode(1)).unwrap();
    assert_eq!(change.stage, Stage::ChangeVacuumMode);
    match change.action(0) {
        Action::RunWriter(sql) => assert_eq!(sql.text, "PRAGMA auto_vacuum=INCREMENTAL;"),
        _ => panic!("the mode is not set"),
    }
    assert_eq!(change.advance(&Ok(answer(Vec::new()))).unwrap().stage, Stage::Vacuum);
    match vacuum.action(0) {
        Action::RunWriter(sql) => assert_eq!(sql.text, "VACUUM;"),
        _ => panic!("nothing is vacuumed"),
    }
}

#[test]
fn opening_presets_the_mode_only_where_there_is_none() {
    let mode = |n: i64| Ok(answer(vec![vec![Value::Integer(n)]]));
    let ask = Database::open().advance(&Ok(answer(Vec::new()))).unwrap();
    assert_eq!(ask.stage, Stage::AskFirstMode);
    match ask.action(0) {
        Action::AskWriter(sql) => assert_eq!(sql.text, "PRAGMA auto_vacuum"),
        _ => panic!("the mode is not asked for"),
    }
    assert_eq!(ask.clone().advance(&mode(0)).unwrap().stage, Stage::PresetVacuumMode);
    assert_eq!(ask.clone().advance(&mode(1)).unwrap().stage, Stage::ConfigureWriter);
    assert_eq!(ask.advance(&mode(2)).unwrap().stage, Stage::ConfigureWriter);
}

#[test]
fn opening_migrates_to_the_tables_of_the_library() {
    let migrate = Opening { stage: Stage::Migrate, ..Database::open() };
    match migrate.action(0) {
        Action::Migrate(sql) => {
            assert_eq!(sql.text, SCHEMA);
            assert!(sql.params.is_empty());
        }
        _ => panic!("nothing is migrated"),
    }
}

#[test]
fn opening_rebuilds_an_empty_index() {
    let ask = Opening { stage: Stage::AskIndex, ..Database::open() };
    match ask.action(0) {
        Action::AskWriter(sql) => assert_eq!(
            sql.text,
            "SELECT (SELECT COUNT(*) FROM notes_fts) = 0 AND (SELECT COUNT(*) FROM notes_cache \
             WHERE text IS NOT NULL) > 0"
        ),
        _ => panic!("the index is not checked"),
    }
    let next = ask.clone().advance(&Ok(answer(vec![vec![Value::Integer(0)]]))).unwrap();
    assert_eq!(next.stage, Stage::OpenReader);
    let next = ask.advance(&Ok(answer(vec![vec![Value::Integer(1)]]))).unwrap();
    assert_eq!(next.stage, Stage::RebuildIndex);
    match next.action(0) {
        Action::RunWriter(sql) => {
            assert_eq!(sql.text, "INSERT INTO notes_fts(notes_fts) VALUES('rebuild')")
        }
        _ => panic!("the index is not rebuilt"),
    }
}

#[test]
fn opening_takes_its_evictions_along() {
    let notes = EvictionConfig { per_account_limit: Some(5), ttl_days: None };
    let chats = ChatEvictionConfig { per_account_limit: None, ttl_days: Some(1) };
    let opening = Database::open_with_evictions(notes, chats);
    let evict = Opening { stage: Stage::EvictNotes, ..opening };
    match evict.action(100_000) {
        Action::Commit(t) => {
            assert_eq!(t.statements.len(), 1);
            assert!(matches!(t.statements[0].sql().params[0], Value::Integer(5)));
        }
        _ => panic!("no notes are evicted"),
    }
    let evict = evict.advance(&Ok(answer(Vec::new()))).unwrap();
    assert_eq!(evict.stage, Stage::EvictMessages);
    match evict.action(100_000) {
        Action::Commit(t) => {
            assert_eq!(t.statements.len(), 1);
            assert!(matches!(t.statements[0].sql().params[0], Value::Integer(13_600)));
        }
        _ => panic!("no messages are evicted"),
    }
}

#[test]
fn pages_are_returned_a_thousand_at_a_time() {
    assert_eq!(Database::incremental_vacuum_step().text, "PRAGMA incremental_vacuum(1000);");
}

#[test]
fn errors_say_what_failed() {
    match NoteDeckError::migration_failed("no such table") {
        NoteDeckError::Database(DatabaseError::SqliteFailure { code, message }) => {
            assert_eq!(code, 1);
            assert_eq!(message, Some("Migration failed: no such table".to_string()));
        }
        _ => panic!("another error"),
    }
    match NoteDeckError::backup_not_replaced("denied") {
        NoteDeckError::Database(DatabaseError::SqliteFailure { code, message }) => {
            assert_eq!(code, 14);
            assert_eq!(message, Some("failed to replace existing backup: denied".to_string()));
        }
        _ => panic!("another error"),
    }
}

#[test]
fn db_file_is_owner_only() {
    let mode = Database::restrict_permissions(0o644).unwrap_or(0o644);
    assert_eq!(mode & 0o777, 0o600);
    assert_eq!(Database::restrict_permissions(0o100604), Some(0o600));
    assert_eq!(Database::restrict_permissions(0o100010), Some(0o600));
    // Files that are the owner's alone keep their permissions.
    assert_eq!(Database::restrict_permissions(0o600), None);
    assert_eq!(Database::restrict_permissions(0o100700), None);
    assert_eq!(Database::restricted_files(), vec!["", "-wal", "-shm"]);
}

#[test]
fn backups_take_their_steps_in_order() {
    let steps = Database::backup_to("/tmp/b.db", true, true);
    assert_eq!(steps.len(), 4);
    assert!(matches!(steps[0], BackupStep::RemoveExisting));
    match &steps[1] {
        BackupStep::Copy(sql) => {
            assert_eq!(sql.text, "VACUUM INTO ?1");
            assert_eq!(texts(&sql.params), vec!["/tmp/b.db"]);
        }
        _ => panic!("nothing is copied"),
    }
    assert!(matches!(steps[2], BackupStep::RestrictPermissions));
    match &steps[3] {
        BackupStep::OnCopy(statement) => {
            let sql = statement.sql();
            assert_eq!(sql.text, "UPDATE accounts SET token = ?1");
            assert_eq!(texts(&sql.params), vec![""]);
        }
        _ => panic!("the tokens stay"),
    }
    assert_eq!(Database::backup_to("/tmp/b.db", false, false).len(), 2);
}

// ---- chat messages ----

fn dm_msg(id: &str, from: &str, to: &str, text: &str, created_at: &str) -> ChatMessage {
    ChatMessage {
        id: id.to_string(),
        created_at: created_at.to_string(),
        from_user_id: from.to_string(),
        from_user: None,
        to_user_id: Some(to.to_string()),
        to_user: None,
        to_room_id: None,
        to_room: None,
        text: Some(text.to_string()),
        file_id: None,
        file: None,
        is_read: Some(false),
        reactions: Vec::new(),
    }
}

fn room_msg(id: &str, from: &str, room: &str, text: &str, created_at: &str) -> ChatMessage {
    let mut msg = dm_msg(id, from, "", text, created_at);
    msg.to_user_id = None;
    msg.to_room_id = Some(room.to_string());
    msg
}

fn reactor(id: &str, username: &str) -> ChatReactionUser {
    ChatReactionUser {
        id: id.to_string(),
        name: None,
        username: username.to_string(),
        host: None,
        avatar_url: None,
    }
}

#[test]
fn derive_thread_key_dm_partner_is_other_side() {
    let msg = dm_msg("m1", "me", "alice", "hi", "2026-05-01T00:00:00Z");
    let (tid, kind) = Database::derive_thread_key(&msg, "me").unwrap();
    assert_eq!(tid, "u:alice");
    assert_eq!(kind, "dm");
    let msg = dm_msg("m2", "alice", "me", "yo", "2026-05-01T00:01:00Z");
    let (tid, kind) = Database::derive_thread_key(&msg, "me").unwrap();
    assert_eq!(tid, "u:alice");
    assert_eq!(kind, "dm");
}

#[test]
fn derive_thread_key_room_uses_room_id() {
    let msg = room_msg("m3", "alice", "room42", "hello", "2026-05-01T00:00:00Z");
    let (tid, kind) = Database::derive_thread_key(&msg, "me").unwrap();
    assert_eq!(tid, "r:room42");
    assert_eq!(kind, "room");
}

#[test]
fn derive_thread_key_returns_none_for_invalid_msg() {
    let msg = ChatMessage {
        id: "m4".to_string(),
        created_at: "2026-05-01T00:00:00Z".to_string(),
        from_user_id: "alice".to_string(),
        from_user: None,
        to_user_id: None,
        to_user: None,
        to_room_id: None,
        to_room: None,
        text: None,
        file_id: None,
        file: None,
        is_read: None,
        reactions: Vec::new(),
    };
    assert!(Database::derive_thread_key(&msg, "me").is_none());
}

#[test]
fn a_room_comes_before_a_user() {
    let mut msg = room_msg("m3", "alice", "x", "hello", "2026-05-01T00:00:00Z");
    msg.to_user_id = Some("x".to_string());
    let (tid, kind) = Database::derive_thread_key(&msg, "alice").unwrap();
    assert_eq!(tid, "r:x");
    assert_eq!(kind, "room");
    let dm = dm_msg("m1", "alice", "x", "hi", "2026-05-01T00:00:00Z");
    assert_eq!(Database::derive_thread_key(&dm, "alice").unwrap().0, "u:x");
}

#[test]
fn reactions_are_taken_back_one_at_a_time() {
    let alice = reactor("alice", "alice");
    let msg = dm_msg("m1", "me", "alice", "hi", "2026-05-01T00:00:00Z");
    assert!(msg.clone().reacted(&alice, "+", false).is_none());

    let mut msg = msg;
    msg.reactions.push(ChatMessageReaction { user: None, reaction: "+".to_string() });
    let twice = msg.reacted(&alice, "+", true).unwrap().reacted(&alice, "+", true).unwrap();
    assert_eq!(twice.reactions.len(), 3);
    let once = twice.reacted(&alice, "+", false).unwrap();
    assert_eq!(once.reactions.len(), 2);
    assert!(once.reactions[0].user.is_none());
    // Another user's reaction, or another reaction, is no match.
    assert!(once.clone().reacted(&reactor("bob", "bob"), "+", false).is_none());
    assert!(once.clone().reacted(&alice, "-", false).is_none());
    let none = once.reacted(&alice, "+", false).unwrap();
    assert_eq!(none.reactions.len(), 1);
    assert!(none.reacted(&alice, "+", false).is_none());
}

#[test]
fn reactions_that_cannot_be_applied_change_nothing() {
    for reply in [
        Err(locked()),
        Ok(answer(Vec::new())),
        Ok(answer(vec![vec![Value::Null]])),
    ] {
        assert!(matches!(Database::reaction_found(&reply), ReactionStep::Unapplied));
    }
    match Database::reaction_found(&Ok(answer(vec![vec![text("{}")]]))) {
        ReactionStep::Read(json) => assert_eq!(json, "{}"),
        _ => panic!("the message is not read"),
    }
    let alice = reactor("alice", "alice");
    let old = "old".to_string();
    assert!(matches!(
        Database::reaction_read(None, old.clone(), &alice, "+", true),
        ReactionStep::Unapplied
    ));
    let msg = dm_msg("m1", "me", "alice", "hi", "2026-05-01T00:00:00Z");
    assert!(matches!(
        Database::reaction_read(Some(msg.clone()), old.clone(), &alice, "+", false),
        ReactionStep::Unapplied
    ));
    match Database::reaction_read(Some(msg), old.clone(), &alice, "+", true) {
        ReactionStep::Write { message, json } => {
            assert_eq!(message.reactions.len(), 1);
            assert_eq!(message.reactions[0].reaction, "+");
            assert_eq!(json, "old");
        }
        _ => panic!("the message is not written"),
    }

    match Database::reaction_written("acc-1", "m1", None, old.clone()) {
        ReactionStep::Store(statement) => {
            let sql = statement.sql();
            assert_eq!(
                sql.text,
                "UPDATE chat_messages_cache SET message_json = ?1 WHERE account_id = ?2 AND \
                 message_id = ?3"
            );
            assert_eq!(texts(&sql.params), vec!["old", "acc-1", "m1"]);
        }
        _ => panic!("the message is not stored"),
    }
    match Database::reaction_written("acc-1", "m1", Some("new".to_string()), old) {
        ReactionStep::Store(statement) => {
            assert_eq!(texts(&statement.sql().params), vec!["new", "acc-1", "m1"])
        }
        _ => panic!("the message is not stored"),
    }
    assert!(Database::any_changed(1));
    assert!(!Database::any_changed(0));
}

#[test]
fn threads_are_read_in_one_step_or_two() {
    match Database::get_cached_chat_thread_messages("acc-1", "u:alice", None, 4) {
        ThreadStep::Messages(q) => assert_eq!(
            q.sql().text,
            "SELECT message_json FROM chat_messages_cache WHERE account_id = ?1 AND thread_id = \
             ?2 ORDER BY created_at DESC LIMIT ?3"
        ),
        _ => panic!("another step"),
    }
    match Database::get_cached_chat_thread_messages("acc-1", "u:alice", Some("m3"), 4) {
        ThreadStep::Anchor(q) => {
            let sql = q.sql();
            assert_eq!(
                sql.text,
                "SELECT created_at FROM chat_messages_cache WHERE account_id = ?1 AND message_id \
                 = ?2"
            );
            assert_eq!(texts(&sql.params), vec!["acc-1", "m3"]);
        }
        _ => panic!("another step"),
    }
    let reply = Ok(answer(vec![vec![text("2026")]]));
    match Database::thread_anchor_reply("acc-1", "u:alice", &reply, 4) {
        ThreadStep::Messages(q) => {
            let sql = q.sql();
            assert!(sql.text.contains("AND created_at < ?3 ORDER BY created_at DESC LIMIT ?4"));
            assert_eq!(texts(&sql.params), vec!["acc-1", "u:alice", "2026", "4"]);
        }
        _ => panic!("another step"),
    }
    assert!(matches!(
        Database::thread_anchor_reply("acc-1", "u:alice", &Err(locked()), 4),
        ThreadStep::Nothing
    ));
    assert!(matches!(
        Database::thread_anchor_reply("acc-1", "u:alice", &Ok(answer(Vec::new())), 4),
        ThreadStep::Nothing
    ));
}

#[test]
fn messages_without_json_are_cached_without() {
    let record = ChatRecord {
        message: dm_msg("m1", "alice", "me", "hi", "2026-05-01T00:00:00Z"),
        json: None,
    };
    let (t, written) = Database::cache_chat_message(&record, "acc-1", "me", "example.com", 7);
    assert!(written);
    assert_eq!(
        texts(&t.statements[0].sql().params),
        vec![
            "m1",
            "acc-1",
            "example.com",
            "u:alice",
            "dm",
            "alice",
            "2026-05-01T00:00:00Z",
            "",
            "7",
        ]
    );
}
