//! The vocabulary of the database: its tables, their columns, and the values
//! that statements carry in and rows carry out.
use vstd::prelude::*;

verus! {

/// The tables.
#[derive(Debug, Clone, Copy, PartialEq, Eq, Structural)]
pub enum Table {
    /// Accounts that are signed in on this machine.
    Accounts,
    /// What is known of the software of each server.
    ServerDetections,
    /// Notes kept for offline reading and search.
    Notes,
    /// Summaries of linked pages, each until it expires.
    Summaries,
    /// Chat messages kept for offline reading.
    Messages,
}

impl Table {
    /// The table's name in SQL.
    pub open spec fn spec_name(self) -> Seq<char> {
        match self {
            Table::Accounts => "accounts"@,
            Table::ServerDetections => "server_detections"@,
            Table::Notes => "notes_cache"@,
            Table::Summaries => "ogp_cache"@,
            Table::Messages => "chat_messages_cache"@,
        }
    }

    /// The table's name in SQL.
    pub fn name(self) -> (r: &'static str)
        ensures
            r@ == self.spec_name(),
    {
        match self {
            Table::Accounts => "accounts",
            Table::ServerDetections => "server_detections",
            Table::Notes => "notes_cache",
            Table::Summaries => "ogp_cache",
            Table::Messages => "chat_messages_cache",
        }
    }
}

/// The columns of all tables. A column of the same name in two tables is one
/// variant here.
#[derive(Debug, Clone, Copy, PartialEq, Eq, Structural)]
pub enum Column {
    Id,
    Host,
    Token,
    UserId,
    Username,
    DisplayName,
    AvatarUrl,
    Software,
    SoftwareName,
    SoftwareVersion,
    SoftwareRepository,
    MetaJson,
    UpdatedAt,
    NoteId,
    AccountId,
    ServerHost,
    CreatedAt,
    Text,
    NoteJson,
    CachedAt,
    TimelineType,
    Uri,
    Url,
    Title,
    Description,
    Image,
    SiteName,
    Icon,
    PlayerUrl,
    PlayerWidth,
    PlayerHeight,
    PlayerAllow,
    FinalUrl,
    Sensitive,
    MediasJson,
    ExpiresAt,
    MessageId,
    ThreadId,
    ThreadKind,
    FromUserId,
    MessageJson,
}

impl Column {
    /// The column's name in SQL.
    pub open spec fn spec_name(self) -> Seq<char> {
        match self {
            Column::Id => "id"@,
            Column::Host => "host"@,
            Column::Token => "token"@,
            Column::UserId => "user_id"@,
            Column::Username => "username"@,
            Column::DisplayName => "display_name"@,
            Column::AvatarUrl => "avatar_url"@,
            Column::Software => "software"@,
            Column::SoftwareName => "software_name"@,
            Column::SoftwareVersion => "software_version"@,
            Column::SoftwareRepository => "software_repository"@,
            Column::MetaJson => "meta_json"@,
            Column::UpdatedAt => "updated_at"@,
            Column::NoteId => "note_id"@,
            Column::AccountId => "account_id"@,
            Column::ServerHost => "server_host"@,
            Column::CreatedAt => "created_at"@,
            Column::Text => "text"@,
            Column::NoteJson => "note_json"@,
            Column::CachedAt => "cached_at"@,
            Column::TimelineType => "timeline_type"@,
            Column::Uri => "uri"@,
            Column::Url => "url"@,
            Column::Title => "title"@,
            Column::Description => "description"@,
            Column::Image => "image"@,
            Column::SiteName => "site_name"@,
            Column::Icon => "icon"@,
            Column::PlayerUrl => "player_url"@,
            Column::PlayerWidth => "player_width"@,
            Column::PlayerHeight => "player_height"@,
            Column::PlayerAllow => "player_allow"@,
            Column::FinalUrl => "final_url"@,
            Column::Sensitive => "sensitive"@,
            Column::MediasJson => "medias_json"@,
            Column::ExpiresAt => "expires_at"@,
            Column::MessageId => "message_id"@,
            Column::ThreadId => "thread_id"@,
            Column::ThreadKind => "thread_kind"@,
            Column::FromUserId => "from_user_id"@,
            Column::MessageJson => "message_json"@,
        }
    }

    /// The column's name in SQL.
    pub fn name(self) -> (r: &'static str)
        ensures
            r@ == self.spec_name(),
    {
        match self {
            Column::Id => "id",
            Column::Host => "host",
            Column::Token => "token",
            Column::UserId => "user_id",
            Column::Username => "username",
            Column::DisplayName => "display_name",
            Column::AvatarUrl => "avatar_url",
            Column::Software => "software",
            Column::SoftwareName => "software_name",
            Column::SoftwareVersion => "software_version",
            Column::SoftwareRepository => "software_repository",
            Column::MetaJson => "meta_json",
            Column::UpdatedAt => "updated_at",
            Column::NoteId => "note_id",
            Column::AccountId => "account_id",
            Column::ServerHost => "server_host",
            Column::CreatedAt => "created_at",
            Column::Text => "text",
            Column::NoteJson => "note_json",
            Column::CachedAt => "cached_at",
            Column::TimelineType => "timeline_type",
            Column::Uri => "uri",
            Column::Url => "url",
            Column::Title => "title",
            Column::Description => "description",
            Column::Image => "image",
            Column::SiteName => "site_name",
            Column::Icon => "icon",
            Column::PlayerUrl => "player_url",
            Column::PlayerWidth => "player_width",
            Column::PlayerHeight => "player_height",
            Column::PlayerAllow => "player_allow",
            Column::FinalUrl => "final_url",
            Column::Sensitive => "sensitive",
            Column::MediasJson => "medias_json",
            Column::ExpiresAt => "expires_at",
            Column::MessageId => "message_id",
            Column::ThreadId => "thread_id",
            Column::ThreadKind => "thread_kind",
            Column::FromUserId => "from_user_id",
            Column::MessageJson => "message_json",
        }
    }
}

/// The value of one column of one row.
#[verifier::ext_equal]
pub enum Cell {
    Null,
    Integer(int),
    Text(Seq<char>),
    /// A text that is not UTF-8.
    InvalidText,
    /// A real number or a blob. No column of these tables holds one.
    Other,
}

/// A value handed to the database as a parameter or read from a row.
#[derive(Debug, Clone)]
pub enum Value {
    Null,
    Integer(i64),
    Text(String),
    /// A text that is not UTF-8.
    InvalidText,
    /// A real number or a blob. No column of these tables holds one.
    Other,
}

impl View for Value {
    type V = Cell;

    open spec fn view(&self) -> Cell {
        match self {
            Value::Null => Cell::Null,
            Value::Integer(i) => Cell::Integer(*i as int),
            Value::Text(s) => Cell::Text(s@),
            Value::InvalidText => Cell::InvalidText,
            Value::Other => Cell::Other,
        }
    }
}

impl DeepView for Value {
    type V = Cell;

    open spec fn deep_view(&self) -> Cell {
        self.view()
    }
}

/// The cell of an optional text: null where there is none.
pub open spec fn optional_text(t: Option<Seq<char>>) -> Cell {
    match t {
        Some(s) => Cell::Text(s),
        None => Cell::Null,
    }
}

/// The cell of an optional integer: null where there is none.
pub open spec fn optional_integer(i: Option<u32>) -> Cell {
    match i {
        Some(n) => Cell::Integer(n as int),
        None => Cell::Null,
    }
}

impl Value {
    /// A value with the same contents.
    pub fn copied(&self) -> (r: Value)
        ensures
            r@ == self@,
    {
        match self {
            Value::Null => Value::Null,
            Value::Integer(i) => Value::Integer(*i),
            Value::Text(s) => Value::Text(s.clone()),
            Value::InvalidText => Value::InvalidText,
            Value::Other => Value::Other,
        }
    }

    /// The text `s`.
    pub fn text(s: &str) -> (r: Value)
        ensures
            r@ == Cell::Text(s@),
    {
        Value::Text(s.to_owned())
    }

    /// The text in `s`, or null.
    pub fn optional_text(s: &Option<String>) -> (r: Value)
        ensures
            r@ == optional_text(s.deep_view()),
    {
        match s {
            Some(t) => Value::Text(t.clone()),
            None => Value::Null,
        }
    }

    /// The number in `n`, or null.
    pub fn optional_integer(n: Option<u32>) -> (r: Value)
        ensures
            r@ == optional_integer(n),
    {
        match n {
            Some(i) => Value::Integer(i as i64),
            None => Value::Null,
        }
    }
}

} // verus!
