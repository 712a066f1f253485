//! Records that callers store and read.
use vstd::prelude::*;

verus! {

/// An account that is signed in.
#[derive(Debug, Clone)]
pub struct Account {
    pub id: String,
    pub host: String,
    pub token: String,
    pub user_id: String,
    pub username: String,
    pub display_name: Option<String>,
    pub avatar_url: Option<String>,
    pub software: String,
}

#[verifier::ext_equal]
pub struct AccountView {
    pub id: Seq<char>,
    pub host: Seq<char>,
    pub token: Seq<char>,
    pub user_id: Seq<char>,
    pub username: Seq<char>,
    pub display_name: Option<Seq<char>>,
    pub avatar_url: Option<Seq<char>>,
    pub software: Seq<char>,
}

impl View for Account {
    type V = AccountView;

    open spec fn view(&self) -> AccountView {
        AccountView {
            id: self.id@,
            host: self.host@,
            token: self.token@,
            user_id: self.user_id@,
            username: self.username@,
            display_name: self.display_name.deep_view(),
            avatar_url: self.avatar_url.deep_view(),
            software: self.software@,
        }
    }
}

impl DeepView for Account {
    type V = AccountView;

    open spec fn deep_view(&self) -> AccountView {
        self.view()
    }
}

/// What is known of a server's software.
#[derive(Debug, Clone)]
pub struct ServerDetection {
    pub host: String,
    pub software_name: String,
    pub software_version: String,
    pub software_repository: Option<String>,
    pub meta_json: String,
    pub updated_at: i64,
}

#[verifier::ext_equal]
pub struct ServerDetectionView {
    pub host: Seq<char>,
    pub software_name: Seq<char>,
    pub software_version: Seq<char>,
    pub software_repository: Option<Seq<char>>,
    pub meta_json: Seq<char>,
    pub updated_at: i64,
}

impl View for ServerDetection {
    type V = ServerDetectionView;

    open spec fn view(&self) -> ServerDetectionView {
        ServerDetectionView {
            host: self.host@,
            software_name: self.software_name@,
            software_version: self.software_version@,
            software_repository: self.software_repository.deep_view(),
            meta_json: self.meta_json@,
            updated_at: self.updated_at,
        }
    }
}

impl DeepView for ServerDetection {
    type V = ServerDetectionView;

    open spec fn deep_view(&self) -> ServerDetectionView {
        self.view()
    }
}

/// The summary of a linked page.
#[derive(Debug, Clone)]
pub struct SummaryRow {
    pub url: String,
    pub title: Option<String>,
    pub description: Option<String>,
    pub thumbnail: Option<String>,
    pub sitename: Option<String>,
    pub icon: Option<String>,
    pub player_url: Option<String>,
    pub player_width: Option<u32>,
    pub player_height: Option<u32>,
    pub player_allow: Option<String>,
    pub final_url: Option<String>,
    pub sensitive: bool,
    pub medias_json: Option<String>,
}

#[verifier::ext_equal]
pub struct SummaryRowView {
    pub url: Seq<char>,
    pub title: Option<Seq<char>>,
    pub description: Option<Seq<char>>,
    pub thumbnail: Option<Seq<char>>,
    pub sitename: Option<Seq<char>>,
    pub icon: Option<Seq<char>>,
    pub player_url: Option<Seq<char>>,
    pub player_width: Option<u32>,
    pub player_height: Option<u32>,
    pub player_allow: Option<Seq<char>>,
    pub final_url: Option<Seq<char>>,
    pub sensitive: bool,
    pub medias_json: Option<Seq<char>>,
}

impl View for SummaryRow {
    type V = SummaryRowView;

    open spec fn view(&self) -> SummaryRowView {
        SummaryRowView {
            url: self.url@,
            title: self.title.deep_view(),
            description: self.description.deep_view(),
            thumbnail: self.thumbnail.deep_view(),
            sitename: self.sitename.deep_view(),
            icon: self.icon.deep_view(),
            player_url: self.player_url.deep_view(),
            player_width: self.player_width,
            player_height: self.player_height,
            player_allow: self.player_allow.deep_view(),
            final_url: self.final_url.deep_view(),
            sensitive: self.sensitive,
            medias_json: self.medias_json.deep_view(),
        }
    }
}

impl DeepView for SummaryRow {
    type V = SummaryRowView;

    open spec fn deep_view(&self) -> SummaryRowView {
        self.view()
    }
}

/// A note, as far as the cache looks into it.
#[derive(Debug, Clone)]
pub struct NoteRecord {
    pub id: String,
    pub account_id: String,
    pub server_host: String,
    /// ISO 8601, so that texts compare as times do.
    pub created_at: String,
    pub text: Option<String>,
    /// The ActivityPub URI, where the note has one.
    pub uri: Option<String>,
    /// The whole note as JSON; none where it cannot be written as JSON.
    pub json: Option<String>,
}

#[verifier::ext_equal]
pub struct NoteRecordView {
    pub id: Seq<char>,
    pub account_id: Seq<char>,
    pub server_host: Seq<char>,
    pub created_at: Seq<char>,
    pub text: Option<Seq<char>>,
    pub uri: Option<Seq<char>>,
    pub json: Option<Seq<char>>,
}

impl View for NoteRecord {
    type V = NoteRecordView;

    open spec fn view(&self) -> NoteRecordView {
        NoteRecordView {
            id: self.id@,
            account_id: self.account_id@,
            server_host: self.server_host@,
            created_at: self.created_at@,
            text: self.text.deep_view(),
            uri: self.uri.deep_view(),
            json: self.json.deep_view(),
        }
    }
}

impl DeepView for NoteRecord {
    type V = NoteRecordView;

    open spec fn deep_view(&self) -> NoteRecordView {
        self.view()
    }
}

} // verus!
