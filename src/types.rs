//! Plain data carried between the protocol engine and its callers.

use vstd::prelude::*;

verus! {

/// A saved server: where it is and how to log in.
#[derive(Debug, Clone)]
pub struct Bookmark {
    pub id: String,
    pub name: String,
    pub address: String,
    pub port: u16,
    pub login: String,
    pub password: Option<String>,
    pub icon: Option<u16>,
    pub auto_connect: bool,
}

/// What the login reply told about the server.
#[derive(Debug, Clone)]
pub struct ServerInfo {
    pub name: String,
    pub description: String,
    pub version: String,
    pub agreement: Option<String>,
}

/// A user as a user list shows it.
#[derive(Debug, Clone)]
pub struct User {
    pub id: u32,
    pub name: String,
    pub icon: u16,
    pub flags: u16,
    pub is_admin: bool,
    pub is_idle: bool,
    pub color: Option<String>,
}

/// The states of a session's connection.
#[derive(Debug, Clone, Copy, PartialEq, Eq, Structural)]
pub enum ConnectionStatus {
    Disconnected,
    Connecting,
    Connected,
    LoggingIn,
    LoggedIn,
    Failed,
}

/// A news bundle (kind 2) or category (kind 3).
#[derive(Debug, Clone)]
pub struct NewsCategory {
    pub category_type: u16,
    pub count: u16,
    pub name: String,
    pub path: Vec<String>,
}

/// One entry of a news article listing.
#[derive(Debug, Clone)]
pub struct NewsArticle {
    pub id: u32,
    pub parent_id: u32,
    pub flags: u32,
    pub title: String,
    pub poster: String,
    pub date: Option<String>,
    pub path: Vec<String>,
}

/// One entry of a file listing.
#[derive(Debug, Clone)]
pub struct FileInfo {
    pub name: String,
    pub size: u32,
    pub is_folder: bool,
    pub file_type: String,
    pub creator: String,
}

/// A user as a `UserNameWithInfo` field describes it.
#[derive(Debug, Clone)]
pub struct UserInfo {
    pub user_id: u16,
    pub name: String,
    pub icon: u16,
    pub flags: u16,
}

/// Something that happened on a session, for its event stream.
#[derive(Debug, Clone)]
pub enum HotlineEvent {
    ChatMessage { user_id: u16, user_name: String, message: String },
    ServerMessage(String),
    PrivateMessage { user_id: u16, message: String },
    UserJoined { user_id: u16, user_name: String, icon: u16, flags: u16 },
    UserLeft { user_id: u16 },
    UserChanged { user_id: u16, user_name: String, icon: u16, flags: u16 },
    AgreementRequired(String),
    FileList { files: Vec<FileInfo>, path: Vec<String> },
    NewMessageBoardPost(String),
    StatusChanged(ConnectionStatus),
}

/// The views of a list of strings.
pub open spec fn strings_view(v: Seq<String>) -> Seq<Seq<char>> {
    v.map_values(|s: String| s@)
}

} // verus!
