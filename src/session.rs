//! The decisions of a session: status transitions, transaction ids, the
//! pending-reply table, the file-list memo, request frames and the routing of
//! inbound frames. The caller performs the I/O that these decisions name.

use vstd::prelude::*;
use vstd::utf8::encode_utf8;
use std::collections::{HashMap, HashSet};
use crate::codes::{FieldType, TransactionType};
use crate::events::{carries_listing, event_view, events_view, has_code, listing_events, listing_fan_out, handle_server_event, server_event, EventModel};
use crate::path::{path_bytes, path_encodable, path_wire};
use crate::records::clone_strings;
use crate::text::{decimal, u16_to_decimal};
use crate::transaction::{encodable, find_field, frame, obfuscate, payload_text, FieldModel, Transaction, TransactionField, TransactionModel};
use crate::types::{strings_view, Bookmark, ConnectionStatus, HotlineEvent, ServerInfo};
use crate::wire::{be16, be32};

verus! {

broadcast use vstd::std_specs::hash::group_hash_axioms;

/// Why a request could not be built.
#[derive(Clone, Copy, Debug, PartialEq, Eq, Structural)]
pub enum RequestError {
    /// The session is not in a state that allows the request.
    InvalidState,
    /// Every transaction id has been issued.
    IdsExhausted,
    /// A path segment is longer than 255 bytes, or there are too many.
    PathTooLong,
    /// A field or the whole field block is too large for the wire format.
    TooLarge,
}

/// Why the login failed.
#[derive(Debug, Clone)]
pub enum LoginError {
    /// The session was not waiting for a login reply.
    NotLoggingIn,
    /// The server's own explanation.
    ServerText(String),
    /// Error code 1.
    InvalidCredentials,
    /// Error code 2.
    ServerFull,
    /// Error code 3.
    Banned,
    /// Any other error code.
    Code(u32),
}

/// Why the control-channel handshake failed.
#[derive(Clone, Copy, Debug, PartialEq, Eq, Structural)]
pub enum HandshakeError {
    /// The reply does not start with `TRTP`.
    BadMagic,
    /// The server answered with a nonzero error code.
    Rejected(u32),
}

/// A request ready to be written: its id and its frame.
#[derive(Debug)]
pub struct Outgoing {
    pub id: u32,
    pub frame: Vec<u8>,
}

/// What to do with an inbound frame.
#[derive(Debug)]
pub enum Dispatch {
    /// Hand the reply to the caller waiting on its id.
    Reply(Transaction),
    /// Publish these events.
    Events(Vec<HotlineEvent>),
    /// Nothing waits for it.
    Unclaimed,
}

/// The router's state: ids with a pending-reply slot, and the path requested
/// under each file-list id.
pub struct RouterModel {
    pub pending: Set<u32>,
    pub memo: Map<u32, Seq<Seq<char>>>,
}

/// The router after an inbound frame: a listing reply drops its file-list
/// memo entry (when it lists files) and leaves the pending table alone; any
/// other reply consumes its slot.
pub open spec fn after_frame(m: RouterModel, t: TransactionModel) -> RouterModel {
    if t.is_reply != 1 {
        m
    } else if carries_listing(t.fields) {
        RouterModel {
            pending: m.pending,
            memo: if has_code(t.fields, FieldType::FileNameWithInfo) { m.memo.remove(t.id) } else { m.memo },
        }
    } else {
        RouterModel { pending: m.pending.remove(t.id), memo: m.memo }
    }
}

/// The router after a wait for `id` ended without a reply.
pub open spec fn after_expiry(m: RouterModel, id: u32) -> RouterModel {
    RouterModel { pending: m.pending.remove(id), memo: m.memo }
}

/// The router after the connection closed: nothing waits any more.
pub open spec fn after_close(m: RouterModel) -> RouterModel {
    RouterModel { pending: Set::empty(), memo: Map::empty() }
}

/// The path memoised for a file-list id, or the root.
pub open spec fn memo_path(m: RouterModel, id: u32) -> Seq<Seq<char>> {
    if m.memo.contains_key(id) { m.memo[id] } else { Seq::empty() }
}

/// A request frame of kind `kind` and id `id` with these fields.
pub open spec fn request(kind: TransactionType, id: u32, fields: Seq<FieldModel>) -> TransactionModel {
    TransactionModel { flags: 0, is_reply: 0, kind, id, error_code: 0, fields }
}

/// A field model.
pub open spec fn fm(kind: FieldType, data: Seq<u8>) -> FieldModel {
    FieldModel { kind, data }
}

/// The fields that carry a path under `code`: none for the root.
pub open spec fn path_fields(kind: FieldType, path: Seq<String>) -> Seq<FieldModel> {
    if path.len() == 0 { Seq::empty() } else { seq![fm(kind, path_wire(path_bytes(path)))] }
}

/// The text of the first field with `code`, where it is valid UTF-8.
pub open spec fn valid_text(fs: Seq<FieldModel>, kind: FieldType) -> Option<Seq<char>> {
    match find_field(fs, kind) {
        Some(f) => payload_text(f.data),
        None => None,
    }
}

/// The server's name from a login reply, else `fallback`.
pub open spec fn reply_server_name(fs: Seq<FieldModel>, fallback: Seq<char>) -> Seq<char> {
    match valid_text(fs, FieldType::ServerName) {
        Some(t) => t,
        None => fallback,
    }
}

/// The privileges a login reply grants: its 8-byte `UserAccess` field, or none.
pub open spec fn reply_user_access(fs: Seq<FieldModel>) -> u64 {
    match find_field(fs, FieldType::UserAccess) {
        Some(f) => if f.data.len() == 8 { crate::wire::u64_at(f.data, 0) } else { 0 },
        None => 0,
    }
}

/// The server's version from a login reply, in decimal, else `Unknown`.
pub open spec fn reply_server_version(fs: Seq<FieldModel>) -> Seq<char> {
    match find_field(fs, FieldType::VersionNumber) {
        Some(f) => if f.data.len() == 2 {
            decimal(crate::wire::u16_at(f.data, 0) as nat)
        } else {
            seq!['U', 'n', 'k', 'n', 'o', 'w', 'n']
        },
        None => seq!['U', 'n', 'k', 'n', 'o', 'w', 'n'],
    }
}

/// The server's description from a login reply: its `Data` text unless
/// empty or equal to the name.
pub open spec fn reply_server_description(fs: Seq<FieldModel>, name: Seq<char>) -> Seq<char> {
    match valid_text(fs, FieldType::Data) {
        Some(t) => if t.len() > 0 && t != name { t } else { Seq::empty() },
        None => Seq::empty(),
    }
}

/// Whether `e` is the login error that a reply with nonzero `code` and these
/// fields gives: the server's `ErrorText`, else the
/// meaning of the code.
pub open spec fn login_error_matches(e: LoginError, code: u32, fs: Seq<FieldModel>) -> bool {
    match valid_text(fs, FieldType::ErrorText) {
        Some(t) => e matches LoginError::ServerText(s) && s@ == t,
        None => if code == 1 {
            e matches LoginError::InvalidCredentials
        } else if code == 2 {
            e matches LoginError::ServerFull
        } else if code == 3 {
            e matches LoginError::Banned
        } else {
            e == LoginError::Code(code)
        },
    }
}

/// The twelve bytes that open the control channel: `TRTP`, `HOTL`, version 1,
/// sub-version 2.
pub open spec fn handshake_bytes() -> Seq<u8> {
    seq![0x54u8, 0x52u8, 0x54u8, 0x50u8, 0x48u8, 0x4fu8, 0x54u8, 0x4cu8, 0u8, 1u8, 0u8, 2u8]
}

/// The bytes that open the control channel.
pub fn handshake_request() -> (r: Vec<u8>)
    ensures
        r@ == handshake_bytes(),
{
    let r = vec![0x54u8, 0x52u8, 0x54u8, 0x50u8, 0x48u8, 0x4fu8, 0x54u8, 0x4cu8, 0u8, 1u8, 0u8, 2u8];
    assert(r@ =~= handshake_bytes());
    r
}

/// Checks the server's 8-byte handshake reply: `TRTP`, then a 32-bit error code
/// that must be zero.
pub fn check_handshake_reply(reply: &[u8]) -> (r: Result<(), HandshakeError>)
    requires
        reply@.len() == 8,
    ensures
        !(reply@.subrange(0, 4) =~= seq![0x54u8, 0x52u8, 0x54u8, 0x50u8]) ==> r == Err::<(), HandshakeError>(HandshakeError::BadMagic),
        reply@.subrange(0, 4) =~= seq![0x54u8, 0x52u8, 0x54u8, 0x50u8] ==> r == if crate::wire::u32_at(reply@, 4) == 0 {
            Ok::<(), HandshakeError>(())
        } else {
            Err(HandshakeError::Rejected(crate::wire::u32_at(reply@, 4)))
        },
{
    if !(reply[0] == 0x54u8 && reply[1] == 0x52u8 && reply[2] == 0x54u8 && reply[3] == 0x50u8) {
        proof {
            if reply@.subrange(0, 4) =~= seq![0x54u8, 0x52u8, 0x54u8, 0x50u8] {
                assert(reply@.subrange(0, 4)[0] == reply@[0]);
                assert(reply@.subrange(0, 4)[1] == reply@[1]);
                assert(reply@.subrange(0, 4)[2] == reply@[2]);
                assert(reply@.subrange(0, 4)[3] == reply@[3]);
            }
        }
        return Err(HandshakeError::BadMagic);
    }
    assert(reply@.subrange(0, 4) =~= seq![0x54u8, 0x52u8, 0x54u8, 0x50u8]);
    let code = crate::wire::read_u32(reply, 4);
    if code != 0 {
        Err(HandshakeError::Rejected(code))
    } else {
        Ok(())
    }
}

/// The password a bookmark logs in with: its own, or empty.
pub open spec fn password_of(b: Bookmark) -> Seq<char> {
    match b.password {
        Some(p) => p@,
        None => Seq::empty(),
    }
}

/// The bytes `text/plain`, the only article flavor this client asks for.
pub open spec fn plain_text_flavor() -> Seq<u8> {
    seq![0x74u8, 0x65u8, 0x78u8, 0x74u8, 0x2fu8, 0x70u8, 0x6cu8, 0x61u8, 0x69u8, 0x6eu8]
}

/// The fields of a login: obfuscated login and password, icon, display name,
/// client version 123.
pub open spec fn login_fields(login: Seq<char>, password: Seq<char>, icon: u16, name: Seq<char>) -> Seq<FieldModel> {
    seq![
        fm(FieldType::UserLogin, obfuscate(encode_utf8(login))),
        fm(FieldType::UserPassword, obfuscate(encode_utf8(password))),
        fm(FieldType::UserIconId, be16(icon)),
        fm(FieldType::UserName, encode_utf8(name)),
        fm(FieldType::VersionNumber, be32(123)),
    ]
}

/// The fields of an agreement acceptance: display name, icon, options 0.
pub open spec fn agreed_fields(name: Seq<char>, icon: u16) -> Seq<FieldModel> {
    seq![fm(FieldType::UserName, encode_utf8(name)), fm(FieldType::UserIconId, be16(icon)), fm(FieldType::Options, be16(0))]
}

/// The fields of a chat line: its text and chat options 0.
pub open spec fn chat_fields(message: Seq<char>) -> Seq<FieldModel> {
    seq![fm(FieldType::Data, encode_utf8(message)), fm(FieldType::ChatOptions, be16(0))]
}

/// The fields of a private message: recipient, options 1, text.
pub open spec fn private_message_fields(user_id: u16, message: Seq<char>) -> Seq<FieldModel> {
    seq![fm(FieldType::UserId, be16(user_id)), fm(FieldType::Options, be32(1)), fm(FieldType::Data, encode_utf8(message))]
}

/// The fields of a request for an article's text.
pub open spec fn article_data_fields(article_id: u32, path: Seq<String>) -> Seq<FieldModel> {
    seq![
        fm(FieldType::NewsPath, path_wire(path_bytes(path))),
        fm(FieldType::NewsArticleId, be32(article_id)),
        fm(FieldType::NewsArticleDataFlavor, plain_text_flavor()),
    ]
}

/// The fields of a news article post.
pub open spec fn post_article_fields(title: Seq<char>, text: Seq<char>, path: Seq<String>, parent_id: u32) -> Seq<FieldModel> {
    seq![
        fm(FieldType::NewsPath, path_wire(path_bytes(path))),
        fm(FieldType::NewsArticleId, be32(parent_id)),
        fm(FieldType::NewsArticleTitle, encode_utf8(title)),
        fm(FieldType::NewsArticleDataFlavor, plain_text_flavor()),
        fm(FieldType::NewsArticleFlags, be32(0)),
        fm(FieldType::NewsArticleData, encode_utf8(text)),
    ]
}

/// The fields of a file download or upload request: the name, then the
/// folder path unless it is the root.
pub open spec fn file_fields(file_name: Seq<char>, path: Seq<String>) -> Seq<FieldModel> {
    seq![fm(FieldType::FileName, encode_utf8(file_name))] + path_fields(FieldType::FilePath, path)
}

/// The fields of a request to disconnect a user.
pub open spec fn disconnect_user_fields(user_id: u16, options: Option<u16>) -> Seq<FieldModel> {
    seq![fm(FieldType::UserId, be16(user_id))] + match options {
        Some(o) => seq![fm(FieldType::Options, be16(o))],
        None => Seq::empty(),
    }
}

/// The result of a request whose path must be encodable first.
pub open spec fn path_outcome(
    old: Session,
    new: Session,
    r: Result<Outgoing, RequestError>,
    path: Seq<String>,
    kind: TransactionType,
    fields: Seq<FieldModel>,
    awaits: bool,
) -> bool {
    if path_encodable(path_bytes(path)) {
        Session::outcome(old, new, r, kind, fields, awaits)
    } else {
        new == old && r == Err::<Outgoing, RequestError>(RequestError::PathTooLong)
    }
}

/// A session's state.
pub struct Session {
    bookmark: Bookmark,
    username: String,
    user_icon_id: u16,
    status: ConnectionStatus,
    next_id: u32,
    pending: HashSet<u32>,
    file_list_paths: HashMap<u32, Vec<String>>,
    server_info: Option<ServerInfo>,
    user_access: u64,
    issued: Ghost<Seq<u32>>,
}

impl Session {
    /// The ids issued so far, in order.
    pub closed spec fn issued(&self) -> Seq<u32> {
        self.issued@
    }

    /// The next id to issue.
    pub closed spec fn next_id(&self) -> u32 {
        self.next_id
    }

    /// The current status.
    pub closed spec fn status(&self) -> ConnectionStatus {
        self.status
    }

    /// The router's state.
    pub closed spec fn router(&self) -> RouterModel {
        RouterModel {
            pending: self.pending@,
            memo: self.file_list_paths@.map_values(|v: Vec<String>| strings_view(v@)),
        }
    }

    /// The display name.
    pub closed spec fn username(&self) -> Seq<char> {
        self.username@
    }

    /// The icon id.
    pub closed spec fn icon(&self) -> u16 {
        self.user_icon_id
    }

    /// What the login reply told about the server.
    pub closed spec fn server_info(&self) -> Option<ServerInfo> {
        self.server_info
    }

    /// The access privileges the login reply granted.
    pub closed spec fn user_access(&self) -> u64 {
        self.user_access
    }

    /// The bookmark the session was made from.
    pub closed spec fn bookmark(&self) -> Bookmark {
        self.bookmark
    }

    /// Ids were issued in increasing order, all below the next one, which
    /// starts at 1; every pending reply slot and file-list memo entry is
    /// under an id below the next one.
    pub closed spec fn consistent(&self) -> bool {
        &&& self.next_id >= 1
        &&& forall|i: int, j: int| 0 <= i < j < self.issued@.len() ==> self.issued@[i] < self.issued@[j]
        &&& forall|i: int| 0 <= i < self.issued@.len() ==> self.issued@[i] < self.next_id
        &&& forall|id: u32| self.pending@.contains(id) ==> id < self.next_id
        &&& forall|id: u32| self.file_list_paths@.contains_key(id) ==> id < self.next_id
    }

    /// Every session keeps its ids increasing.
    #[verifier::type_invariant]
    closed spec fn wf(&self) -> bool {
        self.consistent()
    }

    /// Everything but the router, the ids and the status stays as it was.
    pub open spec fn same_identity(&self, other: &Session) -> bool {
        &&& self.bookmark() == other.bookmark()
        &&& self.username() == other.username()
        &&& self.icon() == other.icon()
        &&& self.server_info() == other.server_info()
        &&& self.user_access() == other.user_access()
    }

    /// A new session: disconnected, display name `guest`, icon 191, first id 1.
    pub fn new(bookmark: Bookmark) -> (r: Session)
        ensures
            r.consistent(),
            r.status() == ConnectionStatus::Disconnected,
            r.next_id() == 1,
            r.issued().len() == 0,
            r.router().pending.is_empty(),
            r.router().memo.is_empty(),
            r.username() == seq!['g', 'u', 'e', 's', 't'],
            r.icon() == 191,
            r.bookmark() == bookmark,
    {
        let username = "guest".to_owned();
        proof {
            reveal_strlit("guest");
        }
        let r = Session {
            bookmark,
            username,
            user_icon_id: 191,
            status: ConnectionStatus::Disconnected,
            next_id: 1,
            pending: HashSet::new(),
            file_list_paths: HashMap::new(),
            server_info: None,
            user_access: 0,
            issued: Ghost(Seq::empty()),
        };
        assert(r.router().memo =~= Map::<u32, Seq<Seq<char>>>::empty());
        assert(r.username() =~= seq!['g', 'u', 'e', 's', 't']);
        r
    }

    /// Sets the display name and icon used by login and agreement.
    pub fn set_user_info(&mut self, username: String, user_icon_id: u16)
        ensures
            final(self).consistent(),
            final(self).username() == username@,
            final(self).icon() == user_icon_id,
            final(self).status() == old(self).status(),
            final(self).next_id() == old(self).next_id(),
            final(self).issued() == old(self).issued(),
            final(self).router() == old(self).router(),
            final(self).bookmark() == old(self).bookmark(),
            final(self).server_info() == old(self).server_info(),
            final(self).user_access() == old(self).user_access(),
    {
        proof {
            use_type_invariant(&*self);
        }
        self.username = username;
        self.user_icon_id = user_icon_id;
    }

    /// The event that announces the current status.
    pub fn status_event(&self) -> (r: HotlineEvent)
        ensures
            event_view(r) == EventModel::StatusChanged(self.status()),
    {
        HotlineEvent::StatusChanged(self.status)
    }

    /// The current status.
    pub fn get_status(&self) -> (r: ConnectionStatus)
        ensures
            r == self.status(),
    {
        self.status
    }

    /// The access privileges the login reply granted: its 8-byte
    /// `UserAccess` field, or none.
    pub fn get_user_access(&self) -> (r: u64)
        ensures
            r == self.user_access(),
    {
        self.user_access
    }

    /// What the login reply told about the server, once logged in.
    pub fn get_server_info(&self) -> (r: Option<ServerInfo>)
        ensures
            r == self.server_info(),
    {
        match &self.server_info {
            Some(i) => Some(ServerInfo {
                name: i.name.clone(),
                description: i.description.clone(),
                version: i.version.clone(),
                agreement: match &i.agreement {
                    Some(a) => Some(a.clone()),
                    None => None,
                },
            }),
            None => None,
        }
    }

    /// Whether a request of kind `kind` with these fields can be issued now.
    pub open spec fn issuable(&self, kind: TransactionType, fields: Seq<FieldModel>) -> bool {
        self.next_id() < u32::MAX && encodable(request(kind, self.next_id(), fields))
    }

    /// How issuing a request of kind `kind` with these fields went: on
    /// success the next id went out in its frame, the ids moved on by one, and
    /// a reply slot was opened when `awaits`; on failure nothing changed.
    pub open spec fn outcome(
        old: Session,
        new: Session,
        r: Result<Outgoing, RequestError>,
        kind: TransactionType,
        fields: Seq<FieldModel>,
        awaits: bool,
    ) -> bool {
        match r {
            Ok(o) => {
                &&& old.issuable(kind, fields)
                &&& o.id == old.next_id()
                &&& new.next_id() == o.id + 1
                &&& new.issued() == old.issued().push(o.id)
                &&& o.frame@ == frame(request(kind, o.id, fields))
                &&& new.router() == if awaits {
                    RouterModel { pending: old.router().pending.insert(o.id), memo: old.router().memo }
                } else {
                    old.router()
                }
                &&& new.status() == old.status()
                &&& new.same_identity(&old)
            },
            Err(e) => {
                &&& !old.issuable(kind, fields)
                &&& new == old
                &&& e == if old.next_id() == u32::MAX { RequestError::IdsExhausted } else { RequestError::TooLarge }
            },
        }
    }

    /// Issues the next id for a request of the given kind and fields, and
    /// opens a reply slot for it first when a reply is awaited.
    fn issue(&mut self, kind: TransactionType, fields: Vec<TransactionField>, awaits: bool) -> (r: Result<Outgoing, RequestError>)
        ensures
            final(self).consistent(),
            Session::outcome(*old(self), *final(self), r, kind, crate::transaction::field_models(fields@), awaits),
    {
        proof {
            use_type_invariant(&*self);
        }
        if self.next_id == u32::MAX {
            return Err(RequestError::IdsExhausted);
        }
        let t = Transaction { flags: 0, is_reply: 0, transaction_type: kind, id: self.next_id, error_code: 0, fields };
        assert(t@ == request(kind, self.next_id, crate::transaction::field_models(fields@)));
        if !t.is_encodable() {
            return Err(RequestError::TooLarge);
        }
        let id = self.next_id;
        let frame = t.encode();
        self.next_id = id + 1;
        self.issued = Ghost(self.issued@.push(id));
        if awaits {
            let mut pending = HashSet::new();
            std::mem::swap(&mut pending, &mut self.pending);
            pending.insert(id);
            self.pending = pending;
        }
        proof {
            assert forall|i: int, j: int| 0 <= i < j < self.issued@.len() implies self.issued@[i] < self.issued@[j] by {
                if j == self.issued@.len() - 1 {
                    assert(self.issued@[i] == old(self).issued@[i]);
                } else {
                    assert(self.issued@[i] == old(self).issued@[i]);
                    assert(self.issued@[j] == old(self).issued@[j]);
                }
            }
            assert forall|i: int| 0 <= i < self.issued@.len() implies self.issued@[i] < self.next_id by {
                if i < self.issued@.len() - 1 {
                    assert(self.issued@[i] == old(self).issued@[i]);
                }
            }
            if awaits {
                assert(self.router() == RouterModel { pending: old(self).router().pending.insert(id), memo: old(self).router().memo });
            } else {
                assert(self.router() == old(self).router());
            }
        }
        Ok(Outgoing { id, frame })
    }

    /// Drops the reply slot of `id`: its wait timed out or was abandoned.
    pub fn expire(&mut self, id: u32)
        ensures
            final(self).consistent(),
            final(self).router() == after_expiry(old(self).router(), id),
            final(self).status() == old(self).status(),
            final(self).next_id() == old(self).next_id(),
            final(self).issued() == old(self).issued(),
            final(self).same_identity(old(self)),
    {
        proof {
            use_type_invariant(&*self);
        }
        let mut pending = HashSet::new();
        std::mem::swap(&mut pending, &mut self.pending);
        pending.remove(&id);
        self.pending = pending;
        assert(self.router() == after_expiry(old(self).router(), id));
    }

    /// The connection is gone, by request or because the stream ended: the
    /// status becomes `Disconnected` and every reply slot and memo entry is
    /// dropped, so that no caller waits on it.
    pub fn disconnect(&mut self) -> (r: HotlineEvent)
        ensures
            final(self).consistent(),
            final(self).status() == ConnectionStatus::Disconnected,
            final(self).router() == after_close(old(self).router()),
            final(self).next_id() == old(self).next_id(),
            final(self).issued() == old(self).issued(),
            final(self).same_identity(old(self)),
            event_view(r) == EventModel::StatusChanged(ConnectionStatus::Disconnected),
    {
        proof {
            use_type_invariant(&*self);
        }
        self.status = ConnectionStatus::Disconnected;
        self.pending = HashSet::new();
        self.file_list_paths = HashMap::new();
        assert(self.router().memo =~= Map::<u32, Seq<Seq<char>>>::empty());
        HotlineEvent::StatusChanged(ConnectionStatus::Disconnected)
    }

    /// Routes an inbound frame. A reply carrying user or file listings fans
    /// out to events and leaves the pending table alone; another reply goes
    /// to the caller waiting on its id; a server-initiated frame becomes its
    /// event.
    pub fn on_frame(&mut self, t: Transaction) -> (r: Dispatch)
        ensures
            final(self).consistent(),
            final(self).router() == after_frame(old(self).router(), t@),
            final(self).status() == old(self).status(),
            final(self).next_id() == old(self).next_id(),
            final(self).issued() == old(self).issued(),
            final(self).same_identity(old(self)),
            t@.is_reply != 1 ==> match server_event(t@.kind, t@.fields) {
                Some(e) => r matches Dispatch::Events(v) && events_view(v@) == seq![e],
                None => r is Unclaimed,
            },
            t@.is_reply == 1 && carries_listing(t@.fields) ==> (r matches Dispatch::Events(v)
                && events_view(v@) == listing_events(t@.fields, memo_path(old(self).router(), t@.id))),
            t@.is_reply == 1 && !carries_listing(t@.fields) ==> if old(self).router().pending.contains(t@.id) {
                r matches Dispatch::Reply(x) && x@ == t@
            } else {
                r is Unclaimed
            },
    {
        proof {
            use_type_invariant(&*self);
        }
        if t.is_reply != 1 {
            return match handle_server_event(&t) {
                Some(e) => {
                    let v = vec![e];
                    assert(events_view(v@) =~= seq![event_view(e)]);
                    Dispatch::Events(v)
                },
                None => Dispatch::Unclaimed,
            };
        }
        let id = t.id;
        let path = match self.file_list_paths.get(&id) {
            Some(p) => clone_strings(p),
            None => Vec::new(),
        };
        assert(strings_view(path@) =~= memo_path(old(self).router(), id));
        let (events, listing) = listing_fan_out(&t, path);
        if listing {
            if has_file_field(&t) {
                let mut memo = HashMap::new();
                std::mem::swap(&mut memo, &mut self.file_list_paths);
                memo.remove(&id);
                self.file_list_paths = memo;
                assert(self.router().memo =~= old(self).router().memo.remove(id));
            }
            return Dispatch::Events(events);
        }
        if self.pending.contains(&id) {
            let mut pending = HashSet::new();
            std::mem::swap(&mut pending, &mut self.pending);
            pending.remove(&id);
            self.pending = pending;
            Dispatch::Reply(t)
        } else {
            assert(old(self).router().pending.remove(id) =~= old(self).router().pending);
            Dispatch::Unclaimed
        }
    }

    /// A field carrying `text` as UTF-8.
    fn text_field(field_type: FieldType, text: &str) -> (r: TransactionField)
        ensures
            r@ == fm(field_type, encode_utf8(text@)),
    {
        TransactionField::from_string(field_type, text)
    }

    /// The path field under `field_type`, unless the path is the root.
    fn push_path(fields: &mut Vec<TransactionField>, field_type: FieldType, path: &Vec<String>) -> (r: Result<(), RequestError>)
        ensures
            match r {
                Ok(_) => path_encodable(path_bytes(path@))
                    && crate::transaction::field_models(final(fields)@) == crate::transaction::field_models(old(fields)@) + path_fields(field_type, path@),
                Err(e) => !path_encodable(path_bytes(path@)) && e == RequestError::PathTooLong,
            },
    {
        let ghost before = crate::transaction::field_models(fields@);
        let f = match TransactionField::from_path(field_type, path) {
            Ok(f) => f,
            Err(_) => return Err(RequestError::PathTooLong),
        };
        if path.len() == 0 {
            assert(before + path_fields(field_type, path@) =~= before);
            return Ok(());
        }
        fields.push(f);
        assert(crate::transaction::field_models(fields@) =~= before + path_fields(field_type, path@));
        Ok(())
    }

    /// Leaves `Disconnected` for `Connecting`.
    pub fn begin_connect(&mut self) -> (r: Result<HotlineEvent, RequestError>)
        ensures
            final(self).consistent(),
            final(self).router() == old(self).router(),
            final(self).next_id() == old(self).next_id(),
            final(self).issued() == old(self).issued(),
            final(self).same_identity(old(self)),
            old(self).status() == ConnectionStatus::Disconnected ==> (final(self).status()
                == ConnectionStatus::Connecting && (r matches Ok(e) && event_view(e)
                == EventModel::StatusChanged(ConnectionStatus::Connecting))),
            old(self).status() != ConnectionStatus::Disconnected ==> final(self).status()
                == old(self).status() && r == Err::<HotlineEvent, RequestError>(RequestError::InvalidState),
    {
        proof {
            use_type_invariant(&*self);
        }
        if self.status != ConnectionStatus::Disconnected {
            return Err(RequestError::InvalidState);
        }
        self.status = ConnectionStatus::Connecting;
        Ok(HotlineEvent::StatusChanged(ConnectionStatus::Connecting))
    }

    /// The TCP stream is up: `Connecting` becomes `Connected`.
    pub fn transport_up(&mut self) -> (r: Result<HotlineEvent, RequestError>)
        ensures
            final(self).consistent(),
            final(self).router() == old(self).router(),
            final(self).next_id() == old(self).next_id(),
            final(self).issued() == old(self).issued(),
            final(self).same_identity(old(self)),
            old(self).status() == ConnectionStatus::Connecting ==> (final(self).status()
                == ConnectionStatus::Connected && (r matches Ok(e) && event_view(e)
                == EventModel::StatusChanged(ConnectionStatus::Connected))),
            old(self).status() != ConnectionStatus::Connecting ==> final(self).status()
                == old(self).status() && r == Err::<HotlineEvent, RequestError>(RequestError::InvalidState),
    {
        proof {
            use_type_invariant(&*self);
        }
        if self.status != ConnectionStatus::Connecting {
            return Err(RequestError::InvalidState);
        }
        self.status = ConnectionStatus::Connected;
        Ok(HotlineEvent::StatusChanged(ConnectionStatus::Connected))
    }

    /// The login request, after a good handshake: `Connected` becomes
    /// `LoggingIn`. No reply slot is opened: the caller reads the reply itself
    /// before routing starts.
    pub fn login_request(&mut self) -> (r: Result<(Outgoing, HotlineEvent), RequestError>)
        ensures
            final(self).consistent(),
            old(self).status() != ConnectionStatus::Connected ==> *final(self) == *old(self) && r
                == Err::<(Outgoing, HotlineEvent), RequestError>(RequestError::InvalidState),
            old(self).status() == ConnectionStatus::Connected ==> {
                let fields = login_fields(old(self).bookmark().login@, password_of(old(self).bookmark()), old(self).icon(), old(self).username());
                match r {
                    Ok((o, e)) => {
                        &&& final(self).status() == ConnectionStatus::LoggingIn
                        &&& event_view(e) == EventModel::StatusChanged(ConnectionStatus::LoggingIn)
                        &&& old(self).issuable(TransactionType::Login, fields)
                        &&& o.id == old(self).next_id()
                        &&& final(self).next_id() == o.id + 1
                        &&& final(self).issued() == old(self).issued().push(o.id)
                        &&& o.frame@ == frame(request(TransactionType::Login, o.id, fields))
                        &&& final(self).router() == old(self).router()
                        &&& final(self).same_identity(old(self))
                    },
                    Err(e) => Session::outcome(*old(self), *final(self), Err(e), TransactionType::Login, fields, false),
                }
            },
    {
        proof {
            use_type_invariant(&*self);
        }
        if self.status != ConnectionStatus::Connected {
            return Err(RequestError::InvalidState);
        }
        let mut fields: Vec<TransactionField> = Vec::new();
        fields.push(TransactionField::from_encoded_string(FieldType::UserLogin, self.bookmark.login.as_str()));
        let password = match &self.bookmark.password {
            Some(p) => TransactionField::from_encoded_string(FieldType::UserPassword, p.as_str()),
            None => {
                proof {
                    reveal_strlit("");
                }
                assert(""@ =~= Seq::<char>::empty());
                TransactionField::from_encoded_string(FieldType::UserPassword, "")
            },
        };
        assert(password@ == fm(FieldType::UserPassword, obfuscate(encode_utf8(password_of(self.bookmark)))));
        fields.push(password);
        fields.push(TransactionField::from_u16(FieldType::UserIconId, self.user_icon_id));
        fields.push(Session::text_field(FieldType::UserName, self.username.as_str()));
        fields.push(TransactionField::from_u32(FieldType::VersionNumber, 123));
        assert(crate::transaction::field_models(fields@) =~= login_fields(self.bookmark.login@, password_of(self.bookmark), self.user_icon_id, self.username@));
        let o = self.issue(TransactionType::Login, fields, false)?;
        self.status = ConnectionStatus::LoggingIn;
        Ok((o, HotlineEvent::StatusChanged(ConnectionStatus::LoggingIn)))
    }

    /// Takes the login reply. A nonzero error code fails the login with the
    /// server's text or the code's meaning, and the status becomes `Failed`;
    /// otherwise the server's name, version and description are kept and the
    /// status becomes `LoggedIn`.
    pub fn handle_login_reply(&mut self, reply: &Transaction) -> (r: Result<HotlineEvent, LoginError>)
        ensures
            final(self).consistent(),
            final(self).router() == old(self).router(),
            final(self).next_id() == old(self).next_id(),
            final(self).issued() == old(self).issued(),
            final(self).bookmark() == old(self).bookmark(),
            final(self).username() == old(self).username(),
            final(self).icon() == old(self).icon(),
            old(self).status() != ConnectionStatus::LoggingIn ==> (*final(self) == *old(self) && (r matches Err(LoginError::NotLoggingIn))),
            old(self).status() == ConnectionStatus::LoggingIn && reply@.error_code != 0 ==> {
                &&& final(self).status() == ConnectionStatus::Failed
                &&& final(self).user_access() == old(self).user_access()
                &&& final(self).server_info() == old(self).server_info()
                &&& r matches Err(e) && login_error_matches(e, reply@.error_code, reply@.fields)
            },
            old(self).status() == ConnectionStatus::LoggingIn && reply@.error_code == 0 ==> {
                let name = reply_server_name(reply@.fields, old(self).bookmark().name@);
                &&& final(self).status() == ConnectionStatus::LoggedIn
                &&& r matches Ok(e) && event_view(e) == EventModel::StatusChanged(ConnectionStatus::LoggedIn)
                &&& final(self).user_access() == reply_user_access(reply@.fields)
                &&& final(self).server_info() matches Some(i) && i.name@ == name && i.version@
                    == reply_server_version(reply@.fields) && i.description@ == reply_server_description(reply@.fields, name)
                    && i.agreement is None
            },
    {
        proof {
            use_type_invariant(&*self);
        }
        if self.status != ConnectionStatus::LoggingIn {
            return Err(LoginError::NotLoggingIn);
        }
        if reply.error_code != 0 {
            self.status = ConnectionStatus::Failed;
            let err = match text_field_of(reply, FieldType::ErrorText) {
                Some(t) => LoginError::ServerText(t),
                None => if reply.error_code == 1 {
                    LoginError::InvalidCredentials
                } else if reply.error_code == 2 {
                    LoginError::ServerFull
                } else if reply.error_code == 3 {
                    LoginError::Banned
                } else {
                    LoginError::Code(reply.error_code)
                },
            };
            return Err(err);
        }
        let name = match text_field_of(reply, FieldType::ServerName) {
            Some(t) => t,
            None => self.bookmark.name.clone(),
        };
        let version = match reply.get_field(FieldType::VersionNumber) {
            Some(f) => match f.to_u16() {
                Ok(v) => u16_to_decimal(v),
                Err(_) => unknown_version(),
            },
            None => unknown_version(),
        };
        let description = match text_field_of(reply, FieldType::Data) {
            Some(t) => if t.as_str().is_empty() || t == name {
                String::new()
            } else {
                t
            },
            None => String::new(),
        };
        let access = match reply.get_field(FieldType::UserAccess) {
            Some(f) => if f.data.len() == 8 {
                crate::wire::read_u64(f.data.as_slice(), 0)
            } else {
                0
            },
            None => 0,
        };
        self.user_access = access;
        self.server_info = Some(ServerInfo { name, description, version, agreement: None });
        self.status = ConnectionStatus::LoggedIn;
        Ok(HotlineEvent::StatusChanged(ConnectionStatus::LoggedIn))
    }

    /// Accepting the server agreement: display name, icon and options 0; a
    /// reply slot is opened.
    pub fn agreement_request(&mut self) -> (r: Result<Outgoing, RequestError>)
        ensures
            final(self).consistent(),
            Session::outcome(*old(self), *final(self), r, TransactionType::Agreed, agreed_fields(old(self).username(), old(self).icon()), true),
    {
        proof {
            use_type_invariant(&*self);
        }
        let mut fields: Vec<TransactionField> = Vec::new();
        fields.push(Session::text_field(FieldType::UserName, self.username.as_str()));
        fields.push(TransactionField::from_u16(FieldType::UserIconId, self.user_icon_id));
        fields.push(TransactionField::from_u16(FieldType::Options, 0));
        assert(crate::transaction::field_models(fields@) =~= agreed_fields(self.username@, self.user_icon_id));
        self.issue(TransactionType::Agreed, fields, true)
    }

    /// The user-list request; the reply fans out to `UserJoined` events, so no
    /// slot is opened. It also serves as the keep-alive.
    pub fn user_list_request(&mut self) -> (r: Result<Outgoing, RequestError>)
        ensures
            final(self).consistent(),
            Session::outcome(*old(self), *final(self), r, TransactionType::GetUserNameList, Seq::empty(), false),
    {
        proof {
            use_type_invariant(&*self);
        }
        let fields: Vec<TransactionField> = Vec::new();
        assert(crate::transaction::field_models(fields@) =~= Seq::<FieldModel>::empty());
        self.issue(TransactionType::GetUserNameList, fields, false)
    }

    /// A chat line; no reply is awaited.
    pub fn chat_request(&mut self, message: &str) -> (r: Result<Outgoing, RequestError>)
        ensures
            final(self).consistent(),
            Session::outcome(*old(self), *final(self), r, TransactionType::SendChat, chat_fields(message@), false),
    {
        proof {
            use_type_invariant(&*self);
        }
        let mut fields: Vec<TransactionField> = Vec::new();
        fields.push(Session::text_field(FieldType::Data, message));
        fields.push(TransactionField::from_u16(FieldType::ChatOptions, 0));
        assert(crate::transaction::field_models(fields@) =~= chat_fields(message@));
        self.issue(TransactionType::SendChat, fields, false)
    }

    /// A private message to `user_id`; no reply is awaited.
    pub fn private_message_request(&mut self, user_id: u16, message: &str) -> (r: Result<Outgoing, RequestError>)
        ensures
            final(self).consistent(),
            Session::outcome(*old(self), *final(self), r, TransactionType::SendInstantMessage, private_message_fields(user_id, message@), false),
    {
        proof {
            use_type_invariant(&*self);
        }
        let mut fields: Vec<TransactionField> = Vec::new();
        fields.push(TransactionField::from_u16(FieldType::UserId, user_id));
        fields.push(TransactionField::from_u32(FieldType::Options, 1));
        fields.push(Session::text_field(FieldType::Data, message));
        assert(crate::transaction::field_models(fields@) =~= private_message_fields(user_id, message@));
        self.issue(TransactionType::SendInstantMessage, fields, false)
    }

    /// A request for the message board; a reply slot is opened.
    pub fn message_board_request(&mut self) -> (r: Result<Outgoing, RequestError>)
        ensures
            final(self).consistent(),
            Session::outcome(*old(self), *final(self), r, TransactionType::GetMessageBoard, Seq::empty(), true),
    {
        proof {
            use_type_invariant(&*self);
        }
        let fields: Vec<TransactionField> = Vec::new();
        assert(crate::transaction::field_models(fields@) =~= Seq::<FieldModel>::empty());
        self.issue(TransactionType::GetMessageBoard, fields, true)
    }

    /// A message-board post; no reply is awaited.
    pub fn post_message_board_request(&mut self, text: &str) -> (r: Result<Outgoing, RequestError>)
        ensures
            final(self).consistent(),
            Session::outcome(*old(self), *final(self), r, TransactionType::OldPostNews, seq![fm(FieldType::Data, encode_utf8(text@))], false),
    {
        proof {
            use_type_invariant(&*self);
        }
        let mut fields: Vec<TransactionField> = Vec::new();
        fields.push(Session::text_field(FieldType::Data, text));
        assert(crate::transaction::field_models(fields@) =~= seq![fm(FieldType::Data, encode_utf8(text@))]);
        self.issue(TransactionType::OldPostNews, fields, false)
    }

    /// A request for the news categories under `path`; a reply slot is opened.
    pub fn news_categories_request(&mut self, path: &Vec<String>) -> (r: Result<Outgoing, RequestError>)
        ensures
            final(self).consistent(),
            path_outcome(*old(self), *final(self), r, path@, TransactionType::GetNewsCategoryList, path_fields(FieldType::NewsPath, path@), true),
    {
        proof {
            use_type_invariant(&*self);
        }
        let mut fields: Vec<TransactionField> = Vec::new();
        Session::push_path(&mut fields, FieldType::NewsPath, path)?;
        assert(crate::transaction::field_models(fields@) =~= path_fields(FieldType::NewsPath, path@));
        self.issue(TransactionType::GetNewsCategoryList, fields, true)
    }

    /// A request for the article listing under `path`; a reply slot is opened.
    pub fn news_articles_request(&mut self, path: &Vec<String>) -> (r: Result<Outgoing, RequestError>)
        ensures
            final(self).consistent(),
            path_outcome(*old(self), *final(self), r, path@, TransactionType::GetNewsArticleList, path_fields(FieldType::NewsPath, path@), true),
    {
        proof {
            use_type_invariant(&*self);
        }
        let mut fields: Vec<TransactionField> = Vec::new();
        Session::push_path(&mut fields, FieldType::NewsPath, path)?;
        assert(crate::transaction::field_models(fields@) =~= path_fields(FieldType::NewsPath, path@));
        self.issue(TransactionType::GetNewsArticleList, fields, true)
    }

    /// A request for an article's text; a reply slot is opened.
    pub fn news_article_data_request(&mut self, article_id: u32, path: &Vec<String>) -> (r: Result<Outgoing, RequestError>)
        ensures
            final(self).consistent(),
            path_outcome(*old(self), *final(self), r, path@, TransactionType::GetNewsArticleData, article_data_fields(article_id, path@), true),
    {
        proof {
            use_type_invariant(&*self);
        }
        let mut fields: Vec<TransactionField> = Vec::new();
        match TransactionField::from_path(FieldType::NewsPath, path) {
            Ok(f) => fields.push(f),
            Err(_) => return Err(RequestError::PathTooLong),
        }
        fields.push(TransactionField::from_u32(FieldType::NewsArticleId, article_id));
        fields.push(TransactionField::new(FieldType::NewsArticleDataFlavor, plain_text()));
        assert(crate::transaction::field_models(fields@) =~= article_data_fields(article_id, path@));
        self.issue(TransactionType::GetNewsArticleData, fields, true)
    }

    /// A news article post under `path`, in reply to `parent_id` (0 for a new
    /// thread); a reply slot is opened.
    pub fn post_news_article_request(&mut self, title: &str, text: &str, path: &Vec<String>, parent_id: u32) -> (r: Result<Outgoing, RequestError>)
        ensures
            final(self).consistent(),
            path_outcome(*old(self), *final(self), r, path@, TransactionType::PostNewsArticle, post_article_fields(title@, text@, path@, parent_id), true),
    {
        proof {
            use_type_invariant(&*self);
        }
        let mut fields: Vec<TransactionField> = Vec::new();
        match TransactionField::from_path(FieldType::NewsPath, path) {
            Ok(f) => fields.push(f),
            Err(_) => return Err(RequestError::PathTooLong),
        }
        fields.push(TransactionField::from_u32(FieldType::NewsArticleId, parent_id));
        fields.push(Session::text_field(FieldType::NewsArticleTitle, title));
        fields.push(TransactionField::new(FieldType::NewsArticleDataFlavor, plain_text()));
        fields.push(TransactionField::from_u32(FieldType::NewsArticleFlags, 0));
        fields.push(Session::text_field(FieldType::NewsArticleData, text));
        assert(crate::transaction::field_models(fields@) =~= post_article_fields(title@, text@, path@, parent_id));
        self.issue(TransactionType::PostNewsArticle, fields, true)
    }

    /// A request for the files under `path`. The reply fans out to a
    /// `FileList` event, so no slot is opened; the path is memoised under the
    /// request's id to tag that event.
    pub fn file_list_request(&mut self, path: &Vec<String>) -> (r: Result<Outgoing, RequestError>)
        ensures
            final(self).consistent(),
            path_encodable(path_bytes(path@)) ==> match r {
                Ok(o) => {
                    &&& old(self).issuable(TransactionType::GetFileNameList, path_fields(FieldType::FilePath, path@))
                    &&& o.id == old(self).next_id()
                    &&& final(self).next_id() == o.id + 1
                    &&& final(self).issued() == old(self).issued().push(o.id)
                    &&& o.frame@ == frame(request(TransactionType::GetFileNameList, o.id, path_fields(FieldType::FilePath, path@)))
                    &&& final(self).router() == RouterModel {
                        pending: old(self).router().pending,
                        memo: old(self).router().memo.insert(o.id, strings_view(path@)),
                    }
                    &&& final(self).status() == old(self).status()
                    &&& final(self).same_identity(old(self))
                },
                Err(e) => Session::outcome(*old(self), *final(self), Err(e), TransactionType::GetFileNameList, path_fields(FieldType::FilePath, path@), false),
            },
            !path_encodable(path_bytes(path@)) ==> *final(self) == *old(self) && r == Err::<Outgoing, RequestError>(RequestError::PathTooLong),
    {
        proof {
            use_type_invariant(&*self);
        }
        let mut fields: Vec<TransactionField> = Vec::new();
        Session::push_path(&mut fields, FieldType::FilePath, path)?;
        assert(crate::transaction::field_models(fields@) =~= path_fields(FieldType::FilePath, path@));
        let o = self.issue(TransactionType::GetFileNameList, fields, false)?;
        let memo = clone_strings(path);
        let mut paths = HashMap::new();
        std::mem::swap(&mut paths, &mut self.file_list_paths);
        paths.insert(o.id, memo);
        self.file_list_paths = paths;
        assert(self.router().memo =~= old(self).router().memo.insert(o.id, strings_view(path@)));
        Ok(o)
    }

    /// A request to download `file_name` from `path`; a reply slot is opened.
    pub fn download_request(&mut self, path: &Vec<String>, file_name: &str) -> (r: Result<Outgoing, RequestError>)
        ensures
            final(self).consistent(),
            path_outcome(*old(self), *final(self), r, path@, TransactionType::DownloadFile, file_fields(file_name@, path@), true),
    {
        proof {
            use_type_invariant(&*self);
        }
        let mut fields: Vec<TransactionField> = Vec::new();
        fields.push(Session::text_field(FieldType::FileName, file_name));
        Session::push_path(&mut fields, FieldType::FilePath, path)?;
        assert(crate::transaction::field_models(fields@) =~= file_fields(file_name@, path@));
        self.issue(TransactionType::DownloadFile, fields, true)
    }

    /// A request to upload `file_name` into `path`; a reply slot is opened.
    pub fn upload_request(&mut self, path: &Vec<String>, file_name: &str) -> (r: Result<Outgoing, RequestError>)
        ensures
            final(self).consistent(),
            path_outcome(*old(self), *final(self), r, path@, TransactionType::UploadFile, file_fields(file_name@, path@), true),
    {
        proof {
            use_type_invariant(&*self);
        }
        let mut fields: Vec<TransactionField> = Vec::new();
        fields.push(Session::text_field(FieldType::FileName, file_name));
        Session::push_path(&mut fields, FieldType::FilePath, path)?;
        assert(crate::transaction::field_models(fields@) =~= file_fields(file_name@, path@));
        self.issue(TransactionType::UploadFile, fields, true)
    }

    /// A request for the server banner; a reply slot is opened.
    pub fn banner_request(&mut self) -> (r: Result<Outgoing, RequestError>)
        ensures
            final(self).consistent(),
            Session::outcome(*old(self), *final(self), r, TransactionType::DownloadBanner, Seq::empty(), true),
    {
        proof {
            use_type_invariant(&*self);
        }
        let fields: Vec<TransactionField> = Vec::new();
        assert(crate::transaction::field_models(fields@) =~= Seq::<FieldModel>::empty());
        self.issue(TransactionType::DownloadBanner, fields, true)
    }

    /// A request to disconnect a user (1 = temporary ban, 2 = permanent ban in
    /// `options`); no reply is awaited.
    pub fn disconnect_user_request(&mut self, user_id: u16, options: Option<u16>) -> (r: Result<Outgoing, RequestError>)
        ensures
            final(self).consistent(),
            Session::outcome(*old(self), *final(self), r, TransactionType::DisconnectUser, disconnect_user_fields(user_id, options), false),
    {
        proof {
            use_type_invariant(&*self);
        }
        let mut fields: Vec<TransactionField> = Vec::new();
        fields.push(TransactionField::from_u16(FieldType::UserId, user_id));
        match options {
            Some(o) => fields.push(TransactionField::from_u16(FieldType::Options, o)),
            None => {},
        }
        assert(crate::transaction::field_models(fields@) =~= disconnect_user_fields(user_id, options));
        self.issue(TransactionType::DisconnectUser, fields, false)
    }
}

/// The text of the first field of a kind, where it is valid UTF-8.
fn text_field_of(t: &Transaction, field_type: FieldType) -> (r: Option<String>)
    ensures
        match r {
            Some(s) => valid_text(t@.fields, field_type) == Some(s@),
            None => valid_text(t@.fields, field_type) is None,
        },
{
    match t.get_field(field_type) {
        Some(f) => match f.to_string() {
            Ok(s) => Some(s),
            Err(_) => None,
        },
        None => None,
    }
}

/// The version shown when the server gave none.
fn unknown_version() -> (r: String)
    ensures
        r@ == seq!['U', 'n', 'k', 'n', 'o', 'w', 'n'],
{
    let r = "Unknown".to_owned();
    proof {
        reveal_strlit("Unknown");
    }
    assert(r@ =~= seq!['U', 'n', 'k', 'n', 'o', 'w', 'n']);
    r
}

/// The bytes `text/plain`.
fn plain_text() -> (r: Vec<u8>)
    ensures
        r@ == plain_text_flavor(),
{
    let r = vec![0x74u8, 0x65u8, 0x78u8, 0x74u8, 0x2fu8, 0x70u8, 0x6cu8, 0x61u8, 0x69u8, 0x6eu8];
    assert(r@ =~= plain_text_flavor());
    r
}

/// Whether some field of `t` is a `FileNameWithInfo`.
fn has_file_field(t: &Transaction) -> (r: bool)
    ensures
        r == has_code(t@.fields, FieldType::FileNameWithInfo),
{
    let mut found = false;
    let mut i: usize = 0;
    while i < t.fields.len()
        invariant
            i <= t@.fields.len(),
            found == has_code(t@.fields.subrange(0, i as int), FieldType::FileNameWithInfo),
        decreases t@.fields.len() - i,
    {
        assert(t@.fields.subrange(0, i + 1).drop_last() =~= t@.fields.subrange(0, i as int));
        assert(t.fields@[i as int]@ == t@.fields[i as int]);
        if t.fields[i].field_type == FieldType::FileNameWithInfo {
            found = true;
        }
        i = i + 1;
    }
    assert(t@.fields.subrange(0, i as int) =~= t@.fields);
    found
}

/// The transaction ids a session has issued are strictly increasing, so no
/// id is ever issued twice.
pub proof fn lemma_issued_ids_unique(s: Session)
    requires
        s.consistent(),
    ensures
        forall|i: int, j: int| 0 <= i < j < s.issued().len() ==> s.issued()[i] < s.issued()[j],
        forall|i: int, j: int| 0 <= i < s.issued().len() && 0 <= j < s.issued().len() && i != j ==> s.issued()[i] != s.issued()[j],
        forall|i: int| 0 <= i < s.issued().len() ==> s.issued()[i] < s.next_id(),
{
    assert forall|i: int, j: int| 0 <= i < s.issued().len() && 0 <= j < s.issued().len() && i != j implies s.issued()[i] != s.issued()[j] by {
        if i < j {
            assert(s.issued()[i] < s.issued()[j]);
        } else {
            assert(s.issued()[j] < s.issued()[i]);
        }
    }
}

/// A pending reply slot never outlives its request: the reply consumes it,
/// and so do a timeout and the connection closing.
pub proof fn lemma_slot_released(m: RouterModel, id: u32, t: TransactionModel)
    requires
        m.pending.contains(id),
        t.is_reply == 1,
        t.id == id,
        !carries_listing(t.fields),
    ensures
        !after_frame(m, t).pending.contains(id),
        !after_expiry(m, id).pending.contains(id),
        !after_close(m).pending.contains(id),
        after_frame(m, t).pending == m.pending.remove(id),
{
}

/// No slot is open yet under the id a session issues next, so a request that
/// opens one and then expires leaves the pending-reply table as it was.
pub proof fn lemma_request_then_expiry(s: Session)
    requires
        s.consistent(),
    ensures
        !s.router().pending.contains(s.next_id()),
        !s.router().memo.contains_key(s.next_id()),
        after_expiry(
            RouterModel { pending: s.router().pending.insert(s.next_id()), memo: s.router().memo },
            s.next_id(),
        ) == s.router(),
{
    assert(after_expiry(
        RouterModel { pending: s.router().pending.insert(s.next_id()), memo: s.router().memo },
        s.next_id(),
    ).pending =~= s.router().pending);
}

/// A reply that carries user or file listings leaves the pending-reply table
/// as it was.
pub proof fn lemma_listing_reply_keeps_slots(m: RouterModel, t: TransactionModel)
    requires
        t.is_reply == 1,
        carries_listing(t.fields),
    ensures
        after_frame(m, t).pending == m.pending,
{
}

} // verus!
