//! Classifying inbound frames: server-initiated events by transaction kind,
//! and the events that user and file listings fan out to.

use vstd::prelude::*;
use crate::codes::{FieldType, TransactionType};
use crate::records::{file_entry, file_view, parse_file_info, parse_user_info, user_entry, FileModel};
use crate::transaction::{find_field, payload_text, FieldModel, Transaction, TransactionField};
use crate::types::{strings_view, ConnectionStatus, FileInfo, HotlineEvent};
use crate::wire::u16_at;

verus! {

/// An event as the protocol sees it.
pub enum EventModel {
    ChatMessage { user_id: u16, user_name: Seq<char>, message: Seq<char> },
    ServerMessage(Seq<char>),
    PrivateMessage { user_id: u16, message: Seq<char> },
    UserJoined { user_id: u16, user_name: Seq<char>, icon: u16, flags: u16 },
    UserLeft { user_id: u16 },
    UserChanged { user_id: u16, user_name: Seq<char>, icon: u16, flags: u16 },
    AgreementRequired(Seq<char>),
    FileList { files: Seq<FileModel>, path: Seq<Seq<char>> },
    NewMessageBoardPost(Seq<char>),
    StatusChanged(ConnectionStatus),
}

/// The model of an event.
pub open spec fn event_view(e: HotlineEvent) -> EventModel {
    match e {
        HotlineEvent::ChatMessage { user_id, user_name, message } => EventModel::ChatMessage {
            user_id,
            user_name: user_name@,
            message: message@,
        },
        HotlineEvent::ServerMessage(m) => EventModel::ServerMessage(m@),
        HotlineEvent::PrivateMessage { user_id, message } => EventModel::PrivateMessage {
            user_id,
            message: message@,
        },
        HotlineEvent::UserJoined { user_id, user_name, icon, flags } => EventModel::UserJoined {
            user_id,
            user_name: user_name@,
            icon,
            flags,
        },
        HotlineEvent::UserLeft { user_id } => EventModel::UserLeft { user_id },
        HotlineEvent::UserChanged { user_id, user_name, icon, flags } => EventModel::UserChanged {
            user_id,
            user_name: user_name@,
            icon,
            flags,
        },
        HotlineEvent::AgreementRequired(a) => EventModel::AgreementRequired(a@),
        HotlineEvent::FileList { files, path } => EventModel::FileList {
            files: files@.map_values(|f: FileInfo| file_view(f)),
            path: strings_view(path@),
        },
        HotlineEvent::NewMessageBoardPost(m) => EventModel::NewMessageBoardPost(m@),
        HotlineEvent::StatusChanged(s) => EventModel::StatusChanged(s),
    }
}

/// The models of a list of events.
pub open spec fn events_view(v: Seq<HotlineEvent>) -> Seq<EventModel> {
    v.map_values(|e: HotlineEvent| event_view(e))
}

/// A payload's text, or empty text where it is not valid UTF-8.
pub open spec fn text_or_empty(d: Seq<u8>) -> Seq<char> {
    match payload_text(d) {
        Some(t) => t,
        None => Seq::empty(),
    }
}

/// The text of the first field of the given kind, or empty text.
pub open spec fn field_text(fs: Seq<FieldModel>, kind: FieldType) -> Seq<char> {
    match find_field(fs, kind) {
        Some(f) => text_or_empty(f.data),
        None => Seq::empty(),
    }
}

/// The 16-bit integer of the first field of the given kind, or `dflt`.
pub open spec fn field_u16_or(fs: Seq<FieldModel>, kind: FieldType, dflt: u16) -> u16 {
    match find_field(fs, kind) {
        Some(f) => if f.data.len() == 2 { u16_at(f.data, 0) } else { dflt },
        None => dflt,
    }
}

/// The agreement text of a `ShowAgreement` frame: its `ServerAgreement`
/// field, else its `Data` field, else its first field.
pub open spec fn agreement_text(fs: Seq<FieldModel>) -> Seq<char> {
    match find_field(fs, FieldType::ServerAgreement) {
        Some(f) => text_or_empty(f.data),
        None => match find_field(fs, FieldType::Data) {
            Some(f) => text_or_empty(f.data),
            None => if fs.len() > 0 { text_or_empty(fs[0].data) } else { Seq::empty() },
        },
    }
}

/// The event a server-initiated frame of kind `kind` with these fields gives, if any.
pub open spec fn server_event(kind: TransactionType, fs: Seq<FieldModel>) -> Option<EventModel> {
    if kind == TransactionType::ChatMessage {
        Some(EventModel::ChatMessage {
            user_id: field_u16_or(fs, FieldType::UserId, 0),
            user_name: field_text(fs, FieldType::UserName),
            message: field_text(fs, FieldType::Data),
        })
    } else if kind == TransactionType::ServerMessage {
        match find_field(fs, FieldType::UserId) {
            Some(f) => if f.data.len() == 2 {
                Some(EventModel::PrivateMessage { user_id: u16_at(f.data, 0), message: field_text(fs, FieldType::Data) })
            } else {
                None
            },
            None => Some(EventModel::ServerMessage(field_text(fs, FieldType::Data))),
        }
    } else if kind == TransactionType::NewMessage {
        Some(EventModel::NewMessageBoardPost(field_text(fs, FieldType::Data)))
    } else if kind == TransactionType::ShowAgreement {
        Some(EventModel::AgreementRequired(agreement_text(fs)))
    } else if kind == TransactionType::NotifyUserChange {
        Some(EventModel::UserChanged {
            user_id: field_u16_or(fs, FieldType::UserId, 0),
            user_name: field_text(fs, FieldType::UserName),
            icon: field_u16_or(fs, FieldType::UserIconId, 414),
            flags: field_u16_or(fs, FieldType::UserFlags, 0),
        })
    } else if kind == TransactionType::NotifyUserDelete {
        Some(EventModel::UserLeft { user_id: field_u16_or(fs, FieldType::UserId, 0) })
    } else {
        None
    }
}

/// Whether some field is of the given kind.
pub open spec fn has_code(fs: Seq<FieldModel>, kind: FieldType) -> bool
    decreases fs.len(),
{
    if fs.len() == 0 {
        false
    } else {
        has_code(fs.drop_last(), kind) || fs.last().kind == kind
    }
}

/// Whether a reply carries a user or file listing.
pub open spec fn carries_listing(fs: Seq<FieldModel>) -> bool {
    has_code(fs, FieldType::UserNameWithInfo) || has_code(fs, FieldType::FileNameWithInfo)
}

/// One `UserJoined` per complete `UserNameWithInfo` field, in order.
pub open spec fn joined_events(fs: Seq<FieldModel>) -> Seq<EventModel>
    decreases fs.len(),
{
    if fs.len() == 0 {
        Seq::empty()
    } else {
        let f = fs.last();
        joined_events(fs.drop_last()) + if f.kind == FieldType::UserNameWithInfo {
            match user_entry(f.data) {
                Some(u) => seq![EventModel::UserJoined { user_id: u.user_id, user_name: u.name, icon: u.icon, flags: u.flags }],
                None => Seq::empty(),
            }
        } else {
            Seq::empty()
        }
    }
}

/// The complete `FileNameWithInfo` entries, in order.
pub open spec fn listed_files(fs: Seq<FieldModel>) -> Seq<FileModel>
    decreases fs.len(),
{
    if fs.len() == 0 {
        Seq::empty()
    } else {
        let f = fs.last();
        listed_files(fs.drop_last()) + if f.kind == FieldType::FileNameWithInfo {
            match file_entry(f.data) {
                Some(e) => seq![e],
                None => Seq::empty(),
            }
        } else {
            Seq::empty()
        }
    }
}

/// The events a listing reply fans out to: its users joining, then one file
/// list tagged with `path` when it carries any file field.
pub open spec fn listing_events(fs: Seq<FieldModel>, path: Seq<Seq<char>>) -> Seq<EventModel> {
    joined_events(fs) + if has_code(fs, FieldType::FileNameWithInfo) {
        seq![EventModel::FileList { files: listed_files(fs), path }]
    } else {
        Seq::empty()
    }
}

/// The text of a field's payload, or an empty string.
fn text_or_default(f: &TransactionField) -> (r: String)
    ensures
        r@ == text_or_empty(f.data@),
{
    match f.to_string() {
        Ok(s) => s,
        Err(_) => String::new(),
    }
}

/// The text of the first field of a kind, or an empty string.
pub fn field_string(t: &Transaction, field_type: FieldType) -> (r: String)
    ensures
        r@ == field_text(t@.fields, field_type),
{
    match t.get_field(field_type) {
        Some(f) => text_or_default(f),
        None => String::new(),
    }
}

/// The 16-bit integer of the first field of a kind, or `dflt`.
pub fn field_u16(t: &Transaction, field_type: FieldType, dflt: u16) -> (r: u16)
    ensures
        r == field_u16_or(t@.fields, field_type, dflt),
{
    match t.get_field(field_type) {
        Some(f) => match f.to_u16() {
            Ok(v) => v,
            Err(_) => dflt,
        },
        None => dflt,
    }
}

/// The event a server-initiated frame gives: chat, broadcast or private
/// message, message-board post, agreement, user change or departure. Other
/// kinds give none.
pub fn handle_server_event(t: &Transaction) -> (r: Option<HotlineEvent>)
    ensures
        match r {
            Some(e) => server_event(t@.kind, t@.fields) == Some(event_view(e)),
            None => server_event(t@.kind, t@.fields) is None,
        },
{
    let kind = t.transaction_type;
    if kind == TransactionType::ChatMessage {
        Some(HotlineEvent::ChatMessage {
            user_id: field_u16(t, FieldType::UserId, 0),
            user_name: field_string(t, FieldType::UserName),
            message: field_string(t, FieldType::Data),
        })
    } else if kind == TransactionType::ServerMessage {
        let message = field_string(t, FieldType::Data);
        match t.get_field(FieldType::UserId) {
            Some(f) => match f.to_u16() {
                Ok(user_id) => Some(HotlineEvent::PrivateMessage { user_id, message }),
                Err(_) => None,
            },
            None => Some(HotlineEvent::ServerMessage(message)),
        }
    } else if kind == TransactionType::NewMessage {
        Some(HotlineEvent::NewMessageBoardPost(field_string(t, FieldType::Data)))
    } else if kind == TransactionType::ShowAgreement {
        let agreement = match t.get_field(FieldType::ServerAgreement) {
            Some(f) => text_or_default(f),
            None => match t.get_field(FieldType::Data) {
                Some(f) => text_or_default(f),
                None => if t.fields.len() > 0 {
                    assert(t.fields@[0]@ == t@.fields[0]);
                    text_or_default(&t.fields[0])
                } else {
                    String::new()
                },
            },
        };
        Some(HotlineEvent::AgreementRequired(agreement))
    } else if kind == TransactionType::NotifyUserChange {
        Some(HotlineEvent::UserChanged {
            user_id: field_u16(t, FieldType::UserId, 0),
            user_name: field_string(t, FieldType::UserName),
            icon: field_u16(t, FieldType::UserIconId, 414),
            flags: field_u16(t, FieldType::UserFlags, 0),
        })
    } else if kind == TransactionType::NotifyUserDelete {
        Some(HotlineEvent::UserLeft { user_id: field_u16(t, FieldType::UserId, 0) })
    } else {
        None
    }
}

/// What a reply carrying listings fans out to, as `listing_events` says; the
/// second result tells whether it carried any listing field at all.
pub fn listing_fan_out(t: &Transaction, path: Vec<String>) -> (r: (Vec<HotlineEvent>, bool))
    ensures
        r.1 == carries_listing(t@.fields),
        r.1 ==> events_view(r.0@) == listing_events(t@.fields, strings_view(path@)),
{
    let ghost fs = t@.fields;
    let mut events: Vec<HotlineEvent> = Vec::new();
    let mut files: Vec<FileInfo> = Vec::new();
    let mut has_user = false;
    let mut has_file = false;
    let mut i: usize = 0;
    while i < t.fields.len()
        invariant
            fs == t@.fields,
            i <= fs.len(),
            has_user == has_code(fs.subrange(0, i as int), FieldType::UserNameWithInfo),
            has_file == has_code(fs.subrange(0, i as int), FieldType::FileNameWithInfo),
            events_view(events@) == joined_events(fs.subrange(0, i as int)),
            files@.map_values(|f: FileInfo| file_view(f)) == listed_files(fs.subrange(0, i as int)),
        decreases fs.len() - i,
    {
        let ghost pre = fs.subrange(0, i as int);
        let ghost cur = fs.subrange(0, i + 1);
        assert(cur.drop_last() =~= pre);
        assert(cur.last() == fs[i as int]);
        let field = &t.fields[i];
        assert(field@ == fs[i as int]);
        if field.field_type == FieldType::UserNameWithInfo {
            has_user = true;
            match parse_user_info(field.data.as_slice()) {
                Ok(u) => {
                    let e = HotlineEvent::UserJoined { user_id: u.user_id, user_name: u.name, icon: u.icon, flags: u.flags };
                    assert(events_view(events@.push(e)) =~= events_view(events@).push(event_view(e)));
                    events.push(e);
                    assert(events_view(events@) =~= joined_events(cur));
                },
                Err(_) => {
                    assert(events_view(events@) =~= joined_events(cur));
                },
            }
            assert(files@.map_values(|f: FileInfo| file_view(f)) =~= listed_files(cur));
        } else if field.field_type == FieldType::FileNameWithInfo {
            has_file = true;
            match parse_file_info(field.data.as_slice()) {
                Ok(f) => {
                    assert(files@.push(f).map_values(|f: FileInfo| file_view(f)) =~= files@.map_values(|f: FileInfo| file_view(f)).push(file_view(f)));
                    files.push(f);
                    assert(files@.map_values(|f: FileInfo| file_view(f)) =~= listed_files(cur));
                },
                Err(_) => {
                    assert(files@.map_values(|f: FileInfo| file_view(f)) =~= listed_files(cur));
                },
            }
            assert(events_view(events@) =~= joined_events(cur));
        } else {
            assert(events_view(events@) =~= joined_events(cur));
            assert(files@.map_values(|f: FileInfo| file_view(f)) =~= listed_files(cur));
        }
        i = i + 1;
    }
    assert(fs.subrange(0, i as int) =~= fs);
    if has_file {
        let e = HotlineEvent::FileList { files, path };
        assert(events_view(events@.push(e)) =~= events_view(events@).push(event_view(e)));
        events.push(e);
        assert(events_view(events@) =~= listing_events(fs, strings_view(path@)));
    } else {
        assert(events_view(events@) =~= listing_events(fs, strings_view(path@)));
    }
    (events, has_user || has_file)
}

} // verus!
