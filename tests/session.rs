use hotline::codes::{FieldType, TransactionType};
use hotline::session::{check_handshake_reply, handshake_request, Dispatch, HandshakeError, LoginError, RequestError, Session};
use hotline::transaction::{Transaction, TransactionField};
use hotline::types::{Bookmark, ConnectionStatus, HotlineEvent};

fn bookmark() -> Bookmark {
    Bookmark {
        id: "b1".to_string(),
        name: "Test Server".to_string(),
        address: "127.0.0.1".to_string(),
        port: 5500,
        login: "guest".to_string(),
        password: None,
        icon: None,
        auto_connect: false,
    }
}

fn reply(id: u32) -> Transaction {
    let mut t = Transaction::new(id, TransactionType::Reply);
    t.is_reply = 1;
    t
}

fn file_field(name: &str) -> TransactionField {
    let mut d = b"TEXTttxt".to_vec();
    d.extend_from_slice(&10u32.to_be_bytes());
    d.extend_from_slice(&[0; 6]);
    d.extend_from_slice(&(name.len() as u16).to_be_bytes());
    d.extend_from_slice(name.as_bytes());
    TransactionField::new(FieldType::FileNameWithInfo, d)
}

fn user_field(id: u16, name: &str) -> TransactionField {
    let mut d = id.to_be_bytes().to_vec();
    d.extend_from_slice(&[0, 5, 0, 0]);
    d.extend_from_slice(&(name.len() as u16).to_be_bytes());
    d.extend_from_slice(name.as_bytes());
    TransactionField::new(FieldType::UserNameWithInfo, d)
}

fn logged_in() -> Session {
    let mut s = Session::new(bookmark());
    s.begin_connect().unwrap();
    s.transport_up().unwrap();
    let _ = s.login_request().unwrap();
    s.handle_login_reply(&reply(1)).unwrap();
    s
}

#[test]
fn handshake_wire() {
    assert_eq!(handshake_request(), vec![0x54, 0x52, 0x54, 0x50, 0x48, 0x4F, 0x54, 0x4C, 0x00, 0x01, 0x00, 0x02]);
    assert_eq!(check_handshake_reply(&[0x54, 0x52, 0x54, 0x50, 0, 0, 0, 0]), Ok(()));
    assert_eq!(check_handshake_reply(&[0x54, 0x52, 0x54, 0x50, 0, 0, 0, 3]), Err(HandshakeError::Rejected(3)));
    assert_eq!(check_handshake_reply(&[0x48, 0x54, 0x52, 0x4B, 0, 0, 0, 0]), Err(HandshakeError::BadMagic));
    let mut s = Session::new(bookmark());
    assert_eq!(s.get_status(), ConnectionStatus::Disconnected);
    assert!(matches!(s.begin_connect(), Ok(HotlineEvent::StatusChanged(ConnectionStatus::Connecting))));
    assert!(matches!(s.transport_up(), Ok(HotlineEvent::StatusChanged(ConnectionStatus::Connected))));
    assert_eq!(s.get_status(), ConnectionStatus::Connected);
    assert_eq!(s.begin_connect().err(), Some(RequestError::InvalidState));
}

#[test]
fn login_encode() {
    let mut s = Session::new(bookmark());
    s.set_user_info("guest".to_string(), 414);
    assert!(s.login_request().is_err());
    s.begin_connect().unwrap();
    s.transport_up().unwrap();
    let (out, ev) = s.login_request().unwrap();
    assert!(matches!(ev, HotlineEvent::StatusChanged(ConnectionStatus::LoggingIn)));
    assert_eq!(out.id, 1);
    let t = Transaction::decode(&out.frame).unwrap();
    assert_eq!(t.transaction_type, TransactionType::Login);
    assert_eq!(t.is_reply, 0);
    assert_eq!(t.id, 1);
    assert_eq!(t.error_code, 0);
    let sizes: usize = t.fields.iter().map(|f| 4 + f.data.len()).sum();
    let declared = u32::from_be_bytes([out.frame[16], out.frame[17], out.frame[18], out.frame[19]]) as usize;
    assert_eq!(declared, 2 + sizes);
    assert_eq!(out.frame.len(), 20 + declared);
    let xored: Vec<u8> = "guest".bytes().map(|b| b ^ 0xFF).collect();
    assert_eq!(t.get_field(FieldType::UserLogin).unwrap().data, xored);
    assert!(t.get_field(FieldType::UserPassword).unwrap().data.is_empty());
    assert_eq!(t.get_field(FieldType::UserIconId).unwrap().to_u16(), Ok(414));
    assert_eq!(t.get_field(FieldType::UserName).unwrap().to_string().unwrap(), "guest");
    assert_eq!(t.get_field(FieldType::VersionNumber).unwrap().to_u32(), Ok(123));
    assert_eq!(s.get_status(), ConnectionStatus::LoggingIn);
}

#[test]
fn login_reply_outcomes() {
    let mut s = logged_in();
    assert_eq!(s.get_status(), ConnectionStatus::LoggedIn);
    let info = s.get_server_info().unwrap();
    assert_eq!(info.name, "Test Server");
    assert_eq!(info.version, "Unknown");
    assert_eq!(info.description, "");
    assert!(matches!(s.handle_login_reply(&reply(1)), Err(LoginError::NotLoggingIn)));

    let mut s = Session::new(bookmark());
    s.begin_connect().unwrap();
    s.transport_up().unwrap();
    s.login_request().unwrap();
    let mut r = reply(1);
    r.add_field(TransactionField::from_string(FieldType::ServerName, "Mobius"));
    r.add_field(TransactionField::from_u16(FieldType::VersionNumber, 197));
    r.add_field(TransactionField::from_string(FieldType::Data, "Welcome"));
    r.add_field(TransactionField::new(FieldType::UserAccess, vec![0x80, 0, 0, 0, 0, 0, 0, 0x05]));
    assert_eq!(s.get_user_access(), 0);
    s.handle_login_reply(&r).unwrap();
    assert_eq!(s.get_user_access(), 0x8000_0000_0000_0005);
    let info = s.get_server_info().unwrap();
    assert_eq!(info.name, "Mobius");
    assert_eq!(info.version, "197");
    assert_eq!(info.description, "Welcome");
}

#[test]
fn login_failures() {
    for (code, text, want) in [(2u32, None, "full"), (3, None, "banned"), (1, None, "creds"), (9, None, "code"), (1, Some("Go away"), "text")] {
        let mut s = Session::new(bookmark());
        s.begin_connect().unwrap();
        s.transport_up().unwrap();
        s.login_request().unwrap();
        let mut r = reply(1);
        r.error_code = code;
        if let Some(t) = text {
            r.add_field(TransactionField::from_string(FieldType::ErrorText, t));
        }
        let e = s.handle_login_reply(&r).err().unwrap();
        match (want, e) {
            ("full", LoginError::ServerFull) => {}
            ("banned", LoginError::Banned) => {}
            ("creds", LoginError::InvalidCredentials) => {}
            ("code", LoginError::Code(9)) => {}
            ("text", LoginError::ServerText(t)) => assert_eq!(t, "Go away"),
            (w, other) => panic!("{} gave {:?}", w, other),
        }
        assert_eq!(s.get_status(), ConnectionStatus::Failed);
    }
}

#[test]
fn reply_routing() {
    let mut s = logged_in();
    for _ in 0..3 {
        s.chat_request("hi").unwrap();
    }
    let a = s.message_board_request().unwrap();
    let b = s.banner_request().unwrap();
    assert_eq!((a.id, b.id), (5, 6));
    match s.on_frame(reply(6)) {
        Dispatch::Reply(t) => assert_eq!(t.id, 6),
        other => panic!("{:?}", other),
    }
    match s.on_frame(reply(5)) {
        Dispatch::Reply(t) => assert_eq!(t.id, 5),
        other => panic!("{:?}", other),
    }
    assert!(matches!(s.on_frame(reply(5)), Dispatch::Unclaimed));
}

#[test]
fn file_list_fan_out() {
    let mut s = logged_in();
    for _ in 0..7 {
        s.chat_request("x").unwrap();
    }
    let path = vec!["Uploads".to_string()];
    let out = s.file_list_request(&path).unwrap();
    assert_eq!(out.id, 9);
    let t = Transaction::decode(&out.frame).unwrap();
    assert_eq!(t.transaction_type, TransactionType::GetFileNameList);
    let mut r = reply(9);
    r.add_field(file_field("a.txt"));
    r.add_field(file_field("b.txt"));
    r.add_field(file_field("c.txt"));
    match s.on_frame(r) {
        Dispatch::Events(ev) => {
            assert_eq!(ev.len(), 1);
            match &ev[0] {
                HotlineEvent::FileList { files, path: p } => {
                    assert_eq!(files.len(), 3);
                    assert_eq!(files[1].name, "b.txt");
                    assert_eq!(p, &path);
                }
                other => panic!("{:?}", other),
            }
        }
        other => panic!("{:?}", other),
    }
    let mut again = reply(9);
    again.add_field(file_field("d.txt"));
    match s.on_frame(again) {
        Dispatch::Events(ev) => match &ev[0] {
            HotlineEvent::FileList { path: p, .. } => assert!(p.is_empty()),
            other => panic!("{:?}", other),
        },
        other => panic!("{:?}", other),
    }
    assert!(matches!(s.on_frame(reply(9)), Dispatch::Unclaimed));
}

#[test]
fn listing_reply_keeps_pending_slot() {
    let mut s = logged_in();
    let out = s.message_board_request().unwrap();
    let mut r = reply(out.id);
    r.add_field(user_field(3, "amy"));
    r.add_field(user_field(4, "bob"));
    match s.on_frame(r) {
        Dispatch::Events(ev) => {
            assert_eq!(ev.len(), 2);
            assert!(matches!(&ev[1], HotlineEvent::UserJoined { user_id: 4, icon: 5, .. }));
        }
        other => panic!("{:?}", other),
    }
    assert!(matches!(s.on_frame(reply(out.id)), Dispatch::Reply(_)));
}

#[test]
fn ids_strictly_increase() {
    let mut s = Session::new(bookmark());
    let mut last = 0;
    for _ in 0..20 {
        let o = s.user_list_request().unwrap();
        assert!(o.id > last);
        last = o.id;
    }
    assert_eq!(last, 20);
}

#[test]
fn expiry_and_disconnect_release_slots() {
    let mut s = logged_in();
    let a = s.message_board_request().unwrap();
    s.expire(a.id);
    assert!(matches!(s.on_frame(reply(a.id)), Dispatch::Unclaimed));
    let b = s.banner_request().unwrap();
    let ev = s.disconnect();
    assert!(matches!(ev, HotlineEvent::StatusChanged(ConnectionStatus::Disconnected)));
    assert_eq!(s.get_status(), ConnectionStatus::Disconnected);
    assert!(matches!(s.on_frame(reply(b.id)), Dispatch::Unclaimed));
}

#[test]
fn server_events() {
    let mut s = logged_in();
    let mut chat = Transaction::new(0, TransactionType::ChatMessage);
    chat.add_field(TransactionField::from_u16(FieldType::UserId, 7));
    chat.add_field(TransactionField::from_string(FieldType::Data, "hello all"));
    match s.on_frame(chat) {
        Dispatch::Events(ev) => match &ev[0] {
            HotlineEvent::ChatMessage { user_id, user_name, message } => {
                assert_eq!(*user_id, 7);
                assert_eq!(user_name, "");
                assert_eq!(message, "hello all");
            }
            other => panic!("{:?}", other),
        },
        other => panic!("{:?}", other),
    }
    let mut pm = Transaction::new(0, TransactionType::ServerMessage);
    pm.add_field(TransactionField::from_u16(FieldType::UserId, 3));
    pm.add_field(TransactionField::from_string(FieldType::Data, "psst"));
    assert!(matches!(s.on_frame(pm), Dispatch::Events(ref v) if matches!(&v[0], HotlineEvent::PrivateMessage { user_id: 3, .. })));
    let mut bc = Transaction::new(0, TransactionType::ServerMessage);
    bc.add_field(TransactionField::from_string(FieldType::Data, "shutdown soon"));
    assert!(matches!(s.on_frame(bc), Dispatch::Events(ref v) if matches!(&v[0], HotlineEvent::ServerMessage(m) if m == "shutdown soon")));
    let mut agr = Transaction::new(0, TransactionType::ShowAgreement);
    agr.add_field(TransactionField::from_string(FieldType::Data, "Be nice"));
    assert!(matches!(s.on_frame(agr), Dispatch::Events(ref v) if matches!(&v[0], HotlineEvent::AgreementRequired(a) if a == "Be nice")));
    let mut change = Transaction::new(0, TransactionType::NotifyUserChange);
    change.add_field(TransactionField::from_u16(FieldType::UserId, 9));
    change.add_field(TransactionField::from_string(FieldType::UserName, "zed"));
    assert!(matches!(s.on_frame(change), Dispatch::Events(ref v) if matches!(&v[0], HotlineEvent::UserChanged { user_id: 9, icon: 414, flags: 0, .. })));
    let mut gone = Transaction::new(0, TransactionType::NotifyUserDelete);
    gone.add_field(TransactionField::from_u16(FieldType::UserId, 9));
    assert!(matches!(s.on_frame(gone), Dispatch::Events(ref v) if matches!(&v[0], HotlineEvent::UserLeft { user_id: 9 })));
    let mut post = Transaction::new(0, TransactionType::NewMessage);
    post.add_field(TransactionField::from_string(FieldType::Data, "new post"));
    assert!(matches!(s.on_frame(post), Dispatch::Events(ref v) if matches!(&v[0], HotlineEvent::NewMessageBoardPost(m) if m == "new post")));
    assert!(matches!(s.on_frame(Transaction::new(0, TransactionType::Other(77))), Dispatch::Unclaimed));
}

#[test]
fn request_frames() {
    let mut s = logged_in();
    let o = s.agreement_request().unwrap();
    let t = Transaction::decode(&o.frame).unwrap();
    assert_eq!(t.transaction_type, TransactionType::Agreed);
    assert_eq!(t.get_field(FieldType::UserIconId).unwrap().to_u16(), Ok(191));
    assert_eq!(t.get_field(FieldType::Options).unwrap().to_u16(), Ok(0));
    let o = s.private_message_request(4, "yo").unwrap();
    let t = Transaction::decode(&o.frame).unwrap();
    assert_eq!(t.get_field(FieldType::Options).unwrap().to_u32(), Ok(1));
    let o = s.download_request(&vec!["Docs".to_string()], "a.txt").unwrap();
    let t = Transaction::decode(&o.frame).unwrap();
    assert_eq!(t.transaction_type, TransactionType::DownloadFile);
    assert_eq!(t.fields.len(), 2);
    assert_eq!(t.get_field(FieldType::FilePath).unwrap().data, vec![0, 1, 0, 0, 4, b'D', b'o', b'c', b's']);
    let o = s.upload_request(&Vec::new(), "b.bin").unwrap();
    assert_eq!(Transaction::decode(&o.frame).unwrap().fields.len(), 1);
    let o = s.news_article_data_request(12, &vec!["News".to_string()]).unwrap();
    let t = Transaction::decode(&o.frame).unwrap();
    assert_eq!(t.get_field(FieldType::NewsArticleDataFlavor).unwrap().to_string().unwrap(), "text/plain");
    let o = s.post_news_article_request("T", "body", &vec!["News".to_string()], 0).unwrap();
    assert_eq!(Transaction::decode(&o.frame).unwrap().fields.len(), 6);
    let o = s.disconnect_user_request(5, Some(1)).unwrap();
    assert_eq!(Transaction::decode(&o.frame).unwrap().fields.len(), 2);
    let before = s.user_list_request().unwrap().id;
    assert_eq!(s.news_categories_request(&vec!["z".repeat(256)]).err(), Some(RequestError::PathTooLong));
    assert_eq!(s.user_list_request().unwrap().id, before + 1);
    let big = "q".repeat(70000);
    assert_eq!(s.chat_request(&big).err(), Some(RequestError::TooLarge));
}

#[test]
fn login_error_ignores_data_text() {
    let mut s = Session::new(bookmark());
    s.begin_connect().unwrap();
    s.transport_up().unwrap();
    s.login_request().unwrap();
    let mut r = reply(1);
    r.error_code = 1;
    r.add_field(TransactionField::from_string(FieldType::Data, "some banner text"));
    assert!(matches!(s.handle_login_reply(&r), Err(LoginError::InvalidCredentials)));
    assert!(matches!(s.status_event(), HotlineEvent::StatusChanged(ConnectionStatus::Failed)));
}
