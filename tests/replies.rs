use hotline::codes::{FieldType, TransactionType};
use hotline::replies::{banner_ticket, download_ticket, message_board_posts, news_article_text, news_articles, news_categories, upload_ticket, ReplyError};
use hotline::transaction::{Transaction, TransactionField};

fn reply() -> Transaction {
    let mut t = Transaction::new(4, TransactionType::Reply);
    t.is_reply = 1;
    t
}

#[test]
fn banner_ticket_fields() {
    let mut r = reply();
    r.add_field(TransactionField::from_u32(FieldType::ReferenceNumber, 42));
    r.add_field(TransactionField::from_u32(FieldType::TransferSize, 31337));
    assert_eq!(banner_ticket(&r).unwrap(), (42, 31337));
    let mut r = reply();
    r.add_field(TransactionField::from_u32(FieldType::ReferenceNumber, 42));
    assert!(matches!(banner_ticket(&r), Err(ReplyError::MissingField(FieldType::TransferSize))));
}

#[test]
fn download_ticket_fields() {
    let mut r = reply();
    r.add_field(TransactionField::from_u32(FieldType::ReferenceNumber, 5));
    assert_eq!(download_ticket(&r).unwrap(), (5, None));
    r.add_field(TransactionField::from_u32(FieldType::FileSize, 2_147_483_648));
    assert_eq!(download_ticket(&r).unwrap(), (5, Some(2_147_483_648)));
    assert!(matches!(download_ticket(&reply()), Err(ReplyError::MissingField(FieldType::ReferenceNumber))));
    let mut u = reply();
    u.add_field(TransactionField::from_u32(FieldType::ReferenceNumber, 77));
    assert_eq!(upload_ticket(&u).unwrap(), 77);
}

#[test]
fn server_reported_errors() {
    let mut r = reply();
    r.error_code = 1;
    r.add_field(TransactionField::from_string(FieldType::ErrorText, "No access"));
    match download_ticket(&r) {
        Err(ReplyError::Server { code, text }) => {
            assert_eq!(code, 1);
            assert_eq!(text.as_deref(), Some("No access"));
        }
        other => panic!("{:?}", other),
    }
    let mut r = reply();
    r.error_code = 3;
    assert!(matches!(message_board_posts(&r), Err(ReplyError::Server { code: 3, text: None })));
}

#[test]
fn message_board_and_article_text() {
    let mut r = reply();
    r.add_field(TransactionField::from_string(FieldType::Data, "post one\rpost two"));
    assert_eq!(message_board_posts(&r).unwrap(), vec!["post one\rpost two".to_string()]);
    assert!(message_board_posts(&reply()).unwrap().is_empty());
    let mut a = reply();
    a.add_field(TransactionField::from_string(FieldType::NewsArticleData, "body"));
    assert_eq!(news_article_text(&a).unwrap(), "body");
    assert_eq!(news_article_text(&reply()).unwrap(), "");
}

#[test]
fn news_listings() {
    let mut r = reply();
    r.add_field(TransactionField::new(FieldType::NewsCategoryListData15, vec![0, 2, 0, 1, 2, b'H', b'i']));
    r.add_field(TransactionField::new(FieldType::NewsCategoryListData15, vec![0, 9, 0, 0]));
    let path = vec!["Top".to_string()];
    let v = news_categories(&r, &path).unwrap();
    assert_eq!(v.len(), 1);
    assert_eq!(v[0].name, "Hi");
    assert_eq!(v[0].path, vec!["Top".to_string(), "Hi".to_string()]);
    assert!(news_articles(&reply(), &path).unwrap().is_empty());
    let mut bad = reply();
    bad.add_field(TransactionField::new(FieldType::NewsArticleListData, vec![0, 0]));
    assert!(matches!(news_articles(&bad, &path), Err(ReplyError::Codec(_))));
}
