use hotline::records::{parse_file_info, parse_news_article_list, parse_news_category, parse_user_info};
use hotline::transaction::CodecError;

fn file_entry(kind: &[u8; 4], size: u32, name: &[u8]) -> Vec<u8> {
    let mut d = kind.to_vec();
    d.extend_from_slice(b"HTLC");
    d.extend_from_slice(&size.to_be_bytes());
    d.extend_from_slice(&[0; 6]);
    d.extend_from_slice(&(name.len() as u16).to_be_bytes());
    d.extend_from_slice(name);
    d
}

#[test]
fn user_entry() {
    let d = [0, 12, 0x01, 0x9E, 0, 2, 0, 4, b'j', b'o', b'h', b'n'];
    let u = parse_user_info(&d).unwrap();
    assert_eq!(u.user_id, 12);
    assert_eq!(u.icon, 414);
    assert_eq!(u.flags, 2);
    assert_eq!(u.name, "john");
    assert_eq!(parse_user_info(&d[..7]).err(), Some(CodecError::MalformedField));
    assert_eq!(parse_user_info(&d[..11]).err(), Some(CodecError::MalformedField));
}

#[test]
fn file_entry_and_folder() {
    let f = parse_file_info(&file_entry(b"TEXT", 1234, b"readme")).unwrap();
    assert_eq!(f.name, "readme");
    assert_eq!(f.size, 1234);
    assert!(!f.is_folder);
    assert_eq!(f.file_type, "TEXT");
    assert_eq!(f.creator, "HTLC");
    let g = parse_file_info(&file_entry(b"fldr", 3, b"Uploads")).unwrap();
    assert!(g.is_folder);
}

#[test]
fn file_name_longer_than_payload() {
    let mut d = file_entry(b"TEXT", 1, b"abc");
    d[19] = 50;
    assert_eq!(parse_file_info(&d).err(), Some(CodecError::MalformedField));
    assert_eq!(parse_file_info(&d[..19]).err(), Some(CodecError::MalformedField));
}

#[test]
fn news_bundle_and_category() {
    let parent = vec!["News".to_string()];
    let bundle = [0, 2, 0, 5, 3, b'A', b'b', b'c'];
    let c = parse_news_category(&bundle, &parent).unwrap();
    assert_eq!(c.category_type, 2);
    assert_eq!(c.count, 5);
    assert_eq!(c.name, "Abc");
    assert_eq!(c.path, vec!["News".to_string(), "Abc".to_string()]);
    let mut cat = vec![0u8, 3, 0, 1];
    cat.extend_from_slice(&[0; 24]);
    cat.extend_from_slice(&[2, 0x8E, b'x']);
    let c = parse_news_category(&cat, &parent).unwrap();
    assert_eq!(c.category_type, 3);
    assert_eq!(c.name, "éx");
    assert_eq!(parse_news_category(&[0, 7, 0, 0, 0], &parent).err(), Some(CodecError::MalformedField));
    assert_eq!(parse_news_category(&[0, 2, 0, 0, 4, b'a'], &parent).err(), Some(CodecError::MalformedField));
}

fn article(id: u32, parent: u32, title: &[u8], poster: &[u8], flavors: &[(&[u8], u16)]) -> Vec<u8> {
    let mut d = id.to_be_bytes().to_vec();
    d.extend_from_slice(&[0; 8]);
    d.extend_from_slice(&parent.to_be_bytes());
    d.extend_from_slice(&0u32.to_be_bytes());
    d.extend_from_slice(&(flavors.len() as u16).to_be_bytes());
    d.push(title.len() as u8);
    d.extend_from_slice(title);
    d.push(poster.len() as u8);
    d.extend_from_slice(poster);
    for (name, size) in flavors {
        d.push(name.len() as u8);
        d.extend_from_slice(name);
        d.extend_from_slice(&size.to_be_bytes());
    }
    d
}

#[test]
fn news_article_listing() {
    let mut d = vec![0, 0, 0, 1, 0, 0, 0, 2, 4, b'L', b'i', b's', b't', 0];
    d.extend(article(10, 0, b"Hello", b"bob", &[(b"text/plain", 12)]));
    d.extend(article(11, 10, b"Re: Hello", b"amy", &[]));
    let path = vec!["General".to_string()];
    let v = parse_news_article_list(&d, &path).unwrap();
    assert_eq!(v.len(), 2);
    assert_eq!(v[0].id, 10);
    assert_eq!(v[0].title, "Hello");
    assert_eq!(v[0].poster, "bob");
    assert_eq!(v[1].id, 11);
    assert_eq!(v[1].parent_id, 10);
    assert_eq!(v[1].title, "Re: Hello");
    assert_eq!(v[1].path, path);
    assert!(v[1].date.is_none());
    assert_eq!(parse_news_article_list(&d[..7], &path).err(), Some(CodecError::MalformedField));
    let cut = &d[..d.len() - 3];
    assert_eq!(parse_news_article_list(cut, &path).unwrap().len(), 1);
}
