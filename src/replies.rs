//! What the replies to requests mean: server-reported errors, transfer
//! tickets, news listings and the message board.

use vstd::prelude::*;
use crate::codes::FieldType;
use crate::events::field_text;
use crate::records::{category_complete, category_name, parse_news_article_list, parse_news_category, article_list, article_model};
use crate::session::valid_text;
use crate::transaction::{find_field, CodecError, FieldModel, Transaction};
use crate::types::{strings_view, NewsArticle, NewsCategory};
use crate::wire::u32_at;

verus! {

/// Why a reply did not give what the request asked for.
#[derive(Debug, Clone)]
pub enum ReplyError {
    /// The server reported an error code, with its text when it sent one.
    Server { code: u32, text: Option<String> },
    /// A field the reply must carry is missing or malformed.
    MissingField(FieldType),
    /// A field's payload could not be read.
    Codec(CodecError),
}

/// Whether `e` is the error a reply with nonzero `code` reports.
pub open spec fn server_error_matches(e: ReplyError, code: u32, fs: Seq<FieldModel>) -> bool {
    e matches ReplyError::Server { code: c, text } && c == code && match valid_text(fs, FieldType::ErrorText) {
        Some(t) => text matches Some(s) && s@ == t,
        None => text is None,
    }
}

/// The 32-bit integer of the first field with `code`, where it is four bytes.
pub open spec fn field_u32(fs: Seq<FieldModel>, kind: FieldType) -> Option<u32> {
    match find_field(fs, kind) {
        Some(f) => if f.data.len() == 4 { Some(u32_at(f.data, 0)) } else { None },
        None => None,
    }
}

/// The server's error, when the reply reports one.
pub fn check_reply(reply: &Transaction) -> (r: Result<(), ReplyError>)
    ensures
        reply@.error_code == 0 <==> r is Ok,
        r matches Err(e) ==> server_error_matches(e, reply@.error_code, reply@.fields),
{
    if reply.error_code == 0 {
        return Ok(());
    }
    let text = match reply.get_field(FieldType::ErrorText) {
        Some(f) => match f.to_string() {
            Ok(s) => Some(s),
            Err(_) => None,
        },
        None => None,
    };
    Err(ReplyError::Server { code: reply.error_code, text })
}

/// The 32-bit integer of the first field of a kind.
fn u32_field(reply: &Transaction, field_type: FieldType) -> (r: Option<u32>)
    ensures
        r == field_u32(reply@.fields, field_type),
{
    match reply.get_field(field_type) {
        Some(f) => match f.to_u32() {
            Ok(v) => Some(v),
            Err(_) => None,
        },
        None => None,
    }
}

/// The ticket of a download: its reference number, and the file size when the
/// server sent one.
pub fn download_ticket(reply: &Transaction) -> (r: Result<(u32, Option<u32>), ReplyError>)
    ensures
        reply@.error_code != 0 ==> (r matches Err(e) && server_error_matches(e, reply@.error_code, reply@.fields)),
        reply@.error_code == 0 ==> match field_u32(reply@.fields, FieldType::ReferenceNumber) {
            Some(reference) => r matches Ok(t) && t == (reference, field_u32(reply@.fields, FieldType::FileSize)),
            None => r matches Err(ReplyError::MissingField(FieldType::ReferenceNumber)),
        },
{
    check_reply(reply)?;
    let reference = match u32_field(reply, FieldType::ReferenceNumber) {
        Some(v) => v,
        None => return Err(ReplyError::MissingField(FieldType::ReferenceNumber)),
    };
    Ok((reference, u32_field(reply, FieldType::FileSize)))
}

/// The ticket of a banner: its reference number and transfer size, both required.
pub fn banner_ticket(reply: &Transaction) -> (r: Result<(u32, u32), ReplyError>)
    ensures
        reply@.error_code != 0 ==> (r matches Err(e) && server_error_matches(e, reply@.error_code, reply@.fields)),
        reply@.error_code == 0 ==> match (field_u32(reply@.fields, FieldType::ReferenceNumber), field_u32(reply@.fields, FieldType::TransferSize)) {
            (Some(reference), Some(size)) => r matches Ok(t) && t == (reference, size),
            (None, _) => r matches Err(ReplyError::MissingField(FieldType::ReferenceNumber)),
            (Some(_), None) => r matches Err(ReplyError::MissingField(FieldType::TransferSize)),
        },
{
    check_reply(reply)?;
    let reference = match u32_field(reply, FieldType::ReferenceNumber) {
        Some(v) => v,
        None => return Err(ReplyError::MissingField(FieldType::ReferenceNumber)),
    };
    let size = match u32_field(reply, FieldType::TransferSize) {
        Some(v) => v,
        None => return Err(ReplyError::MissingField(FieldType::TransferSize)),
    };
    Ok((reference, size))
}

/// The ticket of an upload: its reference number.
pub fn upload_ticket(reply: &Transaction) -> (r: Result<u32, ReplyError>)
    ensures
        reply@.error_code != 0 ==> (r matches Err(e) && server_error_matches(e, reply@.error_code, reply@.fields)),
        reply@.error_code == 0 ==> match field_u32(reply@.fields, FieldType::ReferenceNumber) {
            Some(reference) => r == Ok::<u32, ReplyError>(reference),
            None => r matches Err(ReplyError::MissingField(FieldType::ReferenceNumber)),
        },
{
    check_reply(reply)?;
    match u32_field(reply, FieldType::ReferenceNumber) {
        Some(v) => Ok(v),
        None => Err(ReplyError::MissingField(FieldType::ReferenceNumber)),
    }
}

/// The posts of the message board: its `Data` text as one post, or none when
/// that text is empty.
pub fn message_board_posts(reply: &Transaction) -> (r: Result<Vec<String>, ReplyError>)
    ensures
        reply@.error_code != 0 ==> (r matches Err(e) && server_error_matches(e, reply@.error_code, reply@.fields)),
        reply@.error_code == 0 ==> (r matches Ok(v) && strings_view(v@) == if field_text(reply@.fields, FieldType::Data).len() == 0 {
            Seq::<Seq<char>>::empty()
        } else {
            seq![field_text(reply@.fields, FieldType::Data)]
        }),
{
    check_reply(reply)?;
    let text = crate::events::field_string(reply, FieldType::Data);
    let mut posts: Vec<String> = Vec::new();
    if !text.as_str().is_empty() {
        posts.push(text);
    }
    assert(strings_view(posts@) =~= if field_text(reply@.fields, FieldType::Data).len() == 0 {
        Seq::<Seq<char>>::empty()
    } else {
        seq![field_text(reply@.fields, FieldType::Data)]
    });
    Ok(posts)
}

/// The text of an article: its `NewsArticleData`, or empty text.
pub fn news_article_text(reply: &Transaction) -> (r: Result<String, ReplyError>)
    ensures
        reply@.error_code != 0 ==> (r matches Err(e) && server_error_matches(e, reply@.error_code, reply@.fields)),
        reply@.error_code == 0 ==> (r matches Ok(s) && s@ == field_text(reply@.fields, FieldType::NewsArticleData)),
{
    check_reply(reply)?;
    Ok(crate::events::field_string(reply, FieldType::NewsArticleData))
}

/// The news entries among these fields: every complete
/// `NewsCategoryListData15` field, in order.
pub open spec fn category_fields(fs: Seq<FieldModel>) -> Seq<Seq<u8>>
    decreases fs.len(),
{
    if fs.len() == 0 {
        Seq::empty()
    } else {
        category_fields(fs.drop_last()) + if fs.last().kind == FieldType::NewsCategoryListData15 && category_complete(fs.last().data) {
            seq![fs.last().data]
        } else {
            Seq::empty()
        }
    }
}

/// The news categories and bundles under `path`: one per complete
/// `NewsCategoryListData15` field, in order, each with its path below `path`.
pub fn news_categories(reply: &Transaction, path: &Vec<String>) -> (r: Result<Vec<NewsCategory>, ReplyError>)
    ensures
        reply@.error_code != 0 ==> (r matches Err(e) && server_error_matches(e, reply@.error_code, reply@.fields)),
        reply@.error_code == 0 ==> (r matches Ok(v) && v@.len() == category_fields(reply@.fields).len() && forall|i: int|
            0 <= i < v@.len() ==> (#[trigger] v@[i]).category_type == crate::wire::u16_at(category_fields(reply@.fields)[i], 0)
                && v@[i].name@ == category_name(category_fields(reply@.fields)[i])
                && v@[i].count == crate::wire::u16_at(category_fields(reply@.fields)[i], 2)
                && strings_view(v@[i].path@) == strings_view(path@).push(v@[i].name@)),
{
    check_reply(reply)?;
    let ghost fs = reply@.fields;
    let mut out: Vec<NewsCategory> = Vec::new();
    let mut i: usize = 0;
    while i < reply.fields.len()
        invariant
            fs == reply@.fields,
            i <= fs.len(),
            out@.len() == category_fields(fs.subrange(0, i as int)).len(),
            forall|j: int| 0 <= j < out@.len() ==> (#[trigger] out@[j]).category_type == crate::wire::u16_at(category_fields(fs.subrange(0, i as int))[j], 0)
                && out@[j].name@ == category_name(category_fields(fs.subrange(0, i as int))[j])
                && out@[j].count == crate::wire::u16_at(category_fields(fs.subrange(0, i as int))[j], 2)
                && strings_view(out@[j].path@) == strings_view(path@).push(out@[j].name@),
        decreases fs.len() - i,
    {
        let ghost pre = fs.subrange(0, i as int);
        let ghost cur = fs.subrange(0, i + 1);
        assert(cur.drop_last() =~= pre);
        assert(cur.last() == fs[i as int]);
        let f = &reply.fields[i];
        assert(f@ == fs[i as int]);
        if f.field_type == FieldType::NewsCategoryListData15 {
            match parse_news_category(f.data.as_slice(), path) {
                Ok(c) => {
                    assert(category_fields(cur) =~= category_fields(pre).push(f.data@));
                    out.push(c);
                },
                Err(_) => {
                    assert(category_fields(cur) =~= category_fields(pre));
                },
            }
        } else {
            assert(category_fields(cur) =~= category_fields(pre));
        }
        i = i + 1;
    }
    assert(fs.subrange(0, i as int) =~= fs);
    Ok(out)
}

/// The articles of a listing reply: those of its `NewsArticleListData` field,
/// or none without one.
pub fn news_articles(reply: &Transaction, path: &Vec<String>) -> (r: Result<Vec<NewsArticle>, ReplyError>)
    ensures
        reply@.error_code != 0 ==> (r matches Err(e) && server_error_matches(e, reply@.error_code, reply@.fields)),
        reply@.error_code == 0 ==> match find_field(reply@.fields, FieldType::NewsArticleListData) {
            Some(f) => match article_list(f.data) {
                Some(list) => r matches Ok(v) && v@.map_values(|a: NewsArticle| article_model(a)) == list,
                None => r matches Err(ReplyError::Codec(CodecError::MalformedField)),
            },
            None => r matches Ok(v) && v@.len() == 0,
        },
{
    check_reply(reply)?;
    match reply.get_field(FieldType::NewsArticleListData) {
        Some(f) => match parse_news_article_list(f.data.as_slice(), path) {
            Ok(v) => Ok(v),
            Err(e) => Err(ReplyError::Codec(e)),
        },
        None => Ok(Vec::new()),
    }
}

} // verus!
