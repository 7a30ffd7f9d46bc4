//! Binary records carried inside fields: user and file entries, news
//! categories and news article listings.

use vstd::prelude::*;
use crate::text::{mac_roman, mac_roman_decode, string_from_utf8_lossy, utf8_lossy};
use crate::transaction::CodecError;
use crate::types::{strings_view, FileInfo, NewsArticle, NewsCategory, UserInfo};
use crate::wire::{copy_range, read_u16, read_u32, u16_at, u32_at};

verus! {

/// Whether a `UserNameWithInfo` payload holds its 8-byte head and the name it declares.
pub open spec fn user_info_complete(d: Seq<u8>) -> bool {
    d.len() >= 8 && d.len() >= 8 + u16_at(d, 6)
}

/// Whether a `FileNameWithInfo` payload holds its 20-byte head and the name it declares.
pub open spec fn file_info_complete(d: Seq<u8>) -> bool {
    d.len() >= 20 && d.len() >= 20 + u16_at(d, 18)
}

/// The bytes `fldr`, the file type of a folder.
pub open spec fn folder_type() -> Seq<u8> {
    seq![0x66u8, 0x6cu8, 0x64u8, 0x72u8]
}

/// Where the counted name of a news entry of the given kind starts.
pub open spec fn category_name_offset(kind: u16) -> int {
    if kind == 2 { 4 } else { 28 }
}

/// Whether a news category payload is of a known kind and holds its name.
pub open spec fn category_complete(d: Seq<u8>) -> bool {
    let off = category_name_offset(u16_at(d, 0));
    &&& d.len() >= 4
    &&& (u16_at(d, 0) == 2 || u16_at(d, 0) == 3)
    &&& d.len() >= off + 1
    &&& d.len() >= off + 1 + d[off]
}

/// The name a complete news category payload holds, decoded as Mac Roman.
pub open spec fn category_name(d: Seq<u8>) -> Seq<char> {
    let off = category_name_offset(u16_at(d, 0));
    mac_roman(d.subrange(off + 1, off + 1 + d[off])).0
}

/// Copies a slice range.
fn slice_range(d: &[u8], from: usize, to: usize) -> (r: Vec<u8>)
    requires
        from <= to <= d@.len(),
    ensures
        r@ == d@.subrange(from as int, to as int),
{
    copy_range(d, from, to)
}

/// A `UserNameWithInfo` entry as the protocol sees it.
pub struct UserModel {
    pub user_id: u16,
    pub name: Seq<char>,
    pub icon: u16,
    pub flags: u16,
}

/// The model of a parsed user entry.
pub open spec fn user_view(u: UserInfo) -> UserModel {
    UserModel { user_id: u.user_id, name: u.name@, icon: u.icon, flags: u.flags }
}

/// The user entry a `UserNameWithInfo` payload holds, if it is complete.
pub open spec fn user_entry(d: Seq<u8>) -> Option<UserModel> {
    if user_info_complete(d) {
        Some(UserModel {
            user_id: u16_at(d, 0),
            name: utf8_lossy(d.subrange(8, 8 + u16_at(d, 6))),
            icon: u16_at(d, 2),
            flags: u16_at(d, 4),
        })
    } else {
        None
    }
}

/// A `FileNameWithInfo` entry as the protocol sees it.
pub struct FileModel {
    pub name: Seq<char>,
    pub size: u32,
    pub is_folder: bool,
    pub file_type: Seq<char>,
    pub creator: Seq<char>,
}

/// The model of a parsed file entry.
pub open spec fn file_view(f: FileInfo) -> FileModel {
    FileModel { name: f.name@, size: f.size, is_folder: f.is_folder, file_type: f.file_type@, creator: f.creator@ }
}

/// The file entry a `FileNameWithInfo` payload holds, if it is complete.
pub open spec fn file_entry(d: Seq<u8>) -> Option<FileModel> {
    if file_info_complete(d) {
        Some(FileModel {
            name: utf8_lossy(d.subrange(20, 20 + u16_at(d, 18))),
            size: u32_at(d, 8),
            is_folder: d.subrange(0, 4) == folder_type(),
            file_type: utf8_lossy(d.subrange(0, 4)),
            creator: utf8_lossy(d.subrange(4, 8)),
        })
    } else {
        None
    }
}

/// Reads a `UserNameWithInfo` payload: user id, icon id, flags, name length, name.
pub fn parse_user_info(data: &[u8]) -> (r: Result<UserInfo, CodecError>)
    ensures
        match r {
            Ok(u) => user_entry(data@) == Some(user_view(u)),
            Err(e) => user_entry(data@) is None && e == CodecError::MalformedField,
        },
{
    if data.len() < 8 {
        return Err(CodecError::MalformedField);
    }
    let name_len = read_u16(data, 6) as usize;
    if data.len() - 8 < name_len {
        return Err(CodecError::MalformedField);
    }
    let name_bytes = slice_range(data, 8, 8 + name_len);
    Ok(UserInfo {
        user_id: read_u16(data, 0),
        name: string_from_utf8_lossy(name_bytes.as_slice()),
        icon: read_u16(data, 2),
        flags: read_u16(data, 4),
    })
}

/// Reads a `FileNameWithInfo` payload: type code, creator code, size, six
/// reserved bytes, name length, name. A type of `fldr` marks a folder.
pub fn parse_file_info(data: &[u8]) -> (r: Result<FileInfo, CodecError>)
    ensures
        match r {
            Ok(f) => file_entry(data@) == Some(file_view(f)),
            Err(e) => file_entry(data@) is None && e == CodecError::MalformedField,
        },
{
    if data.len() < 20 {
        return Err(CodecError::MalformedField);
    }
    let name_len = read_u16(data, 18) as usize;
    if data.len() - 20 < name_len {
        return Err(CodecError::MalformedField);
    }
    let type_bytes = slice_range(data, 0, 4);
    let creator_bytes = slice_range(data, 4, 8);
    let name_bytes = slice_range(data, 20, 20 + name_len);
    let is_folder = data[0] == 0x66u8 && data[1] == 0x6cu8 && data[2] == 0x64u8 && data[3] == 0x72u8;
    assert(is_folder == (data@.subrange(0, 4) == folder_type())) by {
        if is_folder {
            assert(data@.subrange(0, 4) =~= folder_type());
        } else if data@.subrange(0, 4) == folder_type() {
            assert(data@.subrange(0, 4)[0] == data@[0]);
            assert(data@.subrange(0, 4)[1] == data@[1]);
            assert(data@.subrange(0, 4)[2] == data@[2]);
            assert(data@.subrange(0, 4)[3] == data@[3]);
        }
    }
    Ok(FileInfo {
        name: string_from_utf8_lossy(name_bytes.as_slice()),
        size: read_u32(data, 8),
        is_folder,
        file_type: string_from_utf8_lossy(type_bytes.as_slice()),
        creator: string_from_utf8_lossy(creator_bytes.as_slice()),
    })
}

/// A copy of a list of strings.
pub fn clone_strings(v: &Vec<String>) -> (r: Vec<String>)
    ensures
        strings_view(r@) == strings_view(v@),
{
    let mut r: Vec<String> = Vec::new();
    let mut i: usize = 0;
    while i < v.len()
        invariant
            i <= v@.len(),
            strings_view(r@) == strings_view(v@).subrange(0, i as int),
        decreases v@.len() - i,
    {
        let s = v[i].clone();
        assert(strings_view(r@.push(s)) =~= strings_view(r@).push(s@));
        r.push(s);
        i = i + 1;
        assert(strings_view(r@) =~= strings_view(v@).subrange(0, i as int));
    }
    assert(strings_view(v@).subrange(0, i as int) =~= strings_view(v@));
    r
}

/// Reads a news category payload: kind (2 = bundle, 3 = category), child
/// count, and a counted Mac Roman name at offset 4 for bundles, 28 for
/// categories. The entry's path is the parent's followed by its name.
pub fn parse_news_category(data: &[u8], parent_path: &Vec<String>) -> (r: Result<NewsCategory, CodecError>)
    ensures
        match r {
            Ok(c) => {
                let off = category_name_offset(u16_at(data@, 0));
                &&& category_complete(data@)
                &&& c.category_type == u16_at(data@, 0)
                &&& c.count == u16_at(data@, 2)
                &&& c.name@ == category_name(data@)
                &&& strings_view(c.path@) == strings_view(parent_path@).push(c.name@)
            },
            Err(e) => !category_complete(data@) && e == CodecError::MalformedField,
        },
{
    if data.len() < 4 {
        return Err(CodecError::MalformedField);
    }
    let category_type = read_u16(data, 0);
    let count = read_u16(data, 2);
    let off: usize = if category_type == 2 {
        4
    } else if category_type == 3 {
        28
    } else {
        return Err(CodecError::MalformedField);
    };
    if data.len() < off + 1 {
        return Err(CodecError::MalformedField);
    }
    let name_len = data[off] as usize;
    if data.len() - off - 1 < name_len {
        return Err(CodecError::MalformedField);
    }
    let name_bytes = slice_range(data, off + 1, off + 1 + name_len);
    let (name, _) = mac_roman_decode(name_bytes.as_slice());
    let mut path = clone_strings(parent_path);
    let name_copy = name.clone();
    assert(strings_view(path@.push(name_copy)) =~= strings_view(path@).push(name_copy@));
    path.push(name_copy);
    Ok(NewsCategory { category_type, count, name, path })
}

/// An entry of a news article listing as the protocol sees it.
pub struct ArticleModel {
    pub id: u32,
    pub parent_id: u32,
    pub flags: u32,
    pub title: Seq<char>,
    pub poster: Seq<char>,
}

/// The model of a listed article.
pub open spec fn article_model(a: NewsArticle) -> ArticleModel {
    ArticleModel { id: a.id, parent_id: a.parent_id, flags: a.flags, title: a.title@, poster: a.poster@ }
}

/// Where reading resumes after skipping at most `n` flavor entries (a counted
/// name and a 16-bit size each) from `off`, stopping at one that is cut short.
pub open spec fn skip_flavors(s: Seq<u8>, off: int, n: nat) -> int
    decreases n,
{
    if n == 0 || off >= s.len() {
        off
    } else if off + 1 + s[off] + 2 > s.len() {
        off + 1
    } else {
        skip_flavors(s, off + 1 + s[off] + 2, (n - 1) as nat)
    }
}

/// At most `n` articles read from offset `off` of `s`: id, 8 date bytes,
/// parent id, flags, flavor count, counted title, counted poster, flavors.
/// Reading stops at the first article whose fixed part, title or poster is
/// cut short.
pub open spec fn articles_from(s: Seq<u8>, off: int, n: nat) -> Seq<ArticleModel>
    decreases n,
{
    if n == 0 || off + 20 > s.len() || off + 23 > s.len() {
        Seq::empty()
    } else {
        let o = off + 20;
        let t0 = o + 3;
        let tl = s[o + 2] as int;
        let p = t0 + tl;
        if p > s.len() || p >= s.len() {
            Seq::empty()
        } else {
            let p0 = p + 1;
            let pl = s[p] as int;
            if p0 + pl > s.len() {
                Seq::empty()
            } else {
                let a = ArticleModel {
                    id: u32_at(s, off),
                    parent_id: u32_at(s, off + 12),
                    flags: u32_at(s, off + 16),
                    title: mac_roman(s.subrange(t0, t0 + tl)).0,
                    poster: mac_roman(s.subrange(p0, p0 + pl)).0,
                };
                seq![a] + articles_from(s, skip_flavors(s, p0 + pl, u16_at(s, o) as nat), (n - 1) as nat)
            }
        }
    }
}

/// The articles of a listing: list id, article count, counted list name and
/// description, then the articles; `None` when the 8-byte head is missing.
pub open spec fn article_list(s: Seq<u8>) -> Option<Seq<ArticleModel>> {
    if s.len() < 8 {
        None
    } else if s.len() <= 8 || 9 + s[8] >= s.len() {
        Some(Seq::empty())
    } else {
        let o = 9 + s[8];
        Some(articles_from(s, o + 1 + s[o], u32_at(s, 4) as nat))
    }
}

proof fn lemma_skip_flavors_bounded(s: Seq<u8>, off: int, n: nat)
    requires
        0 <= off <= s.len(),
    ensures
        off <= skip_flavors(s, off, n) <= s.len(),
    decreases n,
{
    if n > 0 && off < s.len() && off + 1 + s[off] + 2 <= s.len() {
        lemma_skip_flavors_bounded(s, off + 1 + s[off] + 2, (n - 1) as nat);
    }
}

/// Skips flavor entries as `skip_flavors` describes.
fn skip_flavor_entries(data: &[u8], off: usize, n: u16) -> (r: usize)
    requires
        off <= data@.len(),
    ensures
        r == skip_flavors(data@, off as int, n as nat),
        r <= data@.len(),
{
    let mut cur = off;
    let mut k: u16 = 0;
    while k < n
        invariant
            off <= cur <= data@.len(),
            k <= n,
            skip_flavors(data@, off as int, n as nat) == skip_flavors(data@, cur as int, (n - k) as nat),
        decreases n - k,
    {
        if cur >= data.len() {
            return cur;
        }
        let fl = data[cur] as usize;
        if data.len() - cur - 1 < fl + 2 {
            return cur + 1;
        }
        cur = cur + 1 + fl + 2;
        k = k + 1;
    }
    cur
}

/// Reads a news article listing. Fails only when the 8-byte head is missing;
/// articles cut short end the listing.
pub fn parse_news_article_list(data: &[u8], parent_path: &Vec<String>) -> (r: Result<Vec<NewsArticle>, CodecError>)
    ensures
        match r {
            Ok(v) => {
                &&& article_list(data@) == Some(v@.map_values(|a: NewsArticle| article_model(a)))
                &&& forall|i: int| 0 <= i < v@.len() ==> (#[trigger] v@[i]).date is None
                    && strings_view(v@[i].path@) == strings_view(parent_path@)
            },
            Err(e) => article_list(data@) is None && e == CodecError::MalformedField,
        },
{
    let mut articles: Vec<NewsArticle> = Vec::new();
    if data.len() < 8 {
        return Err(CodecError::MalformedField);
    }
    let count = read_u32(data, 4);
    if data.len() <= 8 {
        assert(articles@.map_values(|a: NewsArticle| article_model(a)) =~= Seq::<ArticleModel>::empty());
        return Ok(articles);
    }
    let name_len = data[8] as usize;
    if data.len() - 9 <= name_len {
        assert(articles@.map_values(|a: NewsArticle| article_model(a)) =~= Seq::<ArticleModel>::empty());
        return Ok(articles);
    }
    let o = 9 + name_len;
    let desc_len = data[o] as usize;
    if data.len() - o - 1 < desc_len {
        proof {
            if count > 0 {
                assert(articles_from(data@, (o + 1 + desc_len) as int, count as nat) =~= Seq::<ArticleModel>::empty());
            }
        }
        assert(articles@.map_values(|a: NewsArticle| article_model(a)) =~= Seq::<ArticleModel>::empty());
        return Ok(articles);
    }
    let start = o + 1 + desc_len;
    let mut offset = start;
    let mut k: u32 = 0;
    while k < count
        invariant_except_break
            k <= count,
        invariant
            offset <= data@.len(),
            forall|i: int| 0 <= i < articles@.len() ==> (#[trigger] articles@[i]).date is None
                && strings_view(articles@[i].path@) == strings_view(parent_path@),
            articles@.map_values(|a: NewsArticle| article_model(a)) + articles_from(data@, offset as int, (count - k) as nat)
                == articles_from(data@, start as int, count as nat),
        ensures
            articles@.map_values(|a: NewsArticle| article_model(a)) == articles_from(data@, start as int, count as nat),
        decreases count - k,
    {
        let ghost before = articles@.map_values(|a: NewsArticle| article_model(a));
        if data.len() - offset < 23 {
            assert(articles_from(data@, offset as int, (count - k) as nat) =~= Seq::<ArticleModel>::empty());
            assert(before + Seq::<ArticleModel>::empty() =~= before);
            break;
        }
        let id = read_u32(data, offset);
        let parent_id = read_u32(data, offset + 12);
        let flags = read_u32(data, offset + 16);
        let o2 = offset + 20;
        let flavor_count = read_u16(data, o2);
        let title_len = data[o2 + 2] as usize;
        let t0 = o2 + 3;
        if data.len() - t0 <= title_len {
            assert(articles_from(data@, offset as int, (count - k) as nat) =~= Seq::<ArticleModel>::empty());
            assert(before + Seq::<ArticleModel>::empty() =~= before);
            break;
        }
        let p = t0 + title_len;
        let poster_len = data[p] as usize;
        let p0 = p + 1;
        if data.len() - p0 < poster_len {
            assert(articles_from(data@, offset as int, (count - k) as nat) =~= Seq::<ArticleModel>::empty());
            assert(before + Seq::<ArticleModel>::empty() =~= before);
            break;
        }
        let title_bytes = slice_range(data, t0, p);
        let poster_bytes = slice_range(data, p0, p0 + poster_len);
        let (title, _) = mac_roman_decode(title_bytes.as_slice());
        let (poster, _) = mac_roman_decode(poster_bytes.as_slice());
        let next = skip_flavor_entries(data, p0 + poster_len, flavor_count);
        let article = NewsArticle {
            id,
            parent_id,
            flags,
            title,
            poster,
            date: None,
            path: clone_strings(parent_path),
        };
        proof {
            let a = article_model(article);
            assert(articles_from(data@, offset as int, (count - k) as nat) == seq![a] + articles_from(data@, next as int, (count - k - 1) as nat));
            assert(articles@.push(article).map_values(|a: NewsArticle| article_model(a)) =~= before.push(a));
            assert(before.push(a) + articles_from(data@, next as int, (count - k - 1) as nat) =~= before + (seq![a] + articles_from(data@, next as int, (count - k - 1) as nat)));
        }
        articles.push(article);
        offset = next;
        k = k + 1;
    }
    proof {
        let m = articles@.map_values(|a: NewsArticle| article_model(a));
        assert(data@[8] as usize == name_len);
        assert(data@[o as int] as usize == desc_len);
        assert(article_list(data@) == Some(articles_from(data@, start as int, count as nat)));
    }
    Ok(articles)
}

} // verus!
