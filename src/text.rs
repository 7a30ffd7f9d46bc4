//! Text conversions between bytes and strings.

use vstd::prelude::*;
use vstd::utf8::{decode_utf8, encode_utf8, valid_utf8};

verus! {

/// What `String::from_utf8_lossy` makes of a byte sequence.
pub uninterp spec fn utf8_lossy(b: Seq<u8>) -> Seq<char>;

/// What `encoding_rs::MACINTOSH.decode` makes of a byte sequence: the text, and
/// whether a malformed sequence was replaced.
pub uninterp spec fn mac_roman(b: Seq<u8>) -> (Seq<char>, bool);

/// Decimal digits of `n`, most significant first, without leading zeros.
pub open spec fn decimal(n: nat) -> Seq<char>
    decreases n,
{
    if n < 10 {
        seq![digit_char(n)]
    } else {
        decimal(n / 10) + seq![digit_char(n % 10)]
    }
}

/// The ASCII digit for `d < 10`.
pub open spec fn digit_char(d: nat) -> char {
    if d == 0 { '0' }
    else if d == 1 { '1' }
    else if d == 2 { '2' }
    else if d == 3 { '3' }
    else if d == 4 { '4' }
    else if d == 5 { '5' }
    else if d == 6 { '6' }
    else if d == 7 { '7' }
    else if d == 8 { '8' }
    else { '9' }
}

/// Relies on `String::from_utf8`: it succeeds exactly on valid UTF-8, and the
/// string then holds the characters that the bytes encode.
#[verifier::external_body]
pub(crate) fn string_from_utf8(b: Vec<u8>) -> (r: Option<String>)
    ensures
        r is Some <==> valid_utf8(b@),
        r matches Some(s) ==> s@ == decode_utf8(b@),
{
    String::from_utf8(b).ok()
}

/// Relies on `String::from_utf8_lossy`: valid UTF-8 is decoded unchanged, and
/// anything else gets replacement characters by a rule of the bytes alone.
#[verifier::external_body]
pub(crate) fn string_from_utf8_lossy(b: &[u8]) -> (r: String)
    ensures
        r@ == utf8_lossy(b@),
        valid_utf8(b@) ==> r@ == decode_utf8(b@),
{
    String::from_utf8_lossy(b).into_owned()
}

/// Relies on `encoding_rs::MACINTOSH.decode`: decodes Mac Roman (or UTF-8 after
/// a UTF-8 byte-order mark) and reports whether a malformed sequence was
/// replaced, by a rule of the bytes alone.
#[verifier::external_body]
pub(crate) fn mac_roman_decode(b: &[u8]) -> (r: (String, bool))
    ensures
        (r.0@, r.1) == mac_roman(b@),
{
    let (text, _, had_errors) = encoding_rs::MACINTOSH.decode(b);
    (text.into_owned(), had_errors)
}

/// Encoding two texts one after the other encodes each in turn.
pub(crate) proof fn lemma_encode_concat(a: Seq<char>, b: Seq<char>)
    ensures
        encode_utf8(a + b) == encode_utf8(a) + encode_utf8(b),
    decreases a.len(),
{
    if a.len() == 0 {
        assert(a + b =~= b);
    } else {
        lemma_encode_concat(a.drop_first(), b);
        assert((a + b).drop_first() =~= a.drop_first() + b);
        assert((a + b)[0] == a[0]);
    }
}

/// A decimal digit is encoded as its ASCII byte.
proof fn lemma_digit_encoding(d: nat)
    requires
        d < 10,
    ensures
        encode_utf8(seq![digit_char(d)]) == seq![(48 + d) as u8],
{
    let c = digit_char(d);
    let v = c as u32;
    assert(v == 48 + d);
    assert(v & 0x7fu32 == v) by (bit_vector)
        requires
            v < 128,
    ;
    let cs = seq![c];
    assert(cs.drop_first() =~= Seq::<char>::empty());
    assert(encode_utf8(cs.drop_first()) =~= Seq::<u8>::empty());
    assert(cs[0] as u32 == v);
    assert(vstd::utf8::has_width_1_encoding(v));
    assert(vstd::utf8::encode_scalar(v) == seq![vstd::utf8::leading_byte_width_1(v)]);
    assert(vstd::utf8::leading_byte_width_1(v) == (48 + d) as u8);
    assert(encode_utf8(cs) == vstd::utf8::encode_scalar(v) + encode_utf8(cs.drop_first()));
    assert(encode_utf8(cs) =~= seq![(48 + d) as u8]);
}

/// The full stop is encoded as its ASCII byte.
pub(crate) proof fn lemma_dot_encoding()
    ensures
        encode_utf8(seq!['.']) == seq![0x2eu8],
{
    let cs = seq!['.'];
    let v = '.' as u32;
    assert(v == 0x2e);
    assert(v & 0x7fu32 == v) by (bit_vector)
        requires
            v < 128,
    ;
    assert(cs.drop_first() =~= Seq::<char>::empty());
    assert(encode_utf8(cs.drop_first()) =~= Seq::<u8>::empty());
    assert(cs[0] as u32 == v);
    assert(vstd::utf8::encode_scalar(v) == seq![vstd::utf8::leading_byte_width_1(v)]);
    assert(encode_utf8(cs) == vstd::utf8::encode_scalar(v) + encode_utf8(cs.drop_first()));
    assert(encode_utf8(cs) =~= seq![0x2eu8]);
}

/// Appends the decimal digits of `n` as ASCII.
pub(crate) fn push_decimal(buf: &mut Vec<u8>, n: u16)
    ensures
        final(buf)@ == old(buf)@ + encode_utf8(decimal(n as nat)),
    decreases n,
{
    if n >= 10 {
        push_decimal(buf, n / 10);
    }
    let d = (n % 10) as u8;
    buf.push(48u8 + d);
    proof {
        lemma_digit_encoding(d as nat);
        if n >= 10 {
            lemma_encode_concat(decimal((n / 10) as nat), seq![digit_char((n % 10) as nat)]);
            assert(final(buf)@ =~= old(buf)@ + encode_utf8(decimal(n as nat)));
        } else {
            assert(final(buf)@ =~= old(buf)@ + encode_utf8(decimal(n as nat)));
        }
    }
}

/// The decimal digits of `v`.
pub(crate) fn u16_to_decimal(v: u16) -> (r: String)
    ensures
        r@ == decimal(v as nat),
{
    let mut b: Vec<u8> = Vec::new();
    push_decimal(&mut b, v);
    proof {
        assert(b@ =~= encode_utf8(decimal(v as nat)));
        vstd::utf8::encode_utf8_valid_utf8(decimal(v as nat));
        vstd::utf8::encode_utf8_decode_utf8(decimal(v as nat));
    }
    match string_from_utf8(b) {
        Some(s) => s,
        None => String::new(),
    }
}

/// The UTF-8 bytes of `s`.
pub fn str_bytes(s: &str) -> (r: Vec<u8>)
    ensures
        r@ == encode_utf8(s@),
{
    let b = s.as_bytes();
    let mut r: Vec<u8> = Vec::new();
    crate::wire::push_all(&mut r, b);
    assert(r@ == encode_utf8(s@));
    r
}

/// A string of the decoded text, else of the bytes read as UTF-8 with
/// replacement characters; the rule used for tracker names.
pub fn mac_roman_or_lossy(b: &[u8]) -> (r: String)
    ensures
        r@ == (if mac_roman(b@).1 { utf8_lossy(b@) } else { mac_roman(b@).0 }),
{
    let (text, had_errors) = mac_roman_decode(b);
    if had_errors {
        string_from_utf8_lossy(b)
    } else {
        text
    }
}

} // verus!
