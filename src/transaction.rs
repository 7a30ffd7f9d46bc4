//! Transaction frames: a 20-byte header followed by a counted block of typed
//! fields, and the typed accessors on a field's payload.

use vstd::prelude::*;
use vstd::utf8::{decode_utf8, encode_utf8, encode_utf8_decode_utf8, encode_utf8_valid_utf8, valid_utf8};
use crate::codes::{canonical_field, canonical_transaction, field_code, field_type_of, transaction_code, transaction_type_of, FieldType, TransactionType};
use crate::text::string_from_utf8;
use crate::wire::{be16, be32, copy_range, lemma_u16_round_trip, lemma_u32_round_trip, push_all, push_u16, push_u32, read_u16, read_u32, u16_at, u32_at};

verus! {

/// Length of the fixed transaction header.
pub const TRANSACTION_HEADER_SIZE: usize = 20;

/// The largest payload a field can carry: its length travels in 16 bits.
pub const MAX_FIELD_LEN: usize = 65535;

/// What a codec operation can fail with.
#[derive(Clone, Copy, Debug, PartialEq, Eq, Structural)]
pub enum CodecError {
    /// Fewer bytes than a transaction header.
    FrameTooShort,
    /// A field whose payload does not have the shape its accessor needs.
    MalformedField,
    /// A text payload that is not valid UTF-8.
    InvalidText,
    /// A path segment longer than 255 bytes, or more than 65535 segments.
    PathTooLong,
}

/// A field as the protocol sees it: its kind and its payload.
pub struct FieldModel {
    pub kind: FieldType,
    pub data: Seq<u8>,
}

/// A transaction as the protocol sees it.
pub struct TransactionModel {
    pub flags: u8,
    pub is_reply: u8,
    pub kind: TransactionType,
    pub id: u32,
    pub error_code: u32,
    pub fields: Seq<FieldModel>,
}

/// A typed, length-prefixed payload within a transaction.
#[derive(Debug, Clone)]
pub struct TransactionField {
    pub field_type: FieldType,
    pub data: Vec<u8>,
}

impl View for TransactionField {
    type V = FieldModel;

    open spec fn view(&self) -> FieldModel {
        FieldModel { kind: self.field_type, data: self.data@ }
    }
}

/// A single message frame on the control channel.
#[derive(Debug, Clone)]
pub struct Transaction {
    pub flags: u8,
    pub is_reply: u8,
    pub transaction_type: TransactionType,
    pub id: u32,
    pub error_code: u32,
    pub fields: Vec<TransactionField>,
}

/// The models of a sequence of fields.
pub open spec fn field_models(fs: Seq<TransactionField>) -> Seq<FieldModel> {
    fs.map_values(|f: TransactionField| f@)
}

impl View for Transaction {
    type V = TransactionModel;

    open spec fn view(&self) -> TransactionModel {
        TransactionModel {
            flags: self.flags,
            is_reply: self.is_reply,
            kind: self.transaction_type,
            id: self.id,
            error_code: self.error_code,
            fields: field_models(self.fields@),
        }
    }
}

/// The bytes of one field: type, length, payload.
pub open spec fn field_wire(f: FieldModel) -> Seq<u8> {
    be16(field_code(f.kind)) + be16(f.data.len() as u16) + f.data
}

/// The bytes of a sequence of fields, one after another.
pub open spec fn fields_wire(fs: Seq<FieldModel>) -> Seq<u8>
    decreases fs.len(),
{
    if fs.len() == 0 {
        Seq::empty()
    } else {
        field_wire(fs[0]) + fields_wire(fs.drop_first())
    }
}

/// `Σ (4 + payload length)` over the fields.
pub open spec fn fields_size(fs: Seq<FieldModel>) -> nat
    decreases fs.len(),
{
    if fs.len() == 0 {
        0
    } else {
        4 + fs[0].data.len() + fields_size(fs.drop_first())
    }
}

/// The field block's length: the count, then every field.
pub open spec fn data_size(t: TransactionModel) -> nat {
    2 + fields_size(t.fields)
}

/// A transaction that the wire format can carry: at most 65535 fields, each
/// payload at most 65535 bytes, and a field block whose size fits in 32 bits.
pub open spec fn encodable(t: TransactionModel) -> bool {
    &&& t.fields.len() <= 65535
    &&& forall|i: int| 0 <= i < t.fields.len() ==> #[trigger] t.fields[i].data.len() <= 65535
    &&& data_size(t) <= u32::MAX
}

/// A transaction whose kind and field kinds are the values their wire codes
/// decode to.
pub open spec fn canonical(t: TransactionModel) -> bool {
    &&& canonical_transaction(t.kind)
    &&& forall|i: int| 0 <= i < t.fields.len() ==> canonical_field(#[trigger] t.fields[i].kind)
}

/// The frame of a transaction: header, field count, fields.
pub open spec fn frame(t: TransactionModel) -> Seq<u8> {
    seq![t.flags, t.is_reply] + be16(transaction_code(t.kind)) + be32(t.id) + be32(t.error_code) + be32(
        data_size(t) as u32,
    ) + be32(data_size(t) as u32) + be16(t.fields.len() as u16) + fields_wire(t.fields)
}

/// Fields read from `s`, at most `count` of them, stopping at the first one
/// that is cut short.
pub open spec fn parse_fields(s: Seq<u8>, count: nat) -> Seq<FieldModel>
    decreases count,
{
    if count == 0 || s.len() < 4 {
        Seq::empty()
    } else {
        let len = u16_at(s, 2) as int;
        if 4 + len > s.len() {
            Seq::empty()
        } else {
            seq![FieldModel { kind: field_type_of(u16_at(s, 0)), data: s.subrange(4, 4 + len) }] + parse_fields(
                s.subrange(4 + len, s.len() as int),
                (count - 1) as nat,
            )
        }
    }
}

/// The transaction that a frame of at least 20 bytes decodes to.
pub open spec fn decoded(s: Seq<u8>) -> TransactionModel {
    TransactionModel {
        flags: s[0],
        is_reply: s[1],
        kind: transaction_type_of(u16_at(s, 2)),
        id: u32_at(s, 4),
        error_code: u32_at(s, 8),
        fields: if u32_at(s, 16) > 0 && s.len() >= 22 {
            parse_fields(s.subrange(22, s.len() as int), u16_at(s, 20) as nat)
        } else {
            Seq::empty()
        },
    }
}

/// The first field with wire code `code`.
pub open spec fn find_field(fs: Seq<FieldModel>, kind: FieldType) -> Option<FieldModel>
    decreases fs.len(),
{
    if fs.len() == 0 {
        None
    } else if fs[0].kind == kind {
        Some(fs[0])
    } else {
        find_field(fs.drop_first(), kind)
    }
}

/// Bytewise XOR with 0xFF, the protocol's obfuscation of credentials.
pub open spec fn obfuscate(b: Seq<u8>) -> Seq<u8> {
    Seq::new(b.len(), |i: int| b[i] ^ 0xffu8)
}

/// The text a payload holds, where it is valid UTF-8.
pub open spec fn payload_text(b: Seq<u8>) -> Option<Seq<char>> {
    if valid_utf8(b) {
        Some(decode_utf8(b))
    } else {
        None
    }
}

proof fn lemma_fields_wire_len(fs: Seq<FieldModel>)
    requires
        forall|i: int| 0 <= i < fs.len() ==> #[trigger] fs[i].data.len() <= 65535,
    ensures
        fields_wire(fs).len() == fields_size(fs),
    decreases fs.len(),
{
    if fs.len() > 0 {
        assert forall|i: int| 0 <= i < fs.drop_first().len() implies #[trigger] fs.drop_first()[i].data.len() <= 65535 by {
            assert(fs.drop_first()[i] == fs[i + 1]);
        }
        lemma_fields_wire_len(fs.drop_first());
    }
}

proof fn lemma_fields_wire_push(fs: Seq<FieldModel>, f: FieldModel)
    ensures
        fields_wire(fs.push(f)) == fields_wire(fs) + field_wire(f),
    decreases fs.len(),
{
    if fs.len() == 0 {
        assert(fs.push(f).drop_first() =~= Seq::<FieldModel>::empty());
        assert(fs.push(f)[0] == f);
        assert(fields_wire(fs.push(f).drop_first()) =~= Seq::<u8>::empty());
        assert(fields_wire(fs) =~= Seq::<u8>::empty());
        assert(fields_wire(fs.push(f)) =~= field_wire(f));
    } else {
        assert(fs.push(f).drop_first() =~= fs.drop_first().push(f));
        assert(fs.push(f)[0] == fs[0]);
        lemma_fields_wire_push(fs.drop_first(), f);
        assert(fields_wire(fs.push(f)) =~= fields_wire(fs) + field_wire(f));
    }
}

proof fn lemma_fields_size_push(fs: Seq<FieldModel>, f: FieldModel)
    ensures
        fields_size(fs.push(f)) == fields_size(fs) + 4 + f.data.len(),
    decreases fs.len(),
{
    if fs.len() == 0 {
        assert(fs.push(f).drop_first() =~= Seq::<FieldModel>::empty());
        assert(fs.push(f)[0] == f);
        assert(fields_size(fs.push(f).drop_first()) == 0);
    } else {
        assert(fs.push(f).drop_first() =~= fs.drop_first().push(f));
        assert(fs.push(f)[0] == fs[0]);
        lemma_fields_size_push(fs.drop_first(), f);
    }
}

/// Reading one field's bytes, followed by anything, gives that field first.
proof fn lemma_parse_one(f: FieldModel, rest: Seq<u8>, count: nat)
    requires
        f.data.len() <= 65535,
        canonical_field(f.kind),
        count > 0,
    ensures
        parse_fields(field_wire(f) + rest, count) == seq![f] + parse_fields(rest, (count - 1) as nat),
{
    let s = field_wire(f) + rest;
    let n = f.data.len() as u16;
    lemma_u16_round_trip(field_code(f.kind));
    lemma_u16_round_trip(n);
    assert(s =~= be16(field_code(f.kind)) + be16(n) + f.data + rest);
    assert(u16_at(s, 0) == field_code(f.kind));
    assert(u16_at(s, 2) == n);
    assert(s.subrange(4, 4 + n as int) =~= f.data);
    assert(s.subrange(4 + n as int, s.len() as int) =~= rest);
}

/// Reading back the bytes of whole fields, followed by anything, gives the fields.
#[verifier::rlimit(40)]
proof fn lemma_parse_fields_wire(fs: Seq<FieldModel>, rest: Seq<u8>)
    requires
        forall|i: int| 0 <= i < fs.len() ==> #[trigger] fs[i].data.len() <= 65535,
        forall|i: int| 0 <= i < fs.len() ==> canonical_field(#[trigger] fs[i].kind),
    ensures
        parse_fields(fields_wire(fs) + rest, fs.len()) == fs,
    decreases fs.len(),
{
    if fs.len() == 0 {
        assert(parse_fields(fields_wire(fs) + rest, 0) =~= fs);
    } else {
        let f = fs[0];
        let tail = fs.drop_first();
        assert forall|i: int| 0 <= i < tail.len() implies #[trigger] tail[i].data.len() <= 65535 by {
            assert(tail[i] == fs[i + 1]);
        }
        assert forall|i: int| 0 <= i < tail.len() implies canonical_field(#[trigger] tail[i].kind) by {
            assert(tail[i] == fs[i + 1]);
        }
        lemma_parse_fields_wire(tail, rest);
        assert(fields_wire(fs) + rest =~= field_wire(f) + (fields_wire(tail) + rest));
        lemma_parse_one(f, fields_wire(tail) + rest, fs.len());
        assert(seq![f] + tail =~= fs);
    }
}

impl TransactionField {
    /// A field of the given kind carrying `data`.
    pub fn new(field_type: FieldType, data: Vec<u8>) -> (r: Self)
        ensures
            r.field_type == field_type,
            r.data@ == data@,
    {
        TransactionField { field_type, data }
    }

    /// A field carrying the UTF-8 bytes of `value`.
    pub fn from_string(field_type: FieldType, value: &str) -> (r: Self)
        ensures
            r.field_type == field_type,
            r.data@ == encode_utf8(value@),
    {
        TransactionField { field_type, data: crate::text::str_bytes(value) }
    }

    /// A field carrying the UTF-8 bytes of `value`, each XORed with 0xFF.
    pub fn from_encoded_string(field_type: FieldType, value: &str) -> (r: Self)
        ensures
            r.field_type == field_type,
            r.data@ == obfuscate(encode_utf8(value@)),
    {
        let plain = crate::text::str_bytes(value);
        TransactionField { field_type, data: obfuscate_bytes(&plain) }
    }

    /// A field carrying `value` in two bytes, most significant first.
    pub fn from_u16(field_type: FieldType, value: u16) -> (r: Self)
        ensures
            r.field_type == field_type,
            r.data@ == be16(value),
    {
        let mut data: Vec<u8> = Vec::new();
        push_u16(&mut data, value);
        assert(data@ =~= be16(value));
        TransactionField { field_type, data }
    }

    /// A field carrying `value` in four bytes, most significant first.
    pub fn from_u32(field_type: FieldType, value: u32) -> (r: Self)
        ensures
            r.field_type == field_type,
            r.data@ == be32(value),
    {
        let mut data: Vec<u8> = Vec::new();
        push_u32(&mut data, value);
        assert(data@ =~= be32(value));
        TransactionField { field_type, data }
    }

    /// The payload read as UTF-8 text.
    pub fn to_string(&self) -> (r: Result<String, CodecError>)
        ensures
            match r {
                Ok(s) => payload_text(self.data@) == Some(s@),
                Err(e) => payload_text(self.data@) is None && e == CodecError::InvalidText,
            },
    {
        match string_from_utf8(self.data.clone()) {
            Some(s) => Ok(s),
            None => Err(CodecError::InvalidText),
        }
    }

    /// The payload with the credential obfuscation undone, read as UTF-8 text.
    pub fn to_decoded_string(&self) -> (r: Result<String, CodecError>)
        ensures
            match r {
                Ok(s) => payload_text(obfuscate(self.data@)) == Some(s@),
                Err(e) => payload_text(obfuscate(self.data@)) is None && e
                    == CodecError::InvalidText,
            },
    {
        match string_from_utf8(obfuscate_bytes(&self.data)) {
            Some(s) => Ok(s),
            None => Err(CodecError::InvalidText),
        }
    }

    /// The payload read as a 16-bit integer; it must be exactly two bytes.
    pub fn to_u16(&self) -> (r: Result<u16, CodecError>)
        ensures
            self.data@.len() == 2 ==> r == Ok::<u16, CodecError>(u16_at(self.data@, 0)),
            self.data@.len() != 2 ==> r == Err::<u16, CodecError>(CodecError::MalformedField),
    {
        if self.data.len() != 2 {
            return Err(CodecError::MalformedField);
        }
        Ok(read_u16(self.data.as_slice(), 0))
    }

    /// The payload read as a 32-bit integer; it must be exactly four bytes.
    pub fn to_u32(&self) -> (r: Result<u32, CodecError>)
        ensures
            self.data@.len() == 4 ==> r == Ok::<u32, CodecError>(u32_at(self.data@, 0)),
            self.data@.len() != 4 ==> r == Err::<u32, CodecError>(CodecError::MalformedField),
    {
        if self.data.len() != 4 {
            return Err(CodecError::MalformedField);
        }
        Ok(read_u32(self.data.as_slice(), 0))
    }

    /// The field's bytes on the wire: type, length, payload.
    pub fn encode(&self) -> (r: Vec<u8>)
        requires
            self.data@.len() <= MAX_FIELD_LEN,
        ensures
            r@ == field_wire(self@),
    {
        let mut buf: Vec<u8> = Vec::new();
        self.encode_into(&mut buf);
        assert(buf@ =~= field_wire(self@));
        buf
    }

    fn encode_into(&self, buf: &mut Vec<u8>)
        requires
            self.data@.len() <= MAX_FIELD_LEN,
        ensures
            final(buf)@ == old(buf)@ + field_wire(self@),
    {
        push_u16(buf, self.field_type.code());
        push_u16(buf, self.data.len() as u16);
        push_all(buf, self.data.as_slice());
        assert(final(buf)@ =~= old(buf)@ + field_wire(self@));
    }
}

/// Each byte XORed with 0xFF.
pub fn obfuscate_bytes(b: &Vec<u8>) -> (r: Vec<u8>)
    ensures
        r@ == obfuscate(b@),
{
    let mut r: Vec<u8> = Vec::new();
    let mut i: usize = 0;
    while i < b.len()
        invariant
            i <= b@.len(),
            r@ == obfuscate(b@).subrange(0, i as int),
        decreases b@.len() - i,
    {
        r.push(b[i] ^ 0xffu8);
        i = i + 1;
        assert(r@ =~= obfuscate(b@).subrange(0, i as int));
    }
    assert(obfuscate(b@).subrange(0, b@.len() as int) =~= obfuscate(b@));
    r
}

impl Transaction {
    /// A request of the given kind and id, with no fields.
    pub fn new(id: u32, transaction_type: TransactionType) -> (r: Self)
        ensures
            r.flags == 0,
            r.is_reply == 0,
            r.transaction_type == transaction_type,
            r.id == id,
            r.error_code == 0,
            r.fields@.len() == 0,
    {
        Transaction { flags: 0, is_reply: 0, transaction_type, id, error_code: 0, fields: Vec::new() }
    }

    /// Appends a field.
    pub fn add_field(&mut self, field: TransactionField)
        ensures
            final(self).flags == old(self).flags,
            final(self).is_reply == old(self).is_reply,
            final(self).transaction_type == old(self).transaction_type,
            final(self).id == old(self).id,
            final(self).error_code == old(self).error_code,
            final(self).fields@ == old(self).fields@.push(field),
    {
        self.fields.push(field);
    }

    /// The first field of the given kind, if any.
    pub fn get_field(&self, field_type: FieldType) -> (r: Option<&TransactionField>)
        ensures
            match r {
                Some(f) => find_field(self@.fields, field_type) == Some(f@),
                None => find_field(self@.fields, field_type) is None,
            },
    {
        let mut i: usize = 0;
        assert(self@.fields.subrange(0, self@.fields.len() as int) =~= self@.fields);
        while i < self.fields.len()
            invariant
                i <= self.fields@.len(),
                find_field(self@.fields, field_type) == find_field(self@.fields.subrange(i as int, self@.fields.len() as int), field_type),
            decreases self.fields@.len() - i,
        {
            let ghost rest = self@.fields.subrange(i as int, self@.fields.len() as int);
            assert(rest[0] == self.fields@[i as int]@);
            assert(rest.len() > 0);
            if self.fields[i].field_type == field_type {
                let f = &self.fields[i];
                assert(find_field(rest, field_type) == Some(rest[0]));
                assert(f@ == rest[0]);
                assert(find_field(self@.fields, field_type) == Some(f@));
                return Some(f);
            }
            assert(rest.drop_first() =~= self@.fields.subrange(i + 1, self@.fields.len() as int));
            i = i + 1;
        }
        None
    }

    /// Whether the wire format can carry this transaction.
    pub fn is_encodable(&self) -> (r: bool)
        ensures
            r == encodable(self@),
    {
        if self.fields.len() > 65535 {
            return false;
        }
        let mut size: u64 = 2;
        let mut i: usize = 0;
        while i < self.fields.len()
            invariant
                i <= self.fields@.len() <= 65535,
                size == 2 + fields_size(self@.fields.subrange(0, i as int)),
                size <= u32::MAX,
                forall|j: int| 0 <= j < i ==> #[trigger] self@.fields[j].data.len() <= 65535,
            decreases self.fields@.len() - i,
        {
            proof {
                lemma_fields_size_push(self@.fields.subrange(0, i as int), self@.fields[i as int]);
                assert(self@.fields.subrange(0, i + 1) =~= self@.fields.subrange(0, i as int).push(self@.fields[i as int]));
            }
            let len = self.fields[i].data.len();
            if len > MAX_FIELD_LEN {
                return false;
            }
            size = size + 4 + len as u64;
            if size > 0xffff_ffffu64 {
                proof { self.lemma_size_grows(i as int + 1); }
                return false;
            }
            i = i + 1;
        }
        assert(self@.fields.subrange(0, i as int) =~= self@.fields);
        true
    }

    proof fn lemma_size_grows(&self, k: int)
        requires
            0 <= k <= self@.fields.len(),
        ensures
            fields_size(self@.fields.subrange(0, k)) <= fields_size(self@.fields),
    {
        lemma_fields_size_prefix(self@.fields, k);
    }

    /// The field block's length: `2 + Σ (4 + payload length)`.
    fn calculate_data_size(&self) -> (r: u32)
        requires
            data_size(self@) <= u32::MAX,
        ensures
            r == data_size(self@),
    {
        let mut size: u32 = 2;
        let mut i: usize = 0;
        while i < self.fields.len()
            invariant
                data_size(self@) <= u32::MAX,
                i <= self.fields@.len(),
                size == 2 + fields_size(self@.fields.subrange(0, i as int)),
            decreases self.fields@.len() - i,
        {
            proof {
                lemma_fields_size_push(self@.fields.subrange(0, i as int), self@.fields[i as int]);
                assert(self@.fields.subrange(0, i + 1) =~= self@.fields.subrange(0, i as int).push(self@.fields[i as int]));
                lemma_fields_size_prefix(self@.fields, i + 1);
            }
            size = size + 4 + self.fields[i].data.len() as u32;
            i = i + 1;
        }
        assert(self@.fields.subrange(0, i as int) =~= self@.fields);
        size
    }

    /// The frame of this transaction; `data_size` goes into both size words.
    pub fn encode(&self) -> (r: Vec<u8>)
        requires
            encodable(self@),
        ensures
            r@ == frame(self@),
            r@.len() == TRANSACTION_HEADER_SIZE + data_size(self@),
    {
        let data_size = self.calculate_data_size();
        let mut buf: Vec<u8> = Vec::new();
        buf.push(self.flags);
        buf.push(self.is_reply);
        push_u16(&mut buf, self.transaction_type.code());
        push_u32(&mut buf, self.id);
        push_u32(&mut buf, self.error_code);
        push_u32(&mut buf, data_size);
        push_u32(&mut buf, data_size);
        push_u16(&mut buf, self.fields.len() as u16);
        let ghost head = buf@;
        let mut i: usize = 0;
        while i < self.fields.len()
            invariant
                encodable(self@),
                i <= self.fields@.len(),
                buf@ == head + fields_wire(self@.fields.subrange(0, i as int)),
            decreases self.fields@.len() - i,
        {
            proof {
                lemma_fields_wire_push(self@.fields.subrange(0, i as int), self@.fields[i as int]);
                assert(self@.fields.subrange(0, i + 1) =~= self@.fields.subrange(0, i as int).push(self@.fields[i as int]));
                assert(self.fields@[i as int]@ == self@.fields[i as int]);
                assert(self@.fields[i as int].data.len() <= 65535);
            }
            self.fields[i].encode_into(&mut buf);
            i = i + 1;
        }
        proof {
            assert(self@.fields.subrange(0, i as int) =~= self@.fields);
            assert(buf@ =~= frame(self@));
            lemma_fields_wire_len(self@.fields);
        }
        buf
    }

    /// The field block size a frame header declares, which is how many bytes
    /// follow the header on the wire.
    pub fn declared_block_size(header: &[u8]) -> (r: u32)
        requires
            header@.len() >= TRANSACTION_HEADER_SIZE,
        ensures
            r == u32_at(header@, 16),
    {
        read_u32(header, 16)
    }

    /// Decodes a frame. Fails only when `data` is shorter than a header; reads
    /// fields until the declared count is exhausted or one is cut short.
    pub fn decode(data: &[u8]) -> (r: Result<Transaction, CodecError>)
        ensures
            data@.len() < TRANSACTION_HEADER_SIZE ==> r == Err::<Transaction, CodecError>(CodecError::FrameTooShort),
            data@.len() >= TRANSACTION_HEADER_SIZE ==> (r matches Ok(t) && t@ == decoded(data@)),
    {
        if data.len() < TRANSACTION_HEADER_SIZE {
            return Err(CodecError::FrameTooShort);
        }
        let mut t = Transaction {
            flags: data[0],
            is_reply: data[1],
            transaction_type: TransactionType::from_code(read_u16(data, 2)),
            id: read_u32(data, 4),
            error_code: read_u32(data, 8),
            fields: Vec::new(),
        };
        let data_size = read_u32(data, 16);
        if data_size > 0 && data.len() >= TRANSACTION_HEADER_SIZE + 2 {
            let count = read_u16(data, 20);
            let ghost block = data@.subrange(22, data@.len() as int);
            let mut offset: usize = 22;
            let mut k: u16 = 0;
            while k < count
                invariant
                    22 <= offset <= data@.len(),
                    block == data@.subrange(22, data@.len() as int),
                    k <= count,
                    t.flags == data@[0],
                    t.is_reply == data@[1],
                    t.transaction_type == transaction_type_of(u16_at(data@, 2)),
                    t.id == u32_at(data@, 4),
                    t.error_code == u32_at(data@, 8),
                    field_models(t.fields@) + parse_fields(data@.subrange(offset as int, data@.len() as int), (count - k) as nat)
                        == parse_fields(block, count as nat),
                ensures
                    field_models(t.fields@) == parse_fields(block, count as nat),
                decreases count - k,
            {
                let ghost s = data@.subrange(offset as int, data@.len() as int);
                if data.len() - offset < 4 {
                    assert(parse_fields(s, (count - k) as nat) =~= Seq::<FieldModel>::empty());
                    assert(field_models(t.fields@) =~= parse_fields(block, count as nat));
                    break;
                }
                let code = read_u16(data, offset);
                let len = read_u16(data, offset + 2) as usize;
                assert(u16_at(s, 0) == code && u16_at(s, 2) as usize == len);
                if data.len() - offset - 4 < len {
                    assert(parse_fields(s, (count - k) as nat) =~= Seq::<FieldModel>::empty());
                    assert(field_models(t.fields@) =~= parse_fields(block, count as nat));
                    break;
                }
                let payload = copy_range(data, offset + 4, offset + 4 + len);
                let field = TransactionField { field_type: FieldType::from_code(code), data: payload };
                proof {
                    let f = FieldModel { kind: field_type_of(code), data: s.subrange(4, 4 + len as int) };
                    assert(payload@ =~= s.subrange(4, 4 + len as int));
                    assert(field@ == f);
                    assert(s.subrange(4 + len as int, s.len() as int) =~= data@.subrange(offset + 4 + len, data@.len() as int));
                    assert(parse_fields(s, (count - k) as nat) == seq![f] + parse_fields(
                        data@.subrange(offset + 4 + len, data@.len() as int), (count - k - 1) as nat));
                    assert(field_models(t.fields@.push(field)) =~= field_models(t.fields@).push(f));
                    assert(field_models(t.fields@).push(f) + parse_fields(
                        data@.subrange(offset + 4 + len, data@.len() as int), (count - k - 1) as nat)
                        =~= field_models(t.fields@) + (seq![f] + parse_fields(
                        data@.subrange(offset + 4 + len, data@.len() as int), (count - k - 1) as nat)));
                }
                t.fields.push(field);
                offset = offset + 4 + len;
                k = k + 1;
            }
        } else {
            assert(field_models(t.fields@) =~= Seq::<FieldModel>::empty());
        }
        assert(field_models(t.fields@) == decoded(data@).fields);
        assert(t@ == decoded(data@));
        Ok(t)
    }
}

proof fn lemma_fields_size_prefix(fs: Seq<FieldModel>, k: int)
    requires
        0 <= k <= fs.len(),
    ensures
        fields_size(fs.subrange(0, k)) <= fields_size(fs),
    decreases fs.len() - k,
{
    if k < fs.len() {
        lemma_fields_size_prefix(fs, k + 1);
        lemma_fields_size_push(fs.subrange(0, k), fs[k]);
        assert(fs.subrange(0, k + 1) =~= fs.subrange(0, k).push(fs[k]));
    } else {
        assert(fs.subrange(0, k) =~= fs);
    }
}

/// Decoding the frame of an encodable transaction whose kinds are the ones
/// their codes name gives back the same transaction, and the frame is
/// `20 + data_size` bytes long.
pub proof fn lemma_frame_round_trip(t: TransactionModel)
    requires
        encodable(t),
        canonical(t),
    ensures
        decoded(frame(t)) == t,
        frame(t).len() == TRANSACTION_HEADER_SIZE + data_size(t),
{
    let n = t.fields.len() as u16;
    let ds = data_size(t) as u32;
    let s = frame(t);
    lemma_fields_wire_len(t.fields);
    lemma_u16_round_trip(transaction_code(t.kind));
    lemma_u16_round_trip(n);
    lemma_u32_round_trip(t.id);
    lemma_u32_round_trip(t.error_code);
    lemma_u32_round_trip(ds);
    assert(s.subrange(22, s.len() as int) =~= fields_wire(t.fields) + Seq::<u8>::empty());
    lemma_parse_fields_wire(t.fields, Seq::<u8>::empty());
    assert(u16_at(s, 2) == transaction_code(t.kind));
    assert(u32_at(s, 4) == t.id);
    assert(u32_at(s, 8) == t.error_code);
    assert(u32_at(s, 16) == ds);
    assert(u16_at(s, 20) == n);
    assert(decoded(s).fields == t.fields);
}

/// A frame whose declared block size is zero decodes to no fields.
pub proof fn lemma_empty_block_has_no_fields(s: Seq<u8>)
    requires
        s.len() >= TRANSACTION_HEADER_SIZE,
        u32_at(s, 16) == 0,
    ensures
        decoded(s).fields.len() == 0,
{
}

/// A field whose declared length is zero decodes to an empty payload.
pub proof fn lemma_zero_length_field(s: Seq<u8>, count: nat)
    requires
        count > 0,
        s.len() >= 4,
        u16_at(s, 2) == 0,
    ensures
        parse_fields(s, count).len() > 0,
        parse_fields(s, count)[0].data.len() == 0,
{
}

/// Undoing the obfuscation of a string's obfuscated bytes gives the string back.
pub proof fn lemma_obfuscated_text_round_trip(text: Seq<char>)
    ensures
        payload_text(obfuscate(obfuscate(encode_utf8(text)))) == Some(text),
{
    let b = encode_utf8(text);
    assert forall|i: int| 0 <= i < b.len() implies obfuscate(obfuscate(b))[i] == b[i] by {
        let x = b[i];
        assert(x ^ 0xffu8 ^ 0xffu8 == x) by (bit_vector);
    }
    assert(obfuscate(obfuscate(b)) =~= b);
    encode_utf8_valid_utf8(text);
    encode_utf8_decode_utf8(text);
}

} // verus!
