//! The file-transfer channel: the HTXF handshake, the FILP envelope of a
//! download read fork by fork, raw banner reads, and the upload envelope.
//!
//! A `Download` decides how many bytes to read next and takes them; the
//! caller owns the stream.

use vstd::prelude::*;
use crate::wire::{be16, be32, push_u16, push_u32, read_u16, read_u32, u16_at, u32_at};

verus! {

/// Reads on the transfer channel go in chunks of at most this many bytes.
pub const CHUNK_SIZE: u32 = 65536;

/// A file-list size above this, with a DATA fork that declares zero, is taken
/// as corrupt: the fork is then read until the stream ends.
pub const SUSPICIOUS_SIZE: u32 = 2_000_000_000;

/// Length of the FILP header: magic, version, 16 reserved bytes, fork count.
pub const FILP_HEADER_SIZE: u32 = 24;

/// Length of a fork header: type, compression, reserved, size.
pub const FORK_HEADER_SIZE: u32 = 16;

/// What a transfer can fail with.
#[derive(Clone, Copy, Debug, PartialEq, Eq, Structural)]
pub enum TransferError {
    /// The envelope does not start with `FILP`.
    BadMagic,
    /// A fork uses a compression this client does not support.
    UnsupportedCompression(u32),
    /// The stream ended inside a header or a fork that is not read to its end.
    Truncated,
    /// The stream ended inside a DATA fork of known size, after this many bytes.
    EarlyEof(u32),
    /// A size that does not fit the envelope's 32-bit fields.
    TooLarge,
}

/// The bytes `HTXF`.
pub open spec fn htxf_magic() -> Seq<u8> {
    seq![0x48u8, 0x54u8, 0x58u8, 0x46u8]
}

/// The bytes `FILP`.
pub open spec fn filp_magic() -> Seq<u8> {
    seq![0x46u8, 0x49u8, 0x4cu8, 0x50u8]
}

/// The bytes `DATA`.
pub open spec fn data_fork_type() -> Seq<u8> {
    seq![0x44u8, 0x41u8, 0x54u8, 0x41u8]
}

/// The bytes `INFO`.
pub open spec fn info_fork_type() -> Seq<u8> {
    seq![0x49u8, 0x4eu8, 0x46u8, 0x4fu8]
}

/// The 16-byte handshake that opens a transfer channel.
pub open spec fn htxf_bytes(reference: u32, data_size: u32) -> Seq<u8> {
    htxf_magic() + be32(reference) + be32(data_size) + be32(0)
}

/// The handshake: `HTXF`, the reference number, the data size (0 for
/// downloads), four zero bytes.
pub fn htxf_handshake(reference: u32, data_size: u32) -> (r: Vec<u8>)
    ensures
        r@ == htxf_bytes(reference, data_size),
{
    let mut r: Vec<u8> = vec![0x48u8, 0x54u8, 0x58u8, 0x46u8];
    push_u32(&mut r, reference);
    push_u32(&mut r, data_size);
    push_u32(&mut r, 0);
    assert(r@ =~= htxf_bytes(reference, data_size));
    r
}

/// The size the envelope of an upload of `len` bytes announces: FILP header,
/// an empty INFO fork and the DATA fork.
pub open spec fn upload_total(len: nat) -> nat {
    24 + 16 + 16 + len
}

/// The envelope head of an upload of `len` bytes: a FILP header with two
/// forks, an empty INFO fork header and the DATA fork header.
pub open spec fn upload_head_bytes(len: u32) -> Seq<u8> {
    filp_magic() + be16(1) + Seq::new(16, |i: int| 0u8) + be16(2)
        + info_fork_type() + be32(0) + be32(0) + be32(0)
        + data_fork_type() + be32(0) + be32(0) + be32(len)
}

/// The handshake of an upload of `len` bytes, which announces the whole
/// envelope's size; fails when that size does not fit in 32 bits.
pub fn upload_handshake(reference: u32, len: usize) -> (r: Result<Vec<u8>, TransferError>)
    ensures
        match r {
            Ok(b) => upload_total(len as nat) <= u32::MAX && b@ == htxf_bytes(reference, upload_total(len as nat) as u32),
            Err(e) => upload_total(len as nat) > u32::MAX && e == TransferError::TooLarge,
        },
{
    if len > 0xffff_ffffusize - 56 {
        return Err(TransferError::TooLarge);
    }
    Ok(htxf_handshake(reference, (56 + len) as u32))
}

/// The envelope head that precedes the bytes of an upload.
pub fn upload_envelope_head(len: u32) -> (r: Vec<u8>)
    ensures
        r@ == upload_head_bytes(len),
{
    let mut r: Vec<u8> = vec![0x46u8, 0x49u8, 0x4cu8, 0x50u8];
    push_u16(&mut r, 1);
    let mut i: usize = 0;
    while i < 16
        invariant
            i <= 16,
            r@ == filp_magic() + be16(1) + Seq::new(i as nat, |k: int| 0u8),
        decreases 16 - i,
    {
        r.push(0u8);
        i = i + 1;
        assert(r@ =~= filp_magic() + be16(1) + Seq::new(i as nat, |k: int| 0u8));
    }
    push_u16(&mut r, 2);
    r.push(0x49u8);
    r.push(0x4eu8);
    r.push(0x46u8);
    r.push(0x4fu8);
    push_u32(&mut r, 0);
    push_u32(&mut r, 0);
    push_u32(&mut r, 0);
    r.push(0x44u8);
    r.push(0x41u8);
    r.push(0x54u8);
    r.push(0x41u8);
    push_u32(&mut r, 0);
    push_u32(&mut r, 0);
    push_u32(&mut r, len);
    assert(r@ =~= upload_head_bytes(len));
    r
}

/// Whole percent of `done` out of `total`.
pub open spec fn percent(done: nat, total: nat) -> nat {
    if total == 0 { 100 } else { done * 100 / total }
}

/// Whether progress is reported at `done` of `total` when `last` percent was
/// last reported: every two percent, and on completion.
pub open spec fn report_due(done: nat, total: nat, last: nat) -> bool {
    percent(done, total) >= last + 2 || done == total
}

/// Decides whether to report progress, and the percent to remember.
pub fn progress_step(done: u32, total: u32, last: u32) -> (r: (bool, u32))
    requires
        done <= total,
    ensures
        r.0 == report_due(done as nat, total as nat, last as nat),
        r.0 ==> r.1 == percent(done as nat, total as nat),
        !r.0 ==> r.1 == last,
{
    let pct: u64 = if total == 0 { 100 } else { (done as u64) * 100 / (total as u64) };
    proof {
        if total != 0 {
            vstd::arithmetic::div_mod::lemma_div_is_ordered(done as int * 100, total as int * 100, total as int);
            vstd::arithmetic::div_mod::lemma_div_multiples_vanish_fancy(100, 0, total as int);
            assert(total as int * 100 + 0 == total as int * 100);
        }
    }
    if pct >= last as u64 + 2 || done == total {
        (true, pct as u32)
    } else {
        (false, last)
    }
}

/// A fork header as read from the stream.
#[derive(Clone, Copy, Debug)]
pub struct ForkHeader {
    pub fork_type: [u8; 4],
    pub compression: u32,
    pub size: u32,
}

/// How a fork is read.
#[derive(Clone, Copy, Debug, PartialEq, Eq, Structural)]
pub enum ForkPlan {
    /// Read and discard this many bytes.
    Skip(u32),
    /// Read exactly this many bytes of file data.
    Data(u32),
    /// Read file data until the stream ends.
    DataUntilEof,
}

/// Whether a fork header names the DATA fork.
pub open spec fn is_data_fork(h: ForkHeader) -> bool {
    h.fork_type@ == data_fork_type()
}

/// How a fork is read, given whether it is the DATA fork, its compression,
/// its declared size and the size the file list announced: a DATA fork that
/// declares zero takes the announced size, or is read to the end of the
/// stream when that size is suspiciously large; any other fork is read as
/// declared. A fork with compression is refused.
pub open spec fn fork_plan_of(is_data: bool, compression: u32, size: u32, expected: u32) -> Result<ForkPlan, TransferError> {
    if compression != 0 {
        Err(TransferError::UnsupportedCompression(compression))
    } else if !is_data {
        Ok(ForkPlan::Skip(size))
    } else if size == 0 && expected > SUSPICIOUS_SIZE {
        Ok(ForkPlan::DataUntilEof)
    } else if size == 0 && expected > 0 {
        Ok(ForkPlan::Data(expected))
    } else {
        Ok(ForkPlan::Data(size))
    }
}

/// How the fork of a parsed header is read.
pub open spec fn fork_plan(h: ForkHeader, expected: u32) -> Result<ForkPlan, TransferError> {
    fork_plan_of(is_data_fork(h), h.compression, h.size, expected)
}

/// How the fork whose 16 header bytes are `b` is read: type at 0,
/// compression at 4, size at 12.
pub open spec fn header_plan(b: Seq<u8>, expected: u32) -> Result<ForkPlan, TransferError> {
    fork_plan_of(b.subrange(0, 4) == data_fork_type(), u32_at(b, 4), u32_at(b, 12), expected)
}

/// A DATA fork that declares no bytes, with no announced size to stand in,
/// is read as empty: nothing is read for it.
pub proof fn lemma_empty_data_fork(b: Seq<u8>)
    requires
        b.len() == 16,
        b.subrange(0, 4) == data_fork_type(),
        u32_at(b, 4) == 0,
        u32_at(b, 12) == 0,
    ensures
        header_plan(b, 0) == Ok::<ForkPlan, TransferError>(ForkPlan::Data(0)),
{
}

/// The stage after a fork ends, with `forks_left` forks still to come.
pub open spec fn next_stage(forks_left: u16) -> Stage {
    if forks_left == 0 { Stage::Done } else { Stage::ForkHeader }
}

/// How taking the 16 header bytes `b` of the next fork changes a download:
/// a refused fork changes nothing; otherwise one fork fewer is left and the
/// fork is set up as its plan says, an empty one ending at once.
pub open spec fn fork_started(old: Download, new: Download, b: Seq<u8>, r: Result<Option<(u32, u32)>, TransferError>) -> bool {
    match header_plan(b, old.expected()) {
        Err(e) => r == Err::<Option<(u32, u32)>, TransferError>(e) && new == old,
        Ok(p) => {
            &&& r == Ok::<Option<(u32, u32)>, TransferError>(None)
            &&& new.forks_left() == old.forks_left() - 1
            &&& new.expected() == old.expected()
            &&& new.fork_read() == 0
            &&& match p {
                ForkPlan::Skip(n) => {
                    &&& new.fork_target() == n
                    &&& new.stage() == if n == 0 { next_stage(new.forks_left()) } else { Stage::Skip }
                    &&& new.data() == old.data()
                    &&& new.data_seen() == old.data_seen()
                    &&& new.data_declared() == old.data_declared()
                    &&& new.data_target() == old.data_target()
                    &&& new.data_until_eof() == old.data_until_eof()
                },
                ForkPlan::Data(n) => {
                    &&& new.fork_target() == n
                    &&& new.stage() == if n == 0 { next_stage(new.forks_left()) } else { Stage::DataExact }
                    &&& new.data().len() == 0
                    &&& new.data_seen()
                    &&& new.data_declared() == u32_at(b, 12)
                    &&& new.data_target() == n
                    &&& !new.data_until_eof()
                    &&& new.last_percent() == 0
                },
                ForkPlan::DataUntilEof => {
                    &&& new.stage() == Stage::DataUntilEof
                    &&& new.data().len() == 0
                    &&& new.data_seen()
                    &&& new.data_declared() == u32_at(b, 12)
                    &&& new.data_until_eof()
                },
            }
        },
    }
}

/// Everything about the DATA fork but its bytes stays as it was.
pub open spec fn same_data_fork(old: Download, new: Download) -> bool {
    &&& new.data_seen() == old.data_seen()
    &&& new.data_declared() == old.data_declared()
    &&& new.data_target() == old.data_target()
    &&& new.data_until_eof() == old.data_until_eof()
    &&& new.expected() == old.expected()
    &&& new.forks_left() == old.forks_left()
}

/// Reads a 16-byte fork header.
pub fn parse_fork_header(b: &[u8]) -> (r: ForkHeader)
    requires
        b@.len() == 16,
    ensures
        r.fork_type@ == b@.subrange(0, 4),
        r.compression == u32_at(b@, 4),
        r.size == u32_at(b@, 12),
{
    let fork_type: [u8; 4] = [b[0], b[1], b[2], b[3]];
    assert(fork_type@ =~= b@.subrange(0, 4));
    ForkHeader { fork_type, compression: read_u32(b, 4), size: read_u32(b, 12) }
}

/// Decides how a fork is read.
pub fn plan_fork(h: &ForkHeader, expected: u32) -> (r: Result<ForkPlan, TransferError>)
    ensures
        r == fork_plan(*h, expected),
{
    if h.compression != 0 {
        return Err(TransferError::UnsupportedCompression(h.compression));
    }
    let is_data = h.fork_type[0] == 0x44u8 && h.fork_type[1] == 0x41u8 && h.fork_type[2] == 0x54u8 && h.fork_type[3] == 0x41u8;
    assert(is_data == is_data_fork(*h)) by {
        if is_data {
            assert(h.fork_type@ =~= data_fork_type());
        } else if is_data_fork(*h) {
            assert(h.fork_type@[0] == 0x44u8);
            assert(h.fork_type@[1] == 0x41u8);
            assert(h.fork_type@[2] == 0x54u8);
            assert(h.fork_type@[3] == 0x41u8);
        }
    }
    if !is_data {
        Ok(ForkPlan::Skip(h.size))
    } else if h.size == 0 && expected > SUSPICIOUS_SIZE {
        Ok(ForkPlan::DataUntilEof)
    } else if h.size == 0 && expected > 0 {
        Ok(ForkPlan::Data(expected))
    } else {
        Ok(ForkPlan::Data(h.size))
    }
}

/// What to read next.
#[derive(Clone, Copy, Debug, PartialEq, Eq, Structural)]
pub enum Need {
    /// Exactly this many bytes.
    Exact(u32),
    /// Up to this many bytes; a read of none means the stream ended.
    UpTo(u32),
    /// Nothing more: the transfer is complete.
    Done,
}

/// Where a download stands.
#[derive(Clone, Copy, Debug, PartialEq, Eq, Structural)]
pub enum Stage {
    Header,
    ForkHeader,
    Skip,
    DataExact,
    DataUntilEof,
    Done,
}

/// A download in progress: a FILP envelope, or raw bytes of a known size.
pub struct Download {
    stage: Stage,
    expected: u32,
    forks_left: u16,
    target: u32,
    read: u32,
    last_pct: u32,
    data: Vec<u8>,
    data_seen: bool,
    data_declared: u32,
    data_target: u32,
    data_until_eof: bool,
}

impl Download {
    /// The stage.
    pub closed spec fn stage(&self) -> Stage {
        self.stage
    }

    /// The file data read so far from the last DATA fork.
    pub closed spec fn data(&self) -> Seq<u8> {
        self.data@
    }

    /// The forks that follow the current one.
    pub closed spec fn forks_left(&self) -> u16 {
        self.forks_left
    }

    /// The bytes of the current fork read so far.
    pub closed spec fn fork_read(&self) -> u32 {
        self.read
    }

    /// The bytes the current fork is read to.
    pub closed spec fn fork_target(&self) -> u32 {
        self.target
    }

    /// The percent last reported for the DATA fork.
    pub closed spec fn last_percent(&self) -> u32 {
        self.last_pct
    }

    /// The bytes left in the current fork.
    pub open spec fn remaining(&self) -> u32 {
        (self.fork_target() - self.fork_read()) as u32
    }

    /// The size the caller announced.
    pub closed spec fn expected(&self) -> u32 {
        self.expected
    }

    /// Whether a DATA fork was met.
    pub closed spec fn data_seen(&self) -> bool {
        self.data_seen
    }

    /// The size the DATA fork header declared.
    pub closed spec fn data_declared(&self) -> u32 {
        self.data_declared
    }

    /// The length the DATA fork is read to, when read to a known size.
    pub closed spec fn data_target(&self) -> u32 {
        self.data_target
    }

    /// Whether the DATA fork is read until the stream ends.
    pub closed spec fn data_until_eof(&self) -> bool {
        self.data_until_eof
    }

    /// The invariant: data read so far never passes its target; a finished
    /// DATA fork of known size holds exactly its target; reading to the end of
    /// the stream happens only for a fork that declared zero under a
    /// suspicious announced size.
    pub closed spec fn wf(&self) -> bool {
        &&& self.read <= self.target
        &&& (self.stage == Stage::Skip || self.stage == Stage::DataExact ==> self.read < self.target)
        &&& (self.stage == Stage::ForkHeader ==> self.forks_left > 0)
        &&& (self.stage == Stage::DataExact ==> self.data_seen && !self.data_until_eof
            && self.data@.len() == self.read && self.target == self.data_target)
        &&& (self.stage == Stage::DataUntilEof ==> self.data_seen && self.data_until_eof
            && self.data@.len() == self.read as int)
        &&& (self.data_seen && !self.data_until_eof && self.stage != Stage::DataExact
            ==> self.data@.len() == self.data_target)
        &&& (self.data_seen ==> (self.data_until_eof <==> (self.data_declared == 0 && self.expected > SUSPICIOUS_SIZE)))
        &&& (self.data_seen && !self.data_until_eof ==> self.data_target == if self.data_declared == 0
            && self.expected > 0 { self.expected } else { self.data_declared })
        &&& (!self.data_seen ==> self.data@.len() == 0)
        &&& (self.stage == Stage::DataUntilEof ==> self.read as int == self.data@.len() && self.target == 0xffff_ffff)
    }

    /// Whether the invariant holds; it always does for a download made and
    /// driven through this API.
    pub fn is_consistent(&self) -> (r: bool)
        ensures
            r == self.wf(),
    {
        let in_data_exact = matches!(self.stage, Stage::DataExact);
        let in_until_eof = matches!(self.stage, Stage::DataUntilEof);
        let reading = matches!(self.stage, Stage::Skip) || in_data_exact;
        let suspicious = self.data_declared == 0 && self.expected > SUSPICIOUS_SIZE;
        let planned = if self.data_declared == 0 && self.expected > 0 { self.expected } else { self.data_declared };
        let len = self.data.len();
        self.read <= self.target
            && (!reading || self.read < self.target)
            && (!matches!(self.stage, Stage::ForkHeader) || self.forks_left > 0)
            && (!in_data_exact || (self.data_seen && !self.data_until_eof && len == self.read as usize && self.target == self.data_target))
            && (!in_until_eof || (self.data_seen && self.data_until_eof && len == self.read as usize && self.target == 0xffff_ffff))
            && (!(self.data_seen && !self.data_until_eof && !in_data_exact) || len == self.data_target as usize)
            && (!self.data_seen || (self.data_until_eof == suspicious))
            && (!(self.data_seen && !self.data_until_eof) || self.data_target == planned)
            && (self.data_seen || len == 0)
    }

    /// A download of a FILP envelope; `expected` is the size the file list
    /// announced, or 0 when none is known.
    pub fn new(expected: u32) -> (r: Download)
        ensures
            r.wf(),
            r.stage() == Stage::Header,
            r.expected() == expected,
            !r.data_seen(),
            r.data().len() == 0,
            r.forks_left() == 0,
    {
        Download {
            stage: Stage::Header,
            expected,
            forks_left: 0,
            target: 0,
            read: 0,
            last_pct: 0,
            data: Vec::new(),
            data_seen: false,
            data_declared: 0,
            data_target: 0,
            data_until_eof: false,
        }
    }

    /// A download of exactly `size` raw bytes, as a banner is sent.
    pub fn raw(size: u32) -> (r: Download)
        ensures
            r.wf(),
            size > 0 ==> r.stage() == Stage::DataExact,
            size == 0 ==> r.stage() == Stage::Done,
            r.data_seen(),
            !r.data_until_eof(),
            r.data_target() == size,
            r.data().len() == 0,
            r.fork_target() == size,
            r.fork_read() == 0,
            r.last_percent() == 0,
            r.forks_left() == 0,
            r.expected() == size,
    {
        Download {
            stage: if size == 0 { Stage::Done } else { Stage::DataExact },
            expected: size,
            forks_left: 0,
            target: size,
            read: 0,
            last_pct: 0,
            data: Vec::new(),
            data_seen: true,
            data_declared: size,
            data_target: size,
            data_until_eof: false,
        }
    }

    /// What to read next.
    pub fn need(&self) -> (r: Need)
        requires
            self.wf(),
        ensures
            self.stage() == Stage::Header ==> r == Need::Exact(FILP_HEADER_SIZE),
            self.stage() == Stage::ForkHeader ==> r == Need::Exact(FORK_HEADER_SIZE),
            self.stage() == Stage::DataUntilEof ==> r == Need::UpTo(CHUNK_SIZE),
            self.stage() == Stage::Done ==> r == Need::Done,
            self.stage() == Stage::Skip || self.stage() == Stage::DataExact ==> r == Need::Exact(
                if self.remaining() > CHUNK_SIZE { CHUNK_SIZE } else { self.remaining() },
            ) && self.remaining() > 0,
    {
        match self.stage {
            Stage::Header => Need::Exact(FILP_HEADER_SIZE),
            Stage::ForkHeader => Need::Exact(FORK_HEADER_SIZE),
            Stage::Skip | Stage::DataExact => {
                let left = self.target - self.read;
                if left > CHUNK_SIZE {
                    Need::Exact(CHUNK_SIZE)
                } else {
                    Need::Exact(left)
                }
            },
            Stage::DataUntilEof => Need::UpTo(CHUNK_SIZE),
            Stage::Done => Need::Done,
        }
    }

    /// Starts the next fork from its header.
    fn start_fork(&mut self, header: &[u8]) -> (r: Result<Option<(u32, u32)>, TransferError>)
        requires
            old(self).wf(),
            old(self).stage == Stage::ForkHeader,
            old(self).forks_left > 0,
            header@.len() == 16,
        ensures
            final(self).wf(),
            fork_started(*old(self), *final(self), header@, r),
    {
        let h = parse_fork_header(header);
        let plan = plan_fork(&h, self.expected);
        assert(fork_plan(h, self.expected) == header_plan(header@, self.expected));
        if let Err(e) = plan {
            return Err(e);
        }
        self.forks_left = self.forks_left - 1;
        match plan {
            Err(e) => Err(e),
            Ok(ForkPlan::Skip(n)) => {
                self.target = n;
                self.read = 0;
                if n == 0 {
                    self.after_fork();
                } else {
                    self.stage = Stage::Skip;
                }
                Ok(None)
            },
            Ok(ForkPlan::Data(n)) => {
                self.data = Vec::new();
                self.data_seen = true;
                self.data_declared = h.size;
                self.data_target = n;
                self.data_until_eof = false;
                self.target = n;
                self.read = 0;
                self.last_pct = 0;
                if n == 0 {
                    self.stage = if self.forks_left == 0 { Stage::Done } else { Stage::ForkHeader };
                } else {
                    self.stage = Stage::DataExact;
                }
                Ok(None)
            },
            Ok(ForkPlan::DataUntilEof) => {
                self.data = Vec::new();
                self.data_seen = true;
                self.data_declared = h.size;
                self.data_target = 0;
                self.data_until_eof = true;
                self.target = 0xffff_ffff;
                self.read = 0;
                self.last_pct = 0;
                self.stage = Stage::DataUntilEof;
                Ok(None)
            },
        }
    }

    /// The stage that follows a finished fork.
    fn after_fork(&mut self)
        ensures
            final(self).stage == if old(self).forks_left == 0 { Stage::Done } else { Stage::ForkHeader },
            final(self).forks_left == old(self).forks_left,
            final(self).target == old(self).target,
            final(self).read == old(self).read,
            final(self).last_pct == old(self).last_pct,
            final(self).data == old(self).data,
            final(self).expected == old(self).expected,
            final(self).data_seen == old(self).data_seen,
            final(self).data_declared == old(self).data_declared,
            final(self).data_target == old(self).data_target,
            final(self).data_until_eof == old(self).data_until_eof,
    {
        self.stage = if self.forks_left == 0 { Stage::Done } else { Stage::ForkHeader };
    }

    /// Takes the bytes that `need` asked for. Returns the progress to report,
    /// as (bytes read, total), when one is due.
    pub fn feed(&mut self, bytes: &[u8]) -> (r: Result<Option<(u32, u32)>, TransferError>)
        requires
            old(self).wf(),
            old(self).stage() != Stage::Done,
            old(self).stage() == Stage::Header ==> bytes@.len() == FILP_HEADER_SIZE,
            old(self).stage() == Stage::ForkHeader ==> bytes@.len() == FORK_HEADER_SIZE,
            old(self).stage() == Stage::Skip || old(self).stage() == Stage::DataExact ==> 0 < bytes@.len() <= old(self).remaining(),
            old(self).stage() == Stage::DataUntilEof ==> 0 < bytes@.len() <= CHUNK_SIZE,
        ensures
            final(self).wf(),
            final(self).expected() == old(self).expected(),
            old(self).stage() == Stage::Header && !(bytes@.subrange(0, 4) =~= filp_magic()) ==> r
                == Err::<Option<(u32, u32)>, TransferError>(TransferError::BadMagic) && *final(self) == *old(self),
            old(self).stage() == Stage::Header && bytes@.subrange(0, 4) =~= filp_magic() ==> {
                &&& r == Ok::<Option<(u32, u32)>, TransferError>(None)
                &&& final(self).forks_left() == u16_at(bytes@, 22)
                &&& final(self).stage() == next_stage(u16_at(bytes@, 22))
                &&& final(self).data() == old(self).data()
                &&& final(self).data_seen() == old(self).data_seen()
            },
            old(self).stage() == Stage::ForkHeader ==> fork_started(*old(self), *final(self), bytes@, r),
            old(self).stage() == Stage::Skip ==> {
                &&& r == Ok::<Option<(u32, u32)>, TransferError>(None)
                &&& final(self).data() == old(self).data()
                &&& same_data_fork(*old(self), *final(self))
                &&& final(self).fork_read() == old(self).fork_read() + bytes@.len()
                &&& final(self).fork_target() == old(self).fork_target()
                &&& final(self).stage() == if final(self).fork_read() < final(self).fork_target() {
                    Stage::Skip
                } else {
                    next_stage(old(self).forks_left())
                }
            },
            old(self).stage() == Stage::DataExact ==> {
                let n = old(self).fork_read() + bytes@.len();
                let due = report_due(n as nat, old(self).fork_target() as nat, old(self).last_percent() as nat);
                &&& r == Ok::<Option<(u32, u32)>, TransferError>(if due { Some((n as u32, old(self).fork_target())) } else { None })
                &&& final(self).data() == old(self).data() + bytes@
                &&& same_data_fork(*old(self), *final(self))
                &&& final(self).fork_read() == n
                &&& final(self).fork_target() == old(self).fork_target()
                &&& final(self).last_percent() == if due {
                    percent(n as nat, old(self).fork_target() as nat) as u32
                } else {
                    old(self).last_percent()
                }
                &&& final(self).stage() == if n < old(self).fork_target() {
                    Stage::DataExact
                } else {
                    next_stage(old(self).forks_left())
                }
            },
            old(self).stage() == Stage::DataUntilEof ==> if old(self).fork_read() + bytes@.len() > u32::MAX {
                r == Err::<Option<(u32, u32)>, TransferError>(TransferError::TooLarge) && *final(self) == *old(self)
            } else {
                let n = (old(self).fork_read() + bytes@.len()) as u32;
                &&& r == Ok::<Option<(u32, u32)>, TransferError>(if n % 1048576 == 0 || n < 1048576 { Some((n, n)) } else { None })
                &&& final(self).data() == old(self).data() + bytes@
                &&& same_data_fork(*old(self), *final(self))
                &&& final(self).fork_read() == n
                &&& final(self).stage() == Stage::DataUntilEof
            },
    {
        match self.stage {
            Stage::Header => {
                if !(bytes[0] == 0x46u8 && bytes[1] == 0x49u8 && bytes[2] == 0x4cu8 && bytes[3] == 0x50u8) {
                    proof {
                        if bytes@.subrange(0, 4) =~= filp_magic() {
                            assert(bytes@.subrange(0, 4)[0] == bytes@[0]);
                            assert(bytes@.subrange(0, 4)[1] == bytes@[1]);
                            assert(bytes@.subrange(0, 4)[2] == bytes@[2]);
                            assert(bytes@.subrange(0, 4)[3] == bytes@[3]);
                        }
                    }
                    return Err(TransferError::BadMagic);
                }
                assert(bytes@.subrange(0, 4) =~= filp_magic());
                self.forks_left = read_u16(bytes, 22);
                self.stage = if self.forks_left == 0 { Stage::Done } else { Stage::ForkHeader };
                Ok(None)
            },
            Stage::ForkHeader => self.start_fork(bytes),
            Stage::Skip => {
                self.read = self.read + bytes.len() as u32;
                if self.read == self.target {
                    self.after_fork();
                }
                Ok(None)
            },
            Stage::DataExact => {
                crate::wire::push_all(&mut self.data, bytes);
                self.read = self.read + bytes.len() as u32;
                let (due, pct) = progress_step(self.read, self.target, self.last_pct);
                self.last_pct = pct;
                let report = if due { Some((self.read, self.target)) } else { None };
                if self.read == self.target {
                    self.after_fork();
                }
                Ok(report)
            },
            Stage::DataUntilEof => {
                if self.read as u64 + bytes.len() as u64 > 0xffff_ffffu64 {
                    return Err(TransferError::TooLarge);
                }
                crate::wire::push_all(&mut self.data, bytes);
                self.read = self.read + bytes.len() as u32;
                let small = self.read < 1048576;
                let report = if self.read % 1048576 == 0 || small { Some((self.read, self.read)) } else { None };
                Ok(report)
            },
            Stage::Done => Ok(None),
        }
    }

    /// The stream ended. Reading until the end finishes the DATA fork there;
    /// anywhere else the transfer is cut short.
    pub fn feed_eof(&mut self) -> (r: Result<(), TransferError>)
        requires
            old(self).wf(),
        ensures
            final(self).wf(),
            final(self).data() == old(self).data(),
            final(self).expected() == old(self).expected(),
            final(self).data_seen() == old(self).data_seen(),
            final(self).data_declared() == old(self).data_declared(),
            final(self).data_target() == old(self).data_target(),
            final(self).data_until_eof() == old(self).data_until_eof(),
            old(self).stage() == Stage::DataUntilEof || old(self).stage() == Stage::Done ==> r is Ok && final(self).stage() == Stage::Done,
            old(self).stage() == Stage::DataExact ==> r == Err::<(), TransferError>(TransferError::EarlyEof(old(self).data().len() as u32)),
            old(self).stage() == Stage::Header || old(self).stage() == Stage::ForkHeader || old(self).stage() == Stage::Skip
                ==> r == Err::<(), TransferError>(TransferError::Truncated),
    {
        match self.stage {
            Stage::DataUntilEof => {
                self.stage = Stage::Done;
                self.target = self.read;
                Ok(())
            },
            Stage::Done => Ok(()),
            Stage::DataExact => Err(TransferError::EarlyEof(self.read)),
            _ => Err(TransferError::Truncated),
        }
    }

    /// The file data of a finished download.
    pub fn into_data(self) -> (r: Vec<u8>)
        ensures
            r@ == self.data(),
    {
        self.data
    }
}

/// A finished download hands back exactly the size it read to; reading to the
/// end of the stream happens only when the DATA fork declared zero and the
/// announced size was suspiciously large, and then every byte streamed is kept.
pub proof fn lemma_download_length(d: Download)
    requires
        d.wf(),
        d.stage() == Stage::Done,
        d.data_seen(),
    ensures
        !d.data_until_eof() ==> d.data().len() == d.data_target(),
        !d.data_until_eof() ==> d.data_target() == if d.data_declared() == 0 && d.expected() > 0 {
            d.expected()
        } else {
            d.data_declared()
        },
        d.data_until_eof() ==> d.data_declared() == 0 && d.expected() > SUSPICIOUS_SIZE,
{
}

} // verus!
