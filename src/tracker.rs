//! The tracker protocol: the `HTRK` handshake and the batched listing of
//! servers that follows it.

use vstd::prelude::*;
use vstd::string::StrSliceExecFns;
use vstd::utf8::encode_utf8;
use crate::text::{decimal, lemma_dot_encoding, lemma_encode_concat, mac_roman, mac_roman_or_lossy, push_decimal, string_from_utf8, utf8_lossy};
use crate::wire::{copy_range, read_u16, u16_at};

verus! {

/// The port trackers listen on by default.
pub const DEFAULT_TRACKER_PORT: u16 = 5498;

/// A listing never spans more batches than this.
pub const MAX_BATCHES: u32 = 100;

/// A server as a tracker lists it.
#[derive(Debug, Clone)]
pub struct TrackerServer {
    pub ip: [u8; 4],
    pub port: u16,
    pub users: u16,
    pub name: Option<String>,
    pub description: Option<String>,
}

/// What the tracker handshake can fail with.
#[derive(Clone, Copy, Debug, PartialEq, Eq, Structural)]
pub enum TrackerError {
    /// The reply does not start with `HTRK`.
    BadMagic,
}

/// The tracker's client for one listing.
pub struct TrackerClient;

/// A listed server as the protocol sees it.
pub struct ServerModel {
    pub ip: Seq<u8>,
    pub port: u16,
    pub users: u16,
    pub name: Option<Seq<char>>,
    pub description: Option<Seq<char>>,
}

/// The model of a listed server.
pub open spec fn server_view(s: TrackerServer) -> ServerModel {
    ServerModel { ip: s.ip@, port: s.port, users: s.users, name: text_view(s.name), description: text_view(s.description) }
}

/// An IPv4 address in dotted decimal form.
pub open spec fn dotted(ip: Seq<u8>) -> Seq<char> {
    decimal(ip[0] as nat) + seq!['.'] + decimal(ip[1] as nat) + seq!['.'] + decimal(ip[2] as nat) + seq!['.']
        + decimal(ip[3] as nat)
}

impl TrackerServer {
    /// The server's address in dotted decimal form.
    pub fn address(&self) -> (r: String)
        ensures
            r@ == dotted(self.ip@),
    {
        let ghost ip = self.ip@;
        let mut b: Vec<u8> = Vec::new();
        push_decimal(&mut b, self.ip[0] as u16);
        b.push(0x2eu8);
        push_decimal(&mut b, self.ip[1] as u16);
        b.push(0x2eu8);
        push_decimal(&mut b, self.ip[2] as u16);
        b.push(0x2eu8);
        push_decimal(&mut b, self.ip[3] as u16);
        proof {
            let d0 = decimal(ip[0] as nat);
            let d1 = decimal(ip[1] as nat);
            let d2 = decimal(ip[2] as nat);
            let d3 = decimal(ip[3] as nat);
            let dot = seq!['.'];
            lemma_dot_encoding();
            lemma_encode_concat(d0, dot);
            lemma_encode_concat(d0 + dot, d1);
            lemma_encode_concat(d0 + dot + d1, dot);
            lemma_encode_concat(d0 + dot + d1 + dot, d2);
            lemma_encode_concat(d0 + dot + d1 + dot + d2, dot);
            lemma_encode_concat(d0 + dot + d1 + dot + d2 + dot, d3);
            assert(b@ =~= encode_utf8(dotted(ip)));
            vstd::utf8::encode_utf8_valid_utf8(dotted(ip));
            vstd::utf8::encode_utf8_decode_utf8(dotted(ip));
        }
        match string_from_utf8(b) {
            Some(s) => s,
            None => String::new(),
        }
    }
}

/// The view of an optional string.
pub open spec fn text_view(t: Option<String>) -> Option<Seq<char>> {
    match t {
        Some(s) => Some(s@),
        None => None,
    }
}

/// A text, or none when it is empty.
pub open spec fn non_empty(t: Seq<char>) -> Option<Seq<char>> {
    if t.len() == 0 { None } else { Some(t) }
}

/// A placeholder entry: its name is a separator.
pub open spec fn is_placeholder(e: ServerModel) -> bool {
    match e.name {
        Some(n) => is_separator(n),
        None => false,
    }
}

/// The text of a tracker string: Mac Roman, or UTF-8 with replacements where
/// Mac Roman decoding reports an error; empty stays empty.
pub open spec fn tracker_text(b: Seq<u8>) -> Seq<char> {
    if b.len() == 0 {
        Seq::empty()
    } else if mac_roman(b).1 {
        utf8_lossy(b)
    } else {
        mac_roman(b).0
    }
}

/// A placeholder entry: a name of three or more dashes.
pub open spec fn is_separator(name: Seq<char>) -> bool {
    name.len() >= 3 && forall|i: int| 0 <= i < name.len() ==> name[i] == '-'
}

/// The entry at `off`, and where the next one starts: address, port, user
/// count, two reserved bytes, counted name, counted description.
pub open spec fn entry_at(s: Seq<u8>, off: int) -> Option<(ServerModel, int)> {
    if off + 11 > s.len() {
        None
    } else {
        let n0 = off + 11;
        let nl = s[off + 10] as int;
        if n0 + nl + 1 > s.len() {
            None
        } else {
            let d0 = n0 + nl + 1;
            let dl = s[n0 + nl] as int;
            if d0 + dl > s.len() {
                None
            } else {
                Some((
                    ServerModel {
                        ip: s.subrange(off, off + 4),
                        port: u16_at(s, off + 4),
                        users: u16_at(s, off + 6),
                        name: non_empty(tracker_text(s.subrange(n0, n0 + nl))),
                        description: non_empty(tracker_text(s.subrange(d0, d0 + dl))),
                    },
                    d0 + dl,
                ))
            }
        }
    }
}

/// The `n` entries from `off` without the placeholders, and where they end;
/// `None` when `s` ends first.
pub open spec fn batch_entries(s: Seq<u8>, off: int, n: nat) -> Option<(Seq<ServerModel>, int)>
    decreases n,
{
    if n == 0 {
        Some((Seq::empty(), off))
    } else {
        match entry_at(s, off) {
            None => None,
            Some((e, next)) => match batch_entries(s, next, (n - 1) as nat) {
                None => None,
                Some((rest, end)) => Some((
                    if is_placeholder(e) { rest } else { seq![e] + rest },
                    end,
                )),
            },
        }
    }
}

/// The servers of the batches from `off`, when `parsed` entries were read in
/// `batches` earlier batches and `expected` were announced; `None` when `s`
/// ends before the listing does. A batch header holds a type, a length, the
/// total count (which sets `expected` while it is zero) and the count in the
/// batch. The listing ends once the announced entries are read, or after
/// 100 batches.
pub open spec fn listing_from(s: Seq<u8>, off: int, parsed: nat, expected: nat, batches: nat) -> Option<Seq<ServerModel>>
    decreases 100 - batches,
{
    if batches >= 100 {
        Some(Seq::empty())
    } else if off + 8 > s.len() {
        None
    } else {
        let exp: nat = if expected == 0 { u16_at(s, off + 4) as nat } else { expected };
        let count = u16_at(s, off + 6) as nat;
        match batch_entries(s, off + 8, count) {
            None => None,
            Some((es, end)) => if parsed + count >= exp || batches + 1 >= 100 {
                Some(es)
            } else {
                match listing_from(s, end, parsed + count, exp, batches + 1) {
                    None => None,
                    Some(rest) => Some(es + rest),
                }
            },
        }
    }
}

/// The servers a listing holds, once `s` holds all of it.
pub open spec fn tracker_listing(s: Seq<u8>) -> Option<Seq<ServerModel>> {
    listing_from(s, 0, 0, 0, 0)
}

/// The views of a list of servers.
pub open spec fn servers_view(v: Seq<TrackerServer>) -> Seq<ServerModel> {
    v.map_values(|s: TrackerServer| server_view(s))
}

/// The bytes `HTRK`, then version 1.
pub open spec fn tracker_hello() -> Seq<u8> {
    seq![0x48u8, 0x54u8, 0x52u8, 0x4bu8, 0u8, 1u8]
}

/// Decodes a tracker string.
fn decode_text(s: &[u8], from: usize, to: usize) -> (r: String)
    requires
        from <= to <= s@.len(),
    ensures
        r@ == tracker_text(s@.subrange(from as int, to as int)),
{
    if from == to {
        return String::new();
    }
    let b = copy_range(s, from, to);
    mac_roman_or_lossy(b.as_slice())
}

/// Decodes a tracker string, or none when it is empty.
fn optional_text(s: &[u8], from: usize, to: usize) -> (r: Option<String>)
    requires
        from <= to <= s@.len(),
    ensures
        text_view(r) == non_empty(tracker_text(s@.subrange(from as int, to as int))),
{
    let t = decode_text(s, from, to);
    if t.as_str().is_empty() {
        None
    } else {
        Some(t)
    }
}

/// Whether a name is a placeholder of three or more dashes.
pub fn name_is_separator(name: &String) -> (r: bool)
    ensures
        r == is_separator(name@),
{
    let s = name.as_str();
    let n = s.unicode_len();
    if n < 3 {
        return false;
    }
    let mut i: usize = 0;
    while i < n
        invariant
            n == name@.len(),
            s@ == name@,
            i <= n,
            forall|k: int| 0 <= k < i ==> name@[k] == '-',
        decreases n - i,
    {
        if s.get_char(i) != '-' {
            return false;
        }
        i = i + 1;
    }
    true
}

impl TrackerClient {
    /// The six bytes that open a tracker connection.
    pub fn handshake() -> (r: Vec<u8>)
        ensures
            r@ == tracker_hello(),
    {
        let r = vec![0x48u8, 0x54u8, 0x52u8, 0x4bu8, 0u8, 1u8];
        assert(r@ =~= tracker_hello());
        r
    }

    /// Checks the tracker's 6-byte reply, `HTRK` and a version, and returns
    /// the version.
    pub fn check_reply(reply: &[u8]) -> (r: Result<u16, TrackerError>)
        requires
            reply@.len() == 6,
        ensures
            reply@.subrange(0, 4) =~= seq![0x48u8, 0x54u8, 0x52u8, 0x4bu8] ==> r == Ok::<u16, TrackerError>(u16_at(reply@, 4)),
            !(reply@.subrange(0, 4) =~= seq![0x48u8, 0x54u8, 0x52u8, 0x4bu8]) ==> r == Err::<u16, TrackerError>(TrackerError::BadMagic),
    {
        if reply[0] == 0x48u8 && reply[1] == 0x54u8 && reply[2] == 0x52u8 && reply[3] == 0x4bu8 {
            assert(reply@.subrange(0, 4) =~= seq![0x48u8, 0x54u8, 0x52u8, 0x4bu8]);
            Ok(read_u16(reply, 4))
        } else {
            proof {
                if reply@.subrange(0, 4) =~= seq![0x48u8, 0x54u8, 0x52u8, 0x4bu8] {
                    assert(reply@.subrange(0, 4)[0] == reply@[0]);
                    assert(reply@.subrange(0, 4)[1] == reply@[1]);
                    assert(reply@.subrange(0, 4)[2] == reply@[2]);
                    assert(reply@.subrange(0, 4)[3] == reply@[3]);
                }
            }
            Err(TrackerError::BadMagic)
        }
    }

    /// Reads the entry at `off`.
    fn read_entry(s: &[u8], off: usize) -> (r: Option<(TrackerServer, usize)>)
        requires
            off <= s@.len(),
        ensures
            match r {
                Some((e, next)) => entry_at(s@, off as int) == Some((server_view(e), next as int)) && next <= s@.len(),
                None => entry_at(s@, off as int) is None,
            },
    {
        if s.len() - off < 11 {
            return None;
        }
        let n0 = off + 11;
        let nl = s[off + 10] as usize;
        if s.len() - n0 < nl + 1 {
            return None;
        }
        let d0 = n0 + nl + 1;
        let dl = s[n0 + nl] as usize;
        if s.len() - d0 < dl {
            return None;
        }
        let ip: [u8; 4] = [s[off], s[off + 1], s[off + 2], s[off + 3]];
        assert(ip@ =~= s@.subrange(off as int, off + 4));
        let e = TrackerServer {
            ip,
            port: read_u16(s, off + 4),
            users: read_u16(s, off + 6),
            name: optional_text(s, n0, n0 + nl),
            description: optional_text(s, d0, d0 + dl),
        };
        Some((e, d0 + dl))
    }

    /// The servers of a complete listing in `buf`, without placeholder
    /// entries; `None` while `buf` does not yet hold the whole listing.
    pub fn parse_listing(buf: &[u8]) -> (r: Option<Vec<TrackerServer>>)
        ensures
            match r {
                Some(v) => tracker_listing(buf@) == Some(servers_view(v@)),
                None => tracker_listing(buf@) is None,
            },
    {
        let mut out: Vec<TrackerServer> = Vec::new();
        let mut off: usize = 0;
        let mut parsed: u64 = 0;
        let mut expected: u64 = 0;
        let mut batches: u32 = 0;
        while batches < MAX_BATCHES
            invariant_except_break
                batches < 100,
                off <= buf@.len(),
                parsed <= 65535 * batches,
                expected <= 65535,
                tracker_listing(buf@) == match listing_from(buf@, off as int, parsed as nat, expected as nat, batches as nat) {
                    Some(rest) => Some(servers_view(out@) + rest),
                    None => None::<Seq<ServerModel>>,
                },
            ensures
                tracker_listing(buf@) == Some(servers_view(out@)),
            decreases 100 - batches,
        {
            if buf.len() - off < 8 {
                return None;
            }
            let total = read_u16(buf, off + 4) as u64;
            let count = read_u16(buf, off + 6);
            let exp = if expected == 0 { total } else { expected };
            let ghost before = servers_view(out@);
            let ghost start = off + 8;
            assert(exp as nat == if expected == 0 { u16_at(buf@, off + 4) as nat } else { expected as nat });
            let mut cur: usize = off + 8;
            let mut k: u16 = 0;
            while k < count
                invariant
                    start <= cur <= buf@.len(),
                    k <= count,
                    batch_entries(buf@, start as int, count as nat) == match batch_entries(buf@, cur as int, (count - k) as nat) {
                        Some((rest, end)) => Some((servers_view(out@).subrange(before.len() as int, servers_view(out@).len() as int) + rest, end)),
                        None => None::<(Seq<ServerModel>, int)>,
                    },
                    servers_view(out@).subrange(0, before.len() as int) == before,
                    before.len() <= servers_view(out@).len(),
                    start == off + 8,
                    off + 8 <= buf@.len(),
                    batches < 100,
                    count == u16_at(buf@, off + 6),
                    tracker_listing(buf@) == match listing_from(buf@, off as int, parsed as nat, expected as nat, batches as nat) {
                        Some(rest) => Some(before + rest),
                        None => None::<Seq<ServerModel>>,
                    },
                decreases count - k,
            {
                match TrackerClient::read_entry(buf, cur) {
                    None => {
                        proof {
                            assert(batch_entries(buf@, cur as int, (count - k) as nat) is None);
                            assert(batch_entries(buf@, off + 8, count as nat) is None);
                            assert(listing_from(buf@, off as int, parsed as nat, expected as nat, batches as nat) is None);
                        }
                        return None;
                    },
                    Some((e, next)) => {
                        let ghost added = servers_view(out@).subrange(before.len() as int, servers_view(out@).len() as int);
                        let sep = match &e.name {
                            Some(n) => name_is_separator(n),
                            None => false,
                        };
                        if !sep {
                            let ghost ev = server_view(e);
                            assert(servers_view(out@.push(e)) =~= servers_view(out@).push(ev));
                            out.push(e);
                            assert(servers_view(out@).subrange(before.len() as int, servers_view(out@).len() as int) =~= added.push(ev));
                            assert(servers_view(out@).subrange(0, before.len() as int) =~= before);
                            proof {
                                match batch_entries(buf@, next as int, (count - k - 1) as nat) {
                                    Some((rest, end)) => {
                                        assert(added + (seq![ev] + rest) =~= added.push(ev) + rest);
                                    },
                                    None => {},
                                }
                            }
                        }
                        cur = next;
                        k = k + 1;
                    },
                }
            }
            proof {
                let added = servers_view(out@).subrange(before.len() as int, servers_view(out@).len() as int);
                assert(added + Seq::<ServerModel>::empty() =~= added);
                assert(servers_view(out@) =~= before + added);
            }
            let new_parsed = parsed + count as u64;
            let ghost added = servers_view(out@).subrange(before.len() as int, servers_view(out@).len() as int);
            assert(batch_entries(buf@, off + 8, count as nat) == Some((added, cur as int)));
            if new_parsed >= exp || batches + 1 >= MAX_BATCHES {
                assert(listing_from(buf@, off as int, parsed as nat, expected as nat, batches as nat) == Some(added));
                break;
            }
            proof {
                match listing_from(buf@, cur as int, new_parsed as nat, exp as nat, (batches + 1) as nat) {
                    Some(rest) => {
                        assert(before + (added + rest) =~= servers_view(out@) + rest);
                    },
                    None => {},
                }
            }
            off = cur;
            batches = batches + 1;
            parsed = new_parsed;
            expected = exp;
        }
        assert(servers_view(out@) + Seq::<ServerModel>::empty() =~= servers_view(out@));
        Some(out)
    }
}

} // verus!
