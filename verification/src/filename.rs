//! The names under which frames lie in the shared Drive folder.
//!
//! ```text
//! h_<sid>_<seq>     session opener
//! c2r_<sid>_<seq>   frame from the client to the relay
//! r2c_<sid>_<seq>   frame from the relay to the client
//! ```
//!
//! `<sid>` is the session identifier in lower-case unpadded base32, `<seq>`
//! the sequence number in decimal.
use vstd::prelude::*;

use crate::frame;
use crate::frame::SessionId;
use crate::numeral;
use crate::text;

verus! {

/// Which way a frame travels.
#[derive(Debug, Clone, Copy, PartialEq, Eq, Structural)]
pub enum Direction {
    ClientToRelay,
    RelayToClient,
}

/// What kind of file a name denotes.
#[derive(Debug, Clone, Copy, PartialEq, Eq, Structural)]
pub enum FilenameKind {
    Hello,
    Frame(Direction),
}

/// The parts of a name.
#[derive(Debug, Clone, Copy, PartialEq, Eq)]
pub struct DriveFilename {
    pub kind: FilenameKind,
    pub sid: SessionId,
    pub seq: u64,
}

/// The base32 character of a digit.
pub open spec fn b32_char(d: nat) -> char {
    if d < 26 {
        ('a' as u8 + d) as u8 as char
    } else {
        ('2' as u8 + (d - 26)) as u8 as char
    }
}

/// The `width` low-order base32 digits of `n`, most significant first.
pub open spec fn b32_digits(n: nat, width: nat) -> Seq<char>
    decreases width,
{
    if width == 0 {
        Seq::empty()
    } else {
        b32_digits(n / 32, (width - 1) as nat).push(b32_char(n % 32))
    }
}

/// A session identifier in base32: its 128 bits and two zero bits, five to a
/// character.
pub open spec fn sid_text(sid: Seq<u8>) -> Seq<char> {
    b32_digits(frame::be_value(sid) * 4, 26)
}

/// The prefix of a kind of file.
pub open spec fn prefix(kind: FilenameKind) -> Seq<char> {
    match kind {
        FilenameKind::Hello => seq!['h', '_'],
        FilenameKind::Frame(Direction::ClientToRelay) => seq!['c', '2', 'r', '_'],
        FilenameKind::Frame(Direction::RelayToClient) => seq!['r', '2', 'c', '_'],
    }
}

/// The name of a file.
pub open spec fn name_text(kind: FilenameKind, sid: Seq<u8>, seq: u64) -> Seq<char> {
    prefix(kind) + sid_text(sid) + seq!['_'] + numeral::decimal(seq as nat)
}

impl DriveFilename {
    /// The name that the parts make up.
    pub open spec fn text(&self) -> Seq<char> {
        name_text(self.kind, self.sid@, self.seq)
    }

    /// Writes the name.
    pub fn format(&self) -> (s: String)
        ensures
            s@ == self.text(),
    {
        let mut s = String::new();
        match self.kind {
            FilenameKind::Hello => {
                s.push('h');
                s.push('_');
            },
            FilenameKind::Frame(Direction::ClientToRelay) => {
                s.push('c');
                s.push('2');
                s.push('r');
                s.push('_');
            },
            FilenameKind::Frame(Direction::RelayToClient) => {
                s.push('r');
                s.push('2');
                s.push('c');
                s.push('_');
            },
        }
        proof {
            assert(s@ =~= prefix(self.kind));
        }
        s.append(write_sid(&self.sid).as_str());
        s.push('_');
        s.append(numeral::to_decimal(self.seq).as_str());
        proof {
            assert(s@ =~= self.text());
        }
        s
    }
}

/// The name of an in-session frame.
pub fn frame_filename(direction: Direction, sid: SessionId, seq: u64) -> (s: String)
    ensures
        s@ == name_text(FilenameKind::Frame(direction), sid@, seq),
{
    DriveFilename { kind: FilenameKind::Frame(direction), sid, seq }.format()
}

/// 32 to the power of `width`.
pub open spec fn b32_range(width: nat) -> nat
    decreases width,
{
    if width == 0 {
        1
    } else {
        32 * b32_range((width - 1) as nat)
    }
}

/// The digit of a base32 character.
pub open spec fn b32_digit(c: char) -> Option<nat> {
    if 'a' <= c <= 'z' {
        Some((c as nat - 'a' as nat) as nat)
    } else if '2' <= c <= '7' {
        Some((c as nat - '2' as nat + 26) as nat)
    } else {
        None
    }
}

/// The number that base32 characters denote.
pub open spec fn b32_value(s: Seq<char>) -> nat
    decreases s.len(),
{
    if s.len() == 0 {
        0
    } else {
        b32_value(s.drop_last()) * 32 + b32_digit(s.last())->0
    }
}

/// All characters are base32 characters.
pub open spec fn all_b32(s: Seq<char>) -> bool {
    forall|i: int| 0 <= i < s.len() ==> b32_digit(#[trigger] s[i]) is Some
}

proof fn lemma_b32_char_digit(d: nat)
    requires
        d < 32,
    ensures
        b32_digit(b32_char(d)) == Some(d),
{
}

proof fn lemma_b32_digits(n: nat, width: nat)
    ensures
        b32_digits(n, width).len() == width,
        all_b32(b32_digits(n, width)),
        n < b32_range(width) ==> b32_value(b32_digits(n, width)) == n,
    decreases width,
{
    if width > 0 {
        let before = b32_digits(n / 32, (width - 1) as nat);
        let s = b32_digits(n, width);
        lemma_b32_digits(n / 32, (width - 1) as nat);
        lemma_b32_char_digit(n % 32);
        assert(s.drop_last() =~= before);
        assert forall|i: int| 0 <= i < s.len() implies b32_digit(#[trigger] s[i]) is Some by {
            if i < before.len() {
                assert(b32_digit(before[i]) is Some);
            }
        }
    }
}

proof fn lemma_b32_value(s: Seq<char>)
    requires
        all_b32(s),
    ensures
        b32_value(s) < b32_range(s.len()),
        b32_digits(b32_value(s), s.len()) == s,
    decreases s.len(),
{
    if s.len() > 0 {
        assert forall|i: int| 0 <= i < s.drop_last().len() implies b32_digit(
            #[trigger] s.drop_last()[i],
        ) is Some by {
            assert(b32_digit(s[i]) is Some);
        }
        lemma_b32_value(s.drop_last());
        assert(b32_digit(s[s.len() - 1]) is Some);
        let d = b32_digit(s.last())->0;
        let v = b32_value(s);
        assert(v / 32 == b32_value(s.drop_last()) && v % 32 == d);
        assert(b32_char(d) == s.last());
        assert(s.drop_last().push(s.last()) =~= s);
    }
}

proof fn lemma_ranges()
    ensures
        b32_range(25) * 8 == frame::byte_range(16),
        frame::byte_range(16) == 0x1_0000_0000_0000_0000_0000_0000_0000_0000,
        b32_range(26) == b32_range(25) * 32,
{
    reveal_with_fuel(frame::byte_range, 17);
    reveal_with_fuel(b32_range, 27);
}

fn to_b32_char(d: u8) -> (c: char)
    requires
        d < 32,
    ensures
        c == b32_char(d as nat),
{
    if d < 26 {
        (97u8 + d) as char
    } else {
        (50u8 + (d - 26)) as char
    }
}

fn from_b32_char(c: char) -> (r: Option<u8>)
    ensures
        match r {
            Some(d) => b32_digit(c) == Some(d as nat) && d < 32,
            None => b32_digit(c) is None,
        },
{
    if 'a' <= c && c <= 'z' {
        Some((c as u8) - 97)
    } else if '2' <= c && c <= '7' {
        Some((c as u8) - 50 + 26)
    } else {
        None
    }
}

fn sid_number(sid: &SessionId) -> (n: u128)
    ensures
        n == frame::be_value(sid@),
{
    let mut n: u128 = 0;
    let mut i: usize = 0;
    proof {
        lemma_ranges();
    }
    while i < 16
        invariant
            i <= 16,
            sid@.len() == 16,
            n == frame::be_value(sid@.take(i as int)),
            n < frame::byte_range(i as nat),
            frame::byte_range(16) == 0x1_0000_0000_0000_0000_0000_0000_0000_0000,
        decreases 16 - i,
    {
        proof {
            assert(sid@.take(i + 1).drop_last() =~= sid@.take(i as int));
            frame::lemma_be_value_bound(sid@.take(i + 1));
            lemma_byte_range_monotone((i + 1) as nat, 16);
        }
        n = n * 256 + sid[i] as u128;
        i = i + 1;
    }
    proof {
        assert(sid@.take(16) =~= sid@);
    }
    n
}

proof fn lemma_byte_range_monotone(a: nat, b: nat)
    requires
        a <= b,
    ensures
        frame::byte_range(a) <= frame::byte_range(b),
    decreases b - a,
{
    if a < b {
        lemma_byte_range_monotone(a, (b - 1) as nat);
    }
}

proof fn lemma_b32_range_monotone(a: nat, b: nat)
    requires
        a <= b,
    ensures
        b32_range(a) <= b32_range(b),
    decreases b - a,
{
    if a < b {
        lemma_b32_range_monotone(a, (b - 1) as nat);
    }
}

fn number_sid(n: u128) -> (sid: SessionId)
    ensures
        frame::be_value(sid@) == n,
{
    let mut sid: SessionId = [0u8;16];
    let mut rest: u128 = n;
    let mut i: usize = 16;
    proof {
        lemma_ranges();
        assert(sid@.skip(16) =~= frame::be_bytes(0, 0));
    }
    while 0 < i
        invariant
            i <= 16,
            sid@.len() == 16,
            rest < frame::byte_range(i as nat),
            frame::be_bytes(n as nat, 16) == frame::be_bytes(rest as nat, i as nat) + sid@.skip(
                i as int,
            ),
        decreases i,
    {
        let b: u8 = (rest % 256) as u8;
        let ghost tail = sid@.skip(i as int);
        sid[i - 1] = b;
        proof {
            assert(sid@.skip(i - 1) =~= seq![b] + tail);
            assert(frame::be_bytes(rest as nat, i as nat) + tail =~= frame::be_bytes(
                (rest / 256) as nat,
                (i - 1) as nat,
            ) + (seq![b] + tail));
        }
        rest = rest / 256;
        i = i - 1;
    }
    proof {
        assert(sid@.skip(0) =~= sid@);
        assert(frame::be_bytes(rest as nat, 0) + sid@ =~= sid@);
        frame::lemma_be_value_of_bytes(n as nat, 16);
    }
    sid
}

fn push_b32(n: u128, width: usize) -> (s: String)
    ensures
        s@ == b32_digits(n as nat, width as nat),
    decreases width,
{
    if width == 0 {
        String::new()
    } else {
        let mut s = push_b32(n / 32, width - 1);
        s.push(to_b32_char((n % 32) as u8));
        s
    }
}

/// Writes a session identifier in base32.
pub fn write_sid(sid: &SessionId) -> (s: String)
    ensures
        s@ == sid_text(sid@),
{
    let n = sid_number(sid);
    let mut s = push_b32(n / 8, 25);
    s.push(to_b32_char((n % 8) as u8 * 4));
    proof {
        let m = n as nat * 4;
        assert(m / 32 == n as nat / 8);
        assert(m % 32 == (n as nat % 8) * 4);
    }
    s
}

/// Reads a session identifier from base32: only what `write_sid` writes for it.
pub fn read_sid(v: &Vec<char>, from: usize) -> (r: Option<SessionId>)
    requires
        from + 26 <= v@.len(),
    ensures
        match r {
            Some(sid) => sid_text(sid@) == v@.subrange(from as int, from + 26),
            None => forall|sid: SessionId|
                #[trigger] sid_text(sid@) != v@.subrange(from as int, from + 26),
        },
{
    let ghost w = v@.subrange(from as int, from + 26);
    let len: usize = v.len();
    let mut n: u128 = 0;
    let mut i: usize = 0;
    proof {
        lemma_ranges();
    }
    while i < 25
        invariant
            i <= 25,
            len == v@.len(),
            from + 26 <= len,
            w == v@.subrange(from as int, from + 26),
            all_b32(w.take(i as int)),
            n == b32_value(w.take(i as int)),
            n < b32_range(i as nat),
            b32_range(25) * 8 == 0x1_0000_0000_0000_0000_0000_0000_0000_0000,
        decreases 25 - i,
    {
        match from_b32_char(v[from + i]) {
            Some(d) => {
                proof {
                    let t = w.take(i + 1);
                    assert(t.drop_last() =~= w.take(i as int));
                    assert forall|k: int| 0 <= k < t.len() implies b32_digit(
                        #[trigger] t[k],
                    ) is Some by {
                        if k < i {
                            assert(b32_digit(w.take(i as int)[k]) is Some);
                        }
                    }
                    lemma_b32_value(t);
                    lemma_b32_range_monotone((i + 1) as nat, 25);
                }
                n = n * 32 + d as u128;
            },
            None => {
                proof {
                    lemma_not_sid_text(w, i as int);
                }
                return None;
            },
        }
        i = i + 1;
    }
    match from_b32_char(v[from + 25]) {
        Some(d) => {
            if d % 4 != 0 {
                proof {
                    lemma_sid_text_last(w, d as nat);
                }
                return None;
            }
            let sid = number_sid(n * 8 + (d / 4) as u128);
            proof {
                let m = frame::be_value(sid@) * 4;
                lemma_b32_value(w.take(25));
                assert(m / 32 == n && m % 32 == d);
                assert(w.take(25).push(b32_char(d as nat)) =~= w);
            }
            Some(sid)
        },
        None => {
            proof {
                lemma_not_sid_text(w, 25);
            }
            None
        },
    }
}

proof fn lemma_not_sid_text(w: Seq<char>, i: int)
    requires
        w.len() == 26,
        0 <= i < 26,
        b32_digit(w[i]) is None,
    ensures
        forall|sid: SessionId| #[trigger] sid_text(sid@) != w,
{
    assert forall|sid: SessionId| #[trigger] sid_text(sid@) != w by {
        lemma_b32_digits(frame::be_value(sid@) * 4, 26);
        assert(b32_digit(sid_text(sid@)[i]) is Some);
    }
}

proof fn lemma_sid_text_last(w: Seq<char>, d: nat)
    requires
        w.len() == 26,
        b32_digit(w[25]) == Some(d),
        d % 4 != 0,
    ensures
        forall|sid: SessionId| #[trigger] sid_text(sid@) != w,
{
    assert forall|sid: SessionId| #[trigger] sid_text(sid@) != w by {
        let m = frame::be_value(sid@) * 4;
        lemma_b32_digits(m, 26);
        lemma_b32_digits(m / 32, 25);
        lemma_b32_char_digit(m % 32);
        assert(sid_text(sid@)[25] == b32_char(m % 32));
        assert((m % 32) % 4 == 0);
    }
}

/// The decimal numeral `v[from..]` without leading zeros, if it is one.
fn read_seq(v: &Vec<char>, from: usize) -> (r: Option<u64>)
    requires
        from <= v@.len(),
    ensures
        match r {
            Some(n) => numeral::decimal(n as nat) == v@.skip(from as int),
            None => forall|n: u64| #[trigger] numeral::decimal(n as nat) != v@.skip(from as int),
        },
{
    let ghost w = v@.skip(from as int);
    let rest = text::from_chars(v, from, v.len());
    proof {
        assert(rest@ =~= w);
    }
    proof {
        assert forall|m: u64| #[trigger] numeral::decimal(m as nat) == w implies numeral::parsed(
            w,
            0xffff_ffff_ffff_ffff,
        ) == Some(m as nat) by {
            numeral::law_decimal_reads_back(m as nat, 0xffff_ffff_ffff_ffff);
        }
    }
    match numeral::parse_u64(rest.as_str()) {
        Some(n) => if numeral::to_decimal(n) == rest {
            Some(n)
        } else {
            None
        },
        None => None,
    }
}

proof fn lemma_name_shape(kind: FilenameKind, sid: SessionId, seq: u64, s: Seq<char>)
    requires
        s == name_text(kind, sid@, seq),
    ensures
        ({
            let p = prefix(kind).len() as int;
            &&& s.len() > p + 27
            &&& s[0] == prefix(kind)[0]
            &&& s.take(p) == prefix(kind)
            &&& s.subrange(p, p + 26) == sid_text(sid@)
            &&& s[p + 26] == '_'
            &&& s.skip(p + 27) == numeral::decimal(seq as nat)
        }),
{
    let p = prefix(kind).len() as int;
    lemma_b32_digits(frame::be_value(sid@) * 4, 26);
    numeral::lemma_decimal_digits(seq as nat);
    assert(s.take(p) =~= prefix(kind));
    assert(s.subrange(p, p + 26) =~= sid_text(sid@));
    assert(s.skip(p + 27) =~= numeral::decimal(seq as nat));
}

/// `s` is the name of some file.
pub open spec fn is_name(s: Seq<char>) -> bool {
    exists|f: DriveFilename| #[trigger] f.text() == s
}

/// The parts that make up the name `s`, if it is the name of a file.
pub open spec fn parsed_name(s: Seq<char>) -> Option<DriveFilename> {
    if is_name(s) {
        Some(choose|f: DriveFilename| #[trigger] f.text() == s)
    } else {
        None
    }
}

/// The parts of a name are the parts it was written for.
pub proof fn law_parsed_name(f: DriveFilename)
    ensures
        parsed_name(f.text()) == Some(f),
{
    let s = f.text();
    assert(is_name(s));
    let g = choose|g: DriveFilename| #[trigger] g.text() == s;
    law_name_injective(f, g);
    assert(f.sid =~= g.sid);
}

fn read_kind(v: &Vec<char>) -> (r: Option<FilenameKind>)
    ensures
        match r {
            Some(k) => v@.len() > prefix(k).len() + 27 && v@.take(prefix(k).len() as int) == prefix(k),
            None => !is_name(v@),
        },
{
    proof {
        assert forall|f: DriveFilename| #[trigger] f.text() == v@ implies v@.len() > prefix(
            f.kind,
        ).len() + 27 && v@.take(prefix(f.kind).len() as int) == prefix(f.kind) by {
            lemma_name_shape(f.kind, f.sid, f.seq, v@);
        }
    }
    if v.len() > 29 && v[0] == 'h' && v[1] == '_' {
        proof {
            assert(v@.take(2) =~= prefix(FilenameKind::Hello));
        }
        return Some(FilenameKind::Hello);
    }
    if v.len() > 31 && v[0] == 'c' && v[1] == '2' && v[2] == 'r' && v[3] == '_' {
        proof {
            assert(v@.take(4) =~= prefix(FilenameKind::Frame(Direction::ClientToRelay)));
        }
        return Some(FilenameKind::Frame(Direction::ClientToRelay));
    }
    if v.len() > 31 && v[0] == 'r' && v[1] == '2' && v[2] == 'c' && v[3] == '_' {
        proof {
            assert(v@.take(4) =~= prefix(FilenameKind::Frame(Direction::RelayToClient)));
        }
        return Some(FilenameKind::Frame(Direction::RelayToClient));
    }
    proof {
        if is_name(v@) {
            let f = choose|f: DriveFilename| #[trigger] f.text() == v@;
            let p = prefix(f.kind);
            assert(v@.take(p.len() as int)[0] == p[0]);
            assert(v@.take(p.len() as int)[1] == p[1]);
            if f.kind != FilenameKind::Hello {
                assert(v@.take(4)[2] == p[2]);
                assert(v@.take(4)[3] == p[3]);
            }
        }
    }
    None
}

/// Reads a name: only what `format` writes for the parts.
pub fn parse_filename(name: &str) -> (r: Option<DriveFilename>)
    ensures
        r == parsed_name(name@),
        match r {
            Some(f) => f.text() == name@,
            None => !is_name(name@),
        },
{
    let v = text::to_chars(name);
    let kind = match read_kind(&v) {
        Some(kind) => kind,
        None => return None,
    };
    let p: usize = match kind {
        FilenameKind::Hello => 2,
        FilenameKind::Frame(_) => 4,
    };
    proof {
        assert forall|f: DriveFilename| #[trigger] f.text() == v@ implies f.kind == kind && sid_text(
            f.sid@,
        ) == v@.subrange(p as int, p + 26) && v@[p + 26] == '_' && numeral::decimal(f.seq as nat)
            == v@.skip(p + 27) by {
            lemma_name_shape(f.kind, f.sid, f.seq, v@);
            assert(v@.take(p as int)[0] == prefix(kind)[0]);
            assert(v@.take(prefix(f.kind).len() as int)[0] == prefix(f.kind)[0]);
        }
    }
    let sid = match read_sid(&v, p) {
        Some(sid) => sid,
        None => return None,
    };
    if v[p + 26] != '_' {
        return None;
    }
    let seq = match read_seq(&v, p + 27) {
        Some(seq) => seq,
        None => return None,
    };
    let f = DriveFilename { kind, sid, seq };
    proof {
        assert(f.text() =~= v@);
        law_parsed_name(f);
    }
    Some(f)
}

proof fn lemma_prefix_first(a: FilenameKind, b: FilenameKind)
    requires
        prefix(a)[0] == prefix(b)[0],
    ensures
        a == b,
{
}

proof fn lemma_name_parts(a: DriveFilename, b: DriveFilename, s: Seq<char>)
    requires
        name_text(a.kind, a.sid@, a.seq) == s,
        name_text(b.kind, b.sid@, b.seq) == s,
    ensures
        a.kind == b.kind,
        sid_text(a.sid@) == sid_text(b.sid@),
        numeral::decimal(a.seq as nat) == numeral::decimal(b.seq as nat),
{
    lemma_name_shape(a.kind, a.sid, a.seq, s);
    lemma_name_shape(b.kind, b.sid, b.seq, s);
    lemma_prefix_first(a.kind, b.kind);
}

/// A name says exactly what it was written for: two names are the same only
/// if kind, session and sequence number are.
pub proof fn law_name_injective(a: DriveFilename, b: DriveFilename)
    requires
        a.text() == b.text(),
    ensures
        a.kind == b.kind,
        a.sid@ == b.sid@,
        a.seq == b.seq,
{
    lemma_name_parts(a, b, a.text());
    numeral::law_decimal_injective(a.seq as nat, b.seq as nat);
    law_sid_text_injective(a.sid, b.sid);
}

/// Different sessions have different base32 names.
pub proof fn law_sid_text_injective(a: SessionId, b: SessionId)
    requires
        sid_text(a@) == sid_text(b@),
    ensures
        a@ == b@,
{
    lemma_ranges();
    frame::lemma_be_value_bound(a@);
    frame::lemma_be_value_bound(b@);
    lemma_b32_digits(frame::be_value(a@) * 4, 26);
    lemma_b32_digits(frame::be_value(b@) * 4, 26);
    frame::lemma_be_bytes_of_value(a@);
    frame::lemma_be_bytes_of_value(b@);
}

/// A file's name: `h_` for a session opener, `c2r_` for a client's frame and
/// `r2c_` for a relay's, then the session in 26 lower-case base32 characters,
/// an underscore, and the sequence number in decimal.
pub proof fn law_name_shape(f: DriveFilename)
    ensures
        ({
            let head = match f.kind {
                FilenameKind::Hello => "h_"@,
                FilenameKind::Frame(Direction::ClientToRelay) => "c2r_"@,
                FilenameKind::Frame(Direction::RelayToClient) => "r2c_"@,
            };
            let p = head.len() as int;
            &&& f.text().take(p) == head
            &&& f.text().subrange(p, p + 26) == sid_text(f.sid@)
            &&& f.text()[p + 26] == '_'
            &&& f.text().skip(p + 27) == numeral::decimal(f.seq as nat)
        }),
{
    reveal_strlit("h_");
    reveal_strlit("c2r_");
    reveal_strlit("r2c_");
    lemma_name_shape(f.kind, f.sid, f.seq, f.text());
    assert("h_"@ =~= seq!['h', '_']);
    assert("c2r_"@ =~= seq!['c', '2', 'r', '_']);
    assert("r2c_"@ =~= seq!['r', '2', 'c', '_']);
}

/// A session's text is 26 characters of `a` to `z` and `2` to `7`, which stand
/// for 0 to 31 in this order: read as a number in base 32 they are the
/// session's 128 bits followed by two zero bits.
pub proof fn law_sid_text_is_base32(sid: SessionId, i: int)
    requires
        0 <= i < 26,
    ensures
        sid_text(sid@).len() == 26,
        'a' <= sid_text(sid@)[i] <= 'z' || '2' <= sid_text(sid@)[i] <= '7',
        b32_value(sid_text(sid@)) == frame::be_value(sid@) * 4,
        'a' <= sid_text(sid@)[i] <= 'z' ==> b32_digit(sid_text(sid@)[i]) == Some(
            (sid_text(sid@)[i] as nat - 97) as nat,
        ),
        '2' <= sid_text(sid@)[i] <= '7' ==> b32_digit(sid_text(sid@)[i]) == Some(
            (sid_text(sid@)[i] as nat - 24) as nat,
        ),
{
    let n = frame::be_value(sid@) * 4;
    lemma_ranges();
    frame::lemma_be_value_bound(sid@);
    lemma_b32_digits(n, 26);
    assert(b32_digit(sid_text(sid@)[i]) is Some);
}

} // verus!
