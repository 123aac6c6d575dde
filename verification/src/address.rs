//! IP address literals and the ranges that belong to the relay's own network.
use vstd::prelude::*;

use crate::numeral;
use crate::text;

verus! {

/// An IP address literal: four octets or eight groups of sixteen bits.
#[derive(Debug, Clone, Copy, PartialEq, Eq)]
pub enum IpLiteral {
    V4([u8; 4]),
    V6([u16; 8]),
}

/// The octet that a decimal numeral of one to three digits without leading
/// zeros denotes.
pub open spec fn octet(s: Seq<char>) -> Option<u8> {
    if 1 <= s.len() <= 3 && numeral::all_digits(s) && (s.len() == 1 || s[0] != '0')
        && numeral::digits_value(s) <= 255 {
        Some(numeral::digits_value(s) as u8)
    } else {
        None
    }
}

/// The octets of dotted parts, if every part is an octet.
pub open spec fn octets(parts: Seq<Seq<char>>) -> Option<Seq<u8>>
    decreases parts.len(),
{
    if parts.len() == 0 {
        Some(Seq::empty())
    } else {
        match (octets(parts.drop_last()), octet(parts.last())) {
            (Some(before), Some(o)) => Some(before.push(o)),
            _ => None,
        }
    }
}

/// The four octets of a dotted-quad literal.
pub open spec fn ipv4(s: Seq<char>) -> Option<Seq<u8>> {
    let parts = text::split(s, '.', '.');
    if parts.len() == 4 {
        octets(parts)
    } else {
        None
    }
}

/// All characters are hexadecimal digits.
pub open spec fn all_hex(s: Seq<char>) -> bool {
    forall|i: int| 0 <= i < s.len() ==> numeral::hex_digit_value(#[trigger] s[i]) is Some
}

/// The number that hexadecimal digits denote.
pub open spec fn hex_value(s: Seq<char>) -> nat
    decreases s.len(),
{
    if s.len() == 0 {
        0
    } else {
        hex_value(s.drop_last()) * 16 + numeral::hex_digit_value(s.last())->0
    }
}

/// The group that a hexadecimal numeral of one to four digits denotes.
pub open spec fn hextet(s: Seq<char>) -> Option<u16> {
    if 1 <= s.len() <= 4 && all_hex(s) {
        Some(hex_value(s) as u16)
    } else {
        None
    }
}

/// The groups of colon-separated parts, if every part is a group.
pub open spec fn hextets(parts: Seq<Seq<char>>) -> Option<Seq<u16>>
    decreases parts.len(),
{
    if parts.len() == 0 {
        Some(Seq::empty())
    } else {
        match (hextets(parts.drop_last()), hextet(parts.last())) {
            (Some(before), Some(h)) => Some(before.push(h)),
            _ => None,
        }
    }
}

/// Two octets as one group.
pub open spec fn pair(hi: u8, lo: u8) -> u16 {
    (hi * 256 + lo) as u16
}

/// The groups of a run of colon-separated parts whose last part may be a
/// dotted quad, which stands for two groups.
pub open spec fn groups(s: Seq<char>) -> Option<Seq<u16>> {
    let parts = text::split(s, ':', ':');
    match ipv4(parts.last()) {
        Some(q) => match hextets(parts.drop_last()) {
            Some(g) => Some(g.push(pair(q[0], q[1])).push(pair(q[2], q[3]))),
            None => None,
        },
        None => hextets(parts),
    }
}

/// The position of the first `::`; the length if there is none.
pub open spec fn gap(s: Seq<char>) -> int
    decreases s.len(),
{
    if s.len() < 2 {
        s.len() as int
    } else if s[0] == ':' && s[1] == ':' {
        0
    } else {
        1 + gap(s.skip(1))
    }
}

/// The groups on one side of a `::`, where an empty side has none.
pub open spec fn side(parsed: Option<Seq<u16>>, s: Seq<char>) -> Option<Seq<u16>> {
    if s.len() == 0 {
        Some(Seq::empty())
    } else {
        parsed
    }
}

/// The eight groups of an IPv6 literal: written out, or with one `::` in place
/// of one or more zero groups. A dotted quad may end it, not precede the `::`.
pub open spec fn ipv6(s: Seq<char>) -> Option<Seq<u16>> {
    let i = gap(s);
    if i < s.len() {
        let left = s.take(i);
        let right = s.skip(i + 2);
        match (side(hextets(text::split(left, ':', ':')), left), side(groups(right), right)) {
            (Some(l), Some(r)) => if l.len() + r.len() <= 7 {
                Some(l + Seq::new((8 - l.len() - r.len()) as nat, |k: int| 0u16) + r)
            } else {
                None
            },
            _ => None,
        }
    } else {
        match groups(s) {
            Some(g) => if g.len() == 8 {
                Some(g)
            } else {
                None
            },
            None => None,
        }
    }
}

/// An address of the relay's own network: loopback, private, link-local,
/// unspecified, carrier-grade NAT or broadcast.
pub open spec fn internal_v4(q: Seq<u8>) -> bool {
    ||| q[0] == 127
    ||| q[0] == 10
    ||| q[0] == 172 && 16 <= q[1] <= 31
    ||| q[0] == 192 && q[1] == 168
    ||| q[0] == 169 && q[1] == 254
    ||| q[0] == 0 && q[1] == 0 && q[2] == 0 && q[3] == 0
    ||| q[0] == 100 && 64 <= q[1] <= 127
    ||| q[0] == 255 && q[1] == 255 && q[2] == 255 && q[3] == 255
}

/// The IPv4 address that an IPv4-mapped IPv6 address stands for.
pub open spec fn mapped(g: Seq<u16>) -> Seq<u8> {
    seq![(g[6] / 256) as u8, (g[6] % 256) as u8, (g[7] / 256) as u8, (g[7] % 256) as u8]
}

/// An address of the relay's own network: loopback, unspecified, link-local
/// (`fe80::/10`), unique-local (`fc00::/7`), or an IPv4-mapped internal
/// address.
pub open spec fn internal_v6(g: Seq<u16>) -> bool {
    let zero5 = g[0] == 0 && g[1] == 0 && g[2] == 0 && g[3] == 0 && g[4] == 0;
    ||| zero5 && g[5] == 0 && g[6] == 0 && g[7] <= 1
    ||| 0xfe80 <= g[0] <= 0xfebf
    ||| 0xfc00 <= g[0] <= 0xfdff
    ||| zero5 && g[5] == 0xffff && internal_v4(mapped(g))
}

/// `s` is a literal of an address of the relay's own network.
pub open spec fn internal_literal(s: Seq<char>) -> bool {
    match (ipv4(s), ipv6(s)) {
        (Some(q), _) => internal_v4(q),
        (None, Some(g)) => internal_v6(g),
        (None, None) => false,
    }
}

fn parse_octet(s: &str) -> (r: Option<u8>)
    ensures
        r == octet(s@),
{
    let v = text::to_chars(s);
    if v.len() == 0 || v.len() > 3 || (v.len() > 1 && v[0] == '0') {
        return None;
    }
    let mut n: u16 = 0;
    let mut i: usize = 0;
    while i < v.len()
        invariant
            i <= v@.len() <= 3,
            v@ == s@,
            n == numeral::digits_value(v@.take(i as int)),
            n <= (if i == 0 { 0int } else if i == 1 { 9 } else if i == 2 { 99 } else { 999 }),
            forall|j: int| 0 <= j < i ==> numeral::is_digit(#[trigger] v@[j]),
        decreases v@.len() - i,
    {
        let c = v[i];
        if !('0' <= c && c <= '9') {
            proof {
                assert(!numeral::is_digit(s@[i as int]));
            }
            return None;
        }
        proof {
            assert(v@.take(i + 1).drop_last() =~= v@.take(i as int));
        }
        n = n * 10 + ((c as u8) - 48) as u16;
        i = i + 1;
    }
    proof {
        assert(v@.take(i as int) =~= s@);
        assert(numeral::all_digits(s@));
    }
    if n <= 255 {
        Some(n as u8)
    } else {
        None
    }
}

fn parse_ipv4(s: &str) -> (r: Option<[u8; 4]>)
    ensures
        match r {
            Some(q) => ipv4(s@) == Some(q@),
            None => ipv4(s@) is None,
        },
{
    let parts = text::split_at_either(s, '.', '.');
    let ghost p = text::texts(parts@);
    proof {
        reveal_with_fuel(octets, 5);
    }
    if parts.len() != 4 {
        return None;
    }
    proof {
        assert(p.drop_last().drop_last().drop_last().drop_last() =~= Seq::empty());
        assert(p[0] == parts@[0]@ && p[1] == parts@[1]@ && p[2] == parts@[2]@ && p[3]
            == parts@[3]@);
    }
    match (
        parse_octet(parts[0].as_str()),
        parse_octet(parts[1].as_str()),
        parse_octet(parts[2].as_str()),
        parse_octet(parts[3].as_str()),
    ) {
        (Some(a), Some(b), Some(c), Some(d)) => {
            let q = [a, b, c, d];
            proof {
                assert(q@ =~= Seq::<u8>::empty().push(a).push(b).push(c).push(d));
            }
            Some(q)
        },
        _ => None,
    }
}

proof fn lemma_hex_value_bound(s: Seq<char>)
    requires
        all_hex(s),
    ensures
        s.len() == 1 ==> hex_value(s) < 0x10,
        s.len() == 2 ==> hex_value(s) < 0x100,
        s.len() == 3 ==> hex_value(s) < 0x1000,
        s.len() == 4 ==> hex_value(s) < 0x10000,
{
    reveal_with_fuel(hex_value, 5);
    assert forall|k: int| 0 <= k < s.len() implies numeral::hex_digit_value(s[k])->0 < 16 by {
        assert(numeral::hex_digit_value(s[k]) is Some);
    }
}

fn parse_hextet(s: &str) -> (r: Option<u16>)
    ensures
        r == hextet(s@),
{
    let v = text::to_chars(s);
    if v.len() == 0 || v.len() > 4 {
        return None;
    }
    let mut n: u32 = 0;
    let mut i: usize = 0;
    while i < v.len()
        invariant
            i <= v@.len() <= 4,
            v@ == s@,
            n == hex_value(v@.take(i as int)),
            n < (if i == 0 { 1int } else if i == 1 { 0x10 } else if i == 2 { 0x100 } else if i == 3 { 0x1000 } else { 0x10000 }),
            forall|j: int| 0 <= j < i ==> numeral::hex_digit_value(#[trigger] v@[j]) is Some,
        decreases v@.len() - i,
    {
        proof {
            assert(v@.take(i + 1).drop_last() =~= v@.take(i as int));
        }
        match numeral::from_hex_digit(v[i]) {
            Some(d) => {
                n = n * 16 + d as u32;
            },
            None => {
                proof {
                    assert(numeral::hex_digit_value(s@[i as int]) is None);
                    assert(!all_hex(s@));
                }
                return None;
            },
        }
        i = i + 1;
    }
    proof {
        assert(v@.take(i as int) =~= s@);
        assert(all_hex(s@));
        lemma_hex_value_bound(s@);
    }
    Some(n as u16)
}

proof fn lemma_hextets_fail(parts: Seq<Seq<char>>, i: int)
    requires
        0 <= i < parts.len(),
        hextet(parts[i]) is None,
    ensures
        hextets(parts) is None,
    decreases parts.len(),
{
    if i < parts.len() - 1 {
        lemma_hextets_fail(parts.drop_last(), i);
    }
}

fn parse_hextets(parts: &Vec<String>, count: usize) -> (r: Option<Vec<u16>>)
    requires
        count <= parts@.len(),
    ensures
        match r {
            Some(g) => hextets(text::texts(parts@).take(count as int)) == Some(g@),
            None => hextets(text::texts(parts@).take(count as int)) is None,
        },
{
    let ghost p = text::texts(parts@);
    let mut g: Vec<u16> = Vec::new();
    let mut i: usize = 0;
    while i < count
        invariant
            i <= count <= parts@.len(),
            p == text::texts(parts@),
            hextets(p.take(i as int)) == Some(g@),
        decreases count - i,
    {
        proof {
            assert(p.take(i + 1).drop_last() =~= p.take(i as int));
            assert(p.take(i + 1).last() == parts@[i as int]@);
        }
        match parse_hextet(parts[i].as_str()) {
            Some(h) => {
                g.push(h);
            },
            None => {
                proof {
                    lemma_hextets_fail(p.take(count as int), i as int);
                }
                return None;
            },
        }
        i = i + 1;
    }
    Some(g)
}

fn join_octets(hi: u8, lo: u8) -> (r: u16)
    ensures
        r == pair(hi, lo),
{
    (hi as u16) * 256 + lo as u16
}

fn parse_groups(s: &str) -> (r: Option<Vec<u16>>)
    ensures
        match r {
            Some(g) => groups(s@) == Some(g@),
            None => groups(s@) is None,
        },
{
    let parts = text::split_at_either(s, ':', ':');
    let ghost p = text::texts(parts@);
    let last: usize = parts.len() - 1;
    proof {
        assert(p.drop_last() =~= p.take(last as int));
        assert(p.take(parts@.len() as int) =~= p);
    }
    match parse_ipv4(parts[last].as_str()) {
        Some(q) => match parse_hextets(&parts, last) {
            Some(mut g) => {
                g.push(join_octets(q[0], q[1]));
                g.push(join_octets(q[2], q[3]));
                Some(g)
            },
            None => None,
        },
        None => parse_hextets(&parts, parts.len()),
    }
}

proof fn lemma_gap(s: Seq<char>, k: int)
    requires
        0 <= k <= s.len(),
        forall|i: int| 0 <= i < k && i + 1 < s.len() ==> !(#[trigger] s[i] == ':' && s[i + 1] == ':'),
        k == s.len() || (k + 1 < s.len() && s[k] == ':' && s[k + 1] == ':'),
    ensures
        gap(s) == k,
    decreases k,
{
    if s.len() >= 2 && k > 0 {
        assert(!(s[0] == ':' && s[1] == ':'));
        let t = s.skip(1);
        assert forall|i: int| 0 <= i < k - 1 && i + 1 < t.len() implies !(#[trigger] t[i] == ':'
            && t[i + 1] == ':') by {
            assert(!(s[i + 1] == ':' && s[i + 2] == ':'));
        }
        lemma_gap(t, k - 1);
    }
}

fn find_gap(v: &Vec<char>) -> (k: usize)
    ensures
        k == gap(v@),
        k <= v@.len(),
        k < v@.len() ==> k + 2 <= v@.len(),
{
    let mut k: usize = 0;
    while k < v.len()
        invariant
            k <= v@.len(),
            forall|i: int|
                0 <= i < k && i + 1 < v@.len() ==> !(#[trigger] v@[i] == ':' && v@[i + 1] == ':'),
        decreases v@.len() - k,
    {
        if v.len() - k >= 2 && v[k] == ':' && v[k + 1] == ':' {
            proof {
                lemma_gap(v@, k as int);
            }
            return k;
        }
        k = k + 1;
    }
    proof {
        lemma_gap(v@, k as int);
    }
    k
}

fn to_groups(g: &Vec<u16>) -> (r: [u16; 8])
    requires
        g@.len() == 8,
    ensures
        r@ == g@,
{
    let r = [g[0], g[1], g[2], g[3], g[4], g[5], g[6], g[7]];
    proof {
        assert(r@ =~= g@);
    }
    r
}

fn parse_ipv6(s: &str) -> (r: Option<[u16; 8]>)
    ensures
        match r {
            Some(g) => ipv6(s@) == Some(g@),
            None => ipv6(s@) is None,
        },
{
    let v = text::to_chars(s);
    let i = find_gap(&v);
    if i < v.len() {
        let left = text::from_chars(&v, 0, i);
        let right = text::from_chars(&v, i + 2, v.len());
        proof {
            assert(left@ =~= s@.take(i as int));
            assert(right@ =~= s@.skip(i + 2));
        }
        let l: Vec<u16> = if left.as_str().is_empty() {
            Vec::new()
        } else {
            let parts = text::split_at_either(left.as_str(), ':', ':');
            proof {
                assert(text::texts(parts@).take(parts@.len() as int) =~= text::texts(parts@));
            }
            match parse_hextets(&parts, parts.len()) {
                Some(l) => l,
                None => return None,
            }
        };
        let r: Vec<u16> = if right.as_str().is_empty() {
            Vec::new()
        } else {
            match parse_groups(right.as_str()) {
                Some(r) => r,
                None => return None,
            }
        };
        if l.len() > 7 || r.len() > 7 - l.len() {
            return None;
        }
        let ghost target = l@ + Seq::new((8 - l@.len() - r@.len()) as nat, |k: int| 0u16) + r@;
        let mut g = [0u16;8];
        let mut k: usize = 0;
        while k < 8
            invariant
                k <= 8,
                l@.len() + r@.len() <= 7,
                target == l@ + Seq::new((8 - l@.len() - r@.len()) as nat, |j: int| 0u16) + r@,
                forall|j: int| 0 <= j < k ==> #[trigger] g@[j] == target[j],
            decreases 8 - k,
        {
            let word: u16 = if k < l.len() {
                l[k]
            } else if k < 8 - r.len() {
                0
            } else {
                r[k - (8 - r.len())]
            };
            proof {
                assert(word == target[k as int]);
            }
            g[k] = word;
            k = k + 1;
        }
        proof {
            assert(g@ =~= target);
        }
        Some(g)
    } else {
        match parse_groups(s) {
            Some(g) => if g.len() == 8 {
                Some(to_groups(&g))
            } else {
                None
            },
            None => None,
        }
    }
}

/// Reads an IP address literal.
pub fn parse_ip(s: &str) -> (r: Option<IpLiteral>)
    ensures
        match r {
            Some(IpLiteral::V4(q)) => ipv4(s@) == Some(q@),
            Some(IpLiteral::V6(g)) => ipv4(s@) is None && ipv6(s@) == Some(g@),
            None => ipv4(s@) is None && ipv6(s@) is None,
        },
{
    match parse_ipv4(s) {
        Some(q) => Some(IpLiteral::V4(q)),
        None => match parse_ipv6(s) {
            Some(g) => Some(IpLiteral::V6(g)),
            None => None,
        },
    }
}

fn is_internal_v4(q: [u8; 4]) -> (r: bool)
    ensures
        r == internal_v4(q@),
{
    q[0] == 127 || q[0] == 10 || (q[0] == 172 && 16 <= q[1] && q[1] <= 31) || (q[0] == 192 && q[1]
        == 168) || (q[0] == 169 && q[1] == 254) || (q[0] == 0 && q[1] == 0 && q[2] == 0 && q[3]
        == 0) || (q[0] == 100 && 64 <= q[1] && q[1] <= 127) || (q[0] == 255 && q[1] == 255 && q[2]
        == 255 && q[3] == 255)
}

fn is_internal_v6(g: [u16; 8]) -> (r: bool)
    ensures
        r == internal_v6(g@),
{
    let zero5 = g[0] == 0 && g[1] == 0 && g[2] == 0 && g[3] == 0 && g[4] == 0;
    if zero5 && g[5] == 0 && g[6] == 0 && g[7] <= 1 {
        return true;
    }
    if (0xfe80 <= g[0] && g[0] <= 0xfebf) || (0xfc00 <= g[0] && g[0] <= 0xfdff) {
        return true;
    }
    let q = [
        (g[6] / 256) as u8,
        (g[6] % 256) as u8,
        (g[7] / 256) as u8,
        (g[7] % 256) as u8,
    ];
    proof {
        assert(q@ =~= mapped(g@));
    }
    zero5 && g[5] == 0xffff && is_internal_v4(q)
}

/// Tests for an address of the relay's own network.
pub fn is_internal_ip(ip: &IpLiteral) -> (r: bool)
    ensures
        r == match ip {
            IpLiteral::V4(q) => internal_v4(q@),
            IpLiteral::V6(g) => internal_v6(g@),
        },
{
    match ip {
        IpLiteral::V4(q) => is_internal_v4(*q),
        IpLiteral::V6(g) => is_internal_v6(*g),
    }
}

/// The number that four octets stand for.
pub open spec fn number_v4(q: Seq<u8>) -> int {
    q[0] * 0x100_0000 + q[1] * 0x1_0000 + q[2] * 0x100 + q[3]
}

/// The internal IPv4 addresses are these ranges of 32-bit numbers and no
/// others: 10.0.0.0/8, 100.64.0.0/10, 127.0.0.0/8, 169.254.0.0/16,
/// 172.16.0.0/12, 192.168.0.0/16, and the two single addresses 0.0.0.0 and
/// 255.255.255.255.
pub proof fn law_internal_v4_ranges(q: Seq<u8>)
    requires
        q.len() == 4,
    ensures
        internal_v4(q) <==> {
            let n = number_v4(q);
            ||| n == 0
            ||| 0x0a00_0000 <= n < 0x0b00_0000
            ||| 0x6440_0000 <= n < 0x6480_0000
            ||| 0x7f00_0000 <= n < 0x8000_0000
            ||| 0xa9fe_0000 <= n < 0xa9ff_0000
            ||| 0xac10_0000 <= n < 0xac20_0000
            ||| 0xc0a8_0000 <= n < 0xc0a9_0000
            ||| n == 0xffff_ffff
        },
{
}

/// Within each first octet: 10 and 127 are internal throughout, 172 for the
/// second octets 16 to 31, 192 for 168, 169 for 254, 100 for 64 to 127, 0 and
/// 255 for one address each, and an address with any other first octet is
/// public.
pub proof fn law_internal_v4_by_first_octet(q: Seq<u8>)
    requires
        q.len() == 4,
    ensures
        q[0] == 10 || q[0] == 127 ==> internal_v4(q),
        q[0] == 172 ==> (internal_v4(q) <==> 16 <= q[1] <= 31),
        q[0] == 192 ==> (internal_v4(q) <==> q[1] == 168),
        q[0] == 169 ==> (internal_v4(q) <==> q[1] == 254),
        q[0] == 100 ==> (internal_v4(q) <==> 64 <= q[1] <= 127),
        q[0] == 0 ==> (internal_v4(q) <==> number_v4(q) == 0),
        q[0] == 255 ==> (internal_v4(q) <==> number_v4(q) == 0xffff_ffff),
        internal_v4(q) ==> q[0] == 0 || q[0] == 10 || q[0] == 100 || q[0] == 127 || q[0] == 169
            || q[0] == 172 || q[0] == 192 || q[0] == 255,
{
}

/// The number that eight groups stand for, most significant group first.
pub open spec fn number_v6(g: Seq<u16>) -> int
    decreases g.len(),
{
    if g.len() == 0 {
        0
    } else {
        number_v6(g.drop_last()) * 0x1_0000 + g.last()
    }
}

proof fn lemma_number_v6(g: Seq<u16>)
    requires
        g.len() == 8,
    ensures
        number_v6(g) == g[0] * 0x1_0000_0000_0000_0000_0000_0000_0000int + g[1]
            * 0x1_0000_0000_0000_0000_0000_0000int + g[2] * 0x1_0000_0000_0000_0000_0000int + g[3]
            * 0x1_0000_0000_0000_0000int + g[4] * 0x1_0000_0000_0000int + g[5] * 0x1_0000_0000int
            + g[6] * 0x1_0000int + g[7],
{
    reveal_with_fuel(number_v6, 9);
}

/// The internal IPv6 addresses are these ranges of 128-bit numbers and no
/// others: the unspecified address and the loopback address, fc00::/7,
/// fe80::/10, and ::ffff:0:0/96 where the low 32 bits are an internal IPv4
/// address.
pub proof fn law_internal_v6_ranges(g: Seq<u16>)
    requires
        g.len() == 8,
    ensures
        internal_v6(g) <==> {
            let n = number_v6(g);
            let m = n - 0xffff_0000_0000int;
            ||| n == 0
            ||| n == 1
            ||| 0xfc00_0000_0000_0000_0000_0000_0000_0000int <= n
                < 0xfe00_0000_0000_0000_0000_0000_0000_0000int
            ||| 0xfe80_0000_0000_0000_0000_0000_0000_0000int <= n
                < 0xfec0_0000_0000_0000_0000_0000_0000_0000int
            ||| m == 0
            ||| 0x0a00_0000 <= m < 0x0b00_0000
            ||| 0x6440_0000 <= m < 0x6480_0000
            ||| 0x7f00_0000 <= m < 0x8000_0000
            ||| 0xa9fe_0000 <= m < 0xa9ff_0000
            ||| 0xac10_0000 <= m < 0xac20_0000
            ||| 0xc0a8_0000 <= m < 0xc0a9_0000
            ||| m == 0xffff_ffff
        },
{
    lemma_number_v6(g);
    let q = mapped(g);
    law_internal_v4_ranges(q);
    assert(number_v4(q) == g[6] * 0x1_0000 + g[7]);
}

proof fn lemma_octets_len(parts: Seq<Seq<char>>)
    ensures
        octets(parts) is Some ==> octets(parts)->0.len() == parts.len(),
    decreases parts.len(),
{
    if parts.len() > 0 {
        lemma_octets_len(parts.drop_last());
    }
}

/// An IPv4 literal has four octets.
pub proof fn law_ipv4_has_four_octets(s: Seq<char>)
    requires
        ipv4(s) is Some,
    ensures
        ipv4(s)->0.len() == 4,
{
    lemma_octets_len(text::split(s, '.', '.'));
}

/// An octet written in decimal reads back.
pub proof fn law_octet_reads_back(n: u8)
    ensures
        octet(numeral::decimal(n as nat)) == Some(n),
{
    numeral::lemma_decimal_digits(n as nat);
    reveal_with_fuel(numeral::decimal, 4);
}

/// Four octets written in decimal with dots between them are the literal of
/// that address.
pub proof fn law_dotted_quad_reads_back(a: u8, b: u8, c: u8, d: u8)
    ensures
        ipv4(
            numeral::decimal(a as nat) + seq!['.'] + numeral::decimal(b as nat) + seq!['.']
                + numeral::decimal(c as nat) + seq!['.'] + numeral::decimal(d as nat),
        ) == Some(seq![a, b, c, d]),
{
    let ta = numeral::decimal(a as nat);
    let tb = numeral::decimal(b as nat);
    let tc = numeral::decimal(c as nat);
    let td = numeral::decimal(d as nat);
    lemma_digits_are_one_piece(a as nat);
    lemma_digits_are_one_piece(b as nat);
    lemma_digits_are_one_piece(c as nat);
    lemma_digits_are_one_piece(d as nat);
    text::law_split_at_separator(ta, '.', tb, '.', '.');
    text::law_split_at_separator(ta + seq!['.'] + tb, '.', tc, '.', '.');
    text::law_split_at_separator(ta + seq!['.'] + tb + seq!['.'] + tc, '.', td, '.', '.');
    let parts = text::split(
        ta + seq!['.'] + tb + seq!['.'] + tc + seq!['.'] + td,
        '.',
        '.',
    );
    assert(parts =~= seq![ta, tb, tc, td]);
    law_octet_reads_back(a);
    law_octet_reads_back(b);
    law_octet_reads_back(c);
    law_octet_reads_back(d);
    reveal_with_fuel(octets, 5);
    assert(parts.drop_last() =~= seq![ta, tb, tc]);
    assert(parts.drop_last().drop_last() =~= seq![ta, tb]);
    assert(parts.drop_last().drop_last().drop_last() =~= seq![ta]);
    assert(parts.drop_last().drop_last().drop_last().drop_last() =~= Seq::empty());
    assert(octets(parts)->0 =~= seq![a, b, c, d]);
}

proof fn lemma_digits_are_one_piece(n: nat)
    ensures
        text::split(numeral::decimal(n), '.', '.') == seq![numeral::decimal(n)],
{
    numeral::lemma_decimal_digits(n);
    let s = numeral::decimal(n);
    assert forall|i: int| 0 <= i < s.len() implies #[trigger] s[i] != '.' by {
        assert(numeral::is_digit(s[i]));
    }
    text::law_split_of_one_piece(s, '.', '.');
}

/// An octet is written in decimal without needless zeros, and in no other way.
pub proof fn law_octet_is_its_numeral(s: Seq<char>, n: u8)
    ensures
        octet(s) == Some(n) <==> s == numeral::decimal(n as nat),
{
    law_octet_reads_back(n);
    if octet(s) == Some(n) {
        numeral::law_numeral_of_its_value(s);
    }
}

/// An IPv4 literal is four octets in decimal with dots between them, and nothing
/// else is one.
pub proof fn law_ipv4_is_a_dotted_quad(s: Seq<char>, a: u8, b: u8, c: u8, d: u8)
    ensures
        ipv4(s) == Some(seq![a, b, c, d]) <==> s == numeral::decimal(a as nat) + seq!['.']
            + numeral::decimal(b as nat) + seq!['.'] + numeral::decimal(c as nat) + seq!['.']
            + numeral::decimal(d as nat),
{
    law_dotted_quad_reads_back(a, b, c, d);
    if ipv4(s) == Some(seq![a, b, c, d]) {
        let parts = text::split(s, '.', '.');
        reveal_with_fuel(octets, 5);
        let p3 = parts.drop_last();
        let p2 = p3.drop_last();
        let p1 = p2.drop_last();
        assert(octets(p1.drop_last())->0 =~= Seq::empty());
        assert(octets(p1)->0 =~= seq![octet(parts[0])->0]);
        assert(octets(p2)->0 =~= seq![octet(parts[0])->0, octet(parts[1])->0]);
        assert(octets(p3)->0 =~= seq![octet(parts[0])->0, octet(parts[1])->0, octet(parts[2])->0]);
        let q = seq![
            octet(parts[0])->0,
            octet(parts[1])->0,
            octet(parts[2])->0,
            octet(parts[3])->0,
        ];
        assert(octets(parts)->0 =~= q);
        assert(q[0] == a && q[1] == b && q[2] == c && q[3] == d);
        law_octet_is_its_numeral(parts[0], a);
        law_octet_is_its_numeral(parts[1], b);
        law_octet_is_its_numeral(parts[2], c);
        law_octet_is_its_numeral(parts[3], d);
        text::law_split_joins_back(s, '.');
        reveal_with_fuel(text::joined, 5);
        assert(text::joined(p1, seq!['.']) =~= parts[0]);
        assert(text::joined(p2, seq!['.']) =~= parts[0] + seq!['.'] + parts[1]);
        assert(text::joined(p3, seq!['.']) =~= parts[0] + seq!['.'] + parts[1] + seq!['.']
            + parts[2]);
        assert(s =~= parts[0] + seq!['.'] + parts[1] + seq!['.'] + parts[2] + seq!['.']
            + parts[3]);
    }
}

/// A group is one to four hexadecimal digits in either case, most significant
/// first; zeros before them change nothing.
pub proof fn law_hextet_digits(s: Seq<char>)
    ensures
        hextet(s) is Some <==> 1 <= s.len() <= 4 && forall|i: int|
            0 <= i < s.len() ==> '0' <= #[trigger] s[i] <= '9' || 'a' <= s[i] <= 'f' || 'A' <= s[i]
                <= 'F',
        hextet(s) is Some && s.len() == 4 ==> hextet(s)->0 == numeral::hex_digit_value(s[0])->0
            * 4096 + numeral::hex_digit_value(s[1])->0 * 256 + numeral::hex_digit_value(s[2])->0
            * 16 + numeral::hex_digit_value(s[3])->0,
        hextet(s) is Some && s.len() < 4 ==> hextet(seq!['0'] + s) == hextet(s),
{
    if hextet(s) is Some {
        assert forall|i: int| 0 <= i < s.len() implies '0' <= #[trigger] s[i] <= '9' || 'a' <= s[i]
            <= 'f' || 'A' <= s[i] <= 'F' by {
            assert(numeral::hex_digit_value(s[i]) is Some);
        }
        lemma_hex_value_bound(s);
        if s.len() == 4 {
            reveal_with_fuel(hex_value, 5);
        } else {
            let z = seq!['0'] + s;
            assert forall|i: int| 0 <= i < z.len() implies numeral::hex_digit_value(
                #[trigger] z[i],
            ) is Some by {
                if i > 0 {
                    assert(numeral::hex_digit_value(s[i - 1]) is Some);
                }
            }
            lemma_hex_leading_zero(s);
        }
    } else if 1 <= s.len() <= 4 && forall|i: int|
        0 <= i < s.len() ==> '0' <= #[trigger] s[i] <= '9' || 'a' <= s[i] <= 'f' || 'A' <= s[i]
            <= 'F' {
        assert(all_hex(s));
    }
}

proof fn lemma_hex_leading_zero(s: Seq<char>)
    ensures
        hex_value(seq!['0'] + s) == hex_value(s),
    decreases s.len(),
{
    let z = seq!['0'] + s;
    if s.len() > 0 {
        assert(z.drop_last() =~= seq!['0'] + s.drop_last());
        assert(z.last() == s.last());
        lemma_hex_leading_zero(s.drop_last());
    } else {
        assert(z.drop_last() =~= Seq::empty());
        assert(hex_value(z.drop_last()) == 0);
    }
}

/// All of these are groups.
pub open spec fn all_groups(parts: Seq<Seq<char>>) -> bool {
    forall|i: int| 0 <= i < parts.len() ==> hextet(#[trigger] parts[i]) is Some
}

/// The numbers that groups denote.
pub open spec fn group_values(parts: Seq<Seq<char>>) -> Seq<u16> {
    parts.map_values(|p: Seq<char>| hextet(p)->0)
}

proof fn lemma_hextets_of_groups(parts: Seq<Seq<char>>)
    requires
        all_groups(parts),
    ensures
        hextets(parts) == Some(group_values(parts)),
    decreases parts.len(),
{
    if parts.len() > 0 {
        let before = parts.drop_last();
        assert forall|i: int| 0 <= i < before.len() implies hextet(#[trigger] before[i]) is Some by {
            assert(before[i] == parts[i]);
        }
        lemma_hextets_of_groups(before);
        assert(hextet(parts[parts.len() - 1]) is Some);
        assert(hextets(parts)->0 =~= group_values(parts));
    } else {
        assert(hextets(parts)->0 =~= group_values(parts));
    }
}

proof fn lemma_groups_joined(parts: Seq<Seq<char>>)
    requires
        parts.len() > 0,
        all_groups(parts),
    ensures
        ({
            let s = text::joined(parts, seq![':']);
            &&& text::split(s, ':', ':') == parts
            &&& s.len() > 0
            &&& s[0] != ':'
            &&& s.last() != ':'
            &&& forall|i: int|
                0 <= i && i + 1 < s.len() ==> !(#[trigger] s[i] == ':' && s[i + 1] == ':')
        }),
    decreases parts.len(),
{
    assert forall|i: int, j: int| 0 <= i < parts.len() && 0 <= j < parts[i].len() implies
        #[trigger] parts[i][j] != ':' by {
        assert(hextet(parts[i]) is Some);
        assert(numeral::hex_digit_value(parts[i][j]) is Some);
    }
    text::law_joined_splits_back(parts, ':');
    let s = text::joined(parts, seq![':']);
    let last = parts.last();
    assert(hextet(parts[parts.len() - 1]) is Some);
    assert(last[0] != ':' && last[last.len() - 1] != ':') by {
        assert(parts[parts.len() - 1][0] != ':');
        assert(parts[parts.len() - 1][last.len() - 1] != ':');
    }
    if parts.len() > 1 {
        let before = parts.drop_last();
        assert forall|i: int| 0 <= i < before.len() implies hextet(#[trigger] before[i]) is Some by {
            assert(before[i] == parts[i]);
        }
        lemma_groups_joined(before);
        let t = text::joined(before, seq![':']);
        assert(s =~= t + seq![':'] + last);
        assert forall|i: int| 0 <= i && i + 1 < s.len() implies !(#[trigger] s[i] == ':' && s[i + 1]
            == ':') by {
            if i + 1 < t.len() {
                assert(!(t[i] == ':' && t[i + 1] == ':'));
            } else if i + 1 == t.len() {
                assert(s[i] == t.last());
            } else if i == t.len() {
                assert(s[i + 1] == last[0]);
            } else {
                assert(s[i] == parts[parts.len() - 1][i - t.len() - 1]);
            }
        }
    } else {
        assert(s =~= last);
        assert forall|i: int| 0 <= i && i + 1 < s.len() implies !(#[trigger] s[i] == ':' && s[i + 1]
            == ':') by {
            assert(s[i] == parts[0][i]);
        }
    }
}

proof fn lemma_groups_read(parts: Seq<Seq<char>>)
    requires
        parts.len() > 0,
        all_groups(parts),
    ensures
        groups(text::joined(parts, seq![':'])) == Some(group_values(parts)),
{
    lemma_groups_joined(parts);
    lemma_hextets_of_groups(parts);
    let last = parts.last();
    assert(hextet(parts[parts.len() - 1]) is Some);
    assert forall|i: int| 0 <= i < last.len() implies #[trigger] last[i] != '.' by {
        assert(numeral::hex_digit_value(last[i]) is Some);
    }
    text::law_split_of_one_piece(last, '.', '.');
}

/// Eight groups with colons between them are the IPv6 address of these groups;
/// with fewer or more of them there is no address.
pub proof fn law_full_ipv6(parts: Seq<Seq<char>>)
    requires
        parts.len() > 0,
        all_groups(parts),
    ensures
        parts.len() == 8 ==> ipv6(text::joined(parts, seq![':'])) == Some(group_values(parts)),
        parts.len() != 8 ==> ipv6(text::joined(parts, seq![':'])) is None,
{
    let s = text::joined(parts, seq![':']);
    lemma_groups_joined(parts);
    lemma_groups_read(parts);
    lemma_gap(s, s.len() as int);
    assert(group_values(parts).len() == parts.len());
}

/// A double colon stands for as many zero groups as are missing, at least one,
/// wherever it stands.
pub proof fn law_shortened_ipv6(left: Seq<Seq<char>>, right: Seq<Seq<char>>)
    requires
        all_groups(left),
        all_groups(right),
    ensures
        ({
            let s = text::joined(left, seq![':']) + seq![':', ':'] + text::joined(right, seq![':']);
            &&& left.len() + right.len() <= 7 ==> {
                &&& ipv6(s) matches Some(g)
                &&& g.len() == 8
                &&& g.take(left.len() as int) == group_values(left)
                &&& g.skip(8 - right.len()) == group_values(right)
                &&& forall|i: int| left.len() <= i < 8 - right.len() ==> #[trigger] g[i] == 0
            }
            &&& left.len() + right.len() > 7 ==> ipv6(s) is None
        }),
{
    let l = text::joined(left, seq![':']);
    let r = text::joined(right, seq![':']);
    let s = l + seq![':', ':'] + r;
    let k = l.len() as int;
    if left.len() > 0 {
        lemma_groups_joined(left);
        lemma_hextets_of_groups(left);
    } else {
        assert(group_values(left) =~= Seq::empty());
    }
    if right.len() > 0 {
        lemma_groups_joined(right);
        lemma_groups_read(right);
    } else {
        assert(group_values(right) =~= Seq::empty());
    }
    assert forall|i: int| 0 <= i < k && i + 1 < s.len() implies !(#[trigger] s[i] == ':' && s[i + 1]
        == ':') by {
        if i + 1 < k {
            assert(!(l[i] == ':' && l[i + 1] == ':'));
        } else {
            assert(s[i] == l.last());
        }
    }
    assert(s[k] == ':' && s[k + 1] == ':');
    lemma_gap(s, k);
    assert(s.take(k) =~= l);
    assert(s.skip(k + 2) =~= r);
    if left.len() + right.len() <= 7 {
        let g = ipv6(s)->0;
        assert(g.take(left.len() as int) =~= group_values(left));
        assert(g.skip(8 - right.len()) =~= group_values(right));
    }
}

/// An IPv6 literal may end with an IPv4 address in place of its last two groups:
/// its first two octets make one group and its last two the other.
pub proof fn law_ipv4_tail(parts: Seq<Seq<char>>, tail: Seq<char>, a: u8, b: u8, c: u8, d: u8)
    requires
        all_groups(parts),
        ipv4(tail) == Some(seq![a, b, c, d]),
        forall|i: int| 0 <= i < tail.len() ==> #[trigger] tail[i] != ':',
    ensures
        groups(text::joined(parts.push(tail), seq![':'])) == Some(
            group_values(parts).push((a * 256 + b) as u16).push((c * 256 + d) as u16),
        ),
{
    let all = parts.push(tail);
    assert forall|i: int, j: int| 0 <= i < all.len() && 0 <= j < all[i].len() implies
        #[trigger] all[i][j] != ':' by {
        if i < parts.len() {
            assert(hextet(parts[i]) is Some);
            assert(numeral::hex_digit_value(parts[i][j]) is Some);
        }
    }
    text::law_joined_splits_back(all, ':');
    lemma_hextets_of_groups(parts);
    assert(all.drop_last() =~= parts);
    let q = seq![a, b, c, d];
    assert(q[0] == a && q[1] == b && q[2] == c && q[3] == d);
}

} // verus!
