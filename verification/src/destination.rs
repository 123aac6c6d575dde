//! Which destinations the relay dials.
use vstd::prelude::*;

use crate::address;
use crate::numeral;
use crate::text;

verus! {

/// A destination host in the form in which it is compared.
pub open spec fn dialed_host(host: Seq<char>) -> Seq<char> {
    text::strip_trailing(text::lower(host), '.')
}

/// An allow-list entry in the form in which it is compared.
pub open spec fn allow_entry(entry: Seq<char>) -> Seq<char> {
    text::lower(text::strip_trailing(text::trimmed(entry), '.'))
}

/// `s` ends with `suffix`.
pub open spec fn ends_with(s: Seq<char>, suffix: Seq<char>) -> bool {
    s.len() >= suffix.len() && s.skip(s.len() - suffix.len()) == suffix
}

/// The entry covers the host: exactly, or with a leading dot the domain itself
/// and every name under it. A blank entry covers nothing.
pub open spec fn covers(entry: Seq<char>, host: Seq<char>) -> bool {
    let e = allow_entry(entry);
    let h = dialed_host(host);
    if e.len() == 0 {
        false
    } else if e[0] == '.' {
        h == e.skip(1) || ends_with(h, e)
    } else {
        h == e
    }
}

/// The relay dials the host: one of the entries covers it; with no entries at
/// all, everything but a literal of an address of its own network.
pub open spec fn allowed(allow: Seq<Seq<char>>, host: Seq<char>) -> bool {
    if allow.len() > 0 {
        exists|i: int| 0 <= i < allow.len() && covers(#[trigger] allow[i], host)
    } else {
        !address::internal_literal(dialed_host(host))
    }
}

fn has_suffix(s: &Vec<char>, suffix: &Vec<char>) -> (r: bool)
    ensures
        r == ends_with(s@, suffix@),
{
    if s.len() < suffix.len() {
        return false;
    }
    let len: usize = s.len();
    let offset: usize = len - suffix.len();
    let mut i: usize = 0;
    while i < suffix.len()
        invariant
            i <= suffix@.len(),
            len == s@.len(),
            offset == len - suffix@.len(),
            forall|j: int| 0 <= j < i ==> s@[offset + j] == #[trigger] suffix@[j],
        decreases suffix@.len() - i,
    {
        if s[offset + i] != suffix[i] {
            proof {
                assert(s@.skip(offset as int)[i as int] != suffix@[i as int]);
            }
            return false;
        }
        i = i + 1;
    }
    proof {
        assert(s@.skip(offset as int) =~= suffix@);
    }
    true
}

fn entry_covers(entry: &str, host: &str) -> (r: bool)
    ensures
        r == covers(entry@, host@),
{
    let e = text::to_lower(text::trim_trailing(text::trim(entry).as_str(), '.').as_str());
    let h = text::trim_trailing(text::to_lower(host).as_str(), '.');
    let ev = text::to_chars(e.as_str());
    if ev.len() == 0 {
        return false;
    }
    if ev[0] == '.' {
        let bare = text::from_chars(&ev, 1, ev.len());
        proof {
            assert(bare@ =~= e@.skip(1));
        }
        h == bare || has_suffix(&text::to_chars(h.as_str()), &ev)
    } else {
        h == e
    }
}

/// Decides whether the relay dials `host` under an allow list.
pub fn destination_allowed(allow_destinations: &Vec<String>, host: &str) -> (r: bool)
    ensures
        r == allowed(text::texts(allow_destinations@), host@),
{
    let ghost allow = text::texts(allow_destinations@);
    if allow_destinations.len() > 0 {
        let mut i: usize = 0;
        while i < allow_destinations.len()
            invariant
                i <= allow_destinations@.len(),
                allow == text::texts(allow_destinations@),
                forall|j: int| 0 <= j < i ==> !covers(#[trigger] allow[j], host@),
            decreases allow_destinations@.len() - i,
        {
            if entry_covers(allow_destinations[i].as_str(), host) {
                proof {
                    assert(covers(allow[i as int], host@));
                }
                return true;
            }
            proof {
                assert(allow[i as int] == allow_destinations@[i as int]@);
            }
            i = i + 1;
        }
        return false;
    }
    let h = text::trim_trailing(text::to_lower(host).as_str(), '.');
    match address::parse_ip(h.as_str()) {
        Some(ip) => !address::is_internal_ip(&ip),
        None => true,
    }
}

/// With an empty allow list, no literal of an address of the relay's own
/// network is dialed, however it is written.
pub proof fn law_no_internal_literal_by_default(host: Seq<char>)
    requires
        address::internal_literal(dialed_host(host)),
    ensures
        !allowed(Seq::<Seq<char>>::empty(), host),
{
}

/// A list that is not empty has the final say: a host that no entry covers is
/// refused, a covered one is dialed even when it is internal.
pub proof fn law_allow_list_decides(allow: Seq<Seq<char>>, host: Seq<char>)
    requires
        allow.len() > 0,
    ensures
        allowed(allow, host) <==> exists|i: int|
            0 <= i < allow.len() && covers(#[trigger] allow[i], host),
{
}

/// Adding an entry to a list that is not empty refuses nothing that was dialed
/// before.
pub proof fn law_allow_list_grows(allow: Seq<Seq<char>>, entry: Seq<char>, host: Seq<char>)
    requires
        allow.len() > 0,
        allowed(allow, host),
    ensures
        allowed(allow.push(entry), host),
{
    let i = choose|i: int| 0 <= i < allow.len() && covers(#[trigger] allow[i], host);
    assert(allow.push(entry)[i] == allow[i]);
}

/// The case and the trailing dots of a host make no difference.
pub proof fn law_spelling_of_host(allow: Seq<Seq<char>>, a: Seq<char>, b: Seq<char>)
    requires
        dialed_host(a) == dialed_host(b),
    ensures
        allowed(allow, a) == allowed(allow, b),
{
    if allow.len() > 0 {
        assert forall|i: int| 0 <= i < allow.len() implies covers(#[trigger] allow[i], a) == covers(
            allow[i],
            b,
        ) by {}
    }
}

/// With an empty allow list the literal of an IPv4 address is dialed exactly
/// when its number lies outside the ranges of the relay's own network.
pub proof fn law_public_v4_by_default(host: Seq<char>, q: Seq<u8>)
    requires
        address::ipv4(dialed_host(host)) == Some(q),
    ensures
        allowed(Seq::<Seq<char>>::empty(), host) <==> {
            let n = q[0] * 0x100_0000 + q[1] * 0x1_0000 + q[2] * 0x100 + q[3];
            &&& 0 < n < 0xffff_ffff
            &&& !(0x0a00_0000 <= n < 0x0b00_0000)
            &&& !(0x6440_0000 <= n < 0x6480_0000)
            &&& !(0x7f00_0000 <= n < 0x8000_0000)
            &&& !(0xa9fe_0000 <= n < 0xa9ff_0000)
            &&& !(0xac10_0000 <= n < 0xac20_0000)
            &&& !(0xc0a8_0000 <= n < 0xc0a9_0000)
        },
{
    address::law_ipv4_has_four_octets(dialed_host(host));
    address::law_internal_v4_ranges(q);
}

/// With an empty allow list a host that is no address literal is dialed, and
/// the literal of an IPv6 address unless it is unspecified, loopback, unique
/// local, link local or an internal IPv4 address in IPv6 form.
pub proof fn law_names_and_v6_by_default(host: Seq<char>)
    requires
        address::ipv4(dialed_host(host)) is None,
    ensures
        match address::ipv6(dialed_host(host)) {
            None => allowed(Seq::<Seq<char>>::empty(), host),
            Some(g) => allowed(Seq::<Seq<char>>::empty(), host) <==> !address::internal_v6(g),
        },
{
}

/// A host is compared without regard to the case of its letters or to dots at
/// its end.
pub proof fn law_case_and_dots_of_host(allow: Seq<Seq<char>>, host: Seq<char>)
    ensures
        allowed(allow, text::lower(host)) == allowed(allow, host),
        allowed(allow, host.push('.')) == allowed(allow, host),
{
    if host.len() > 0 {
        text::law_lower_changes_capitals_only(host, 0);
    } else {
        assert(text::lower(host) =~= host);
    }
    assert(text::lower(host.push('.')) =~= text::lower(host).push('.'));
    assert(text::lower(host).push('.').drop_last() =~= text::lower(host));
    law_spelling_of_host(allow, text::lower(host), host);
    law_spelling_of_host(allow, host.push('.'), host);
}

/// A name as it is compared: in lower case, without blanks around it and
/// without a dot at its end.
pub open spec fn is_plain(name: Seq<char>) -> bool {
    &&& text::lower(name) == name
    &&& text::trimmed(name) == name
    &&& name.len() > 0 ==> name.last() != '.'
}

/// An entry that does not begin with a dot covers its own name and nothing
/// else: no subdomain and no name that merely ends like it.
pub proof fn law_plain_entry_is_exact(entry: Seq<char>, host: Seq<char>)
    requires
        is_plain(entry),
        is_plain(host),
        entry.len() > 0,
        entry[0] != '.',
    ensures
        covers(entry, host) <==> host == entry,
{
}

/// An entry that begins with a dot covers the domain behind the dot and every
/// name below it, and nothing else.
pub proof fn law_dot_entry_covers_domain(domain: Seq<char>, host: Seq<char>)
    requires
        is_plain(seq!['.'] + domain),
        is_plain(host),
        domain.len() > 0,
    ensures
        covers(seq!['.'] + domain, host) <==> host == domain || exists|below: Seq<char>|
            host == #[trigger] (below + (seq!['.'] + domain)),
{
    let e = seq!['.'] + domain;
    assert(allow_entry(e) == e);
    assert(e.skip(1) =~= domain);
    if ends_with(host, e) {
        let below = host.take(host.len() - e.len());
        assert(host =~= below + e);
    }
    if exists|below: Seq<char>| host == #[trigger] (below + e) {
        let below = choose|below: Seq<char>| host == #[trigger] (below + e);
        assert(host.skip(host.len() - e.len()) =~= e);
    }
}

/// A blank entry covers no host.
pub proof fn law_blank_entry_covers_nothing(entry: Seq<char>, host: Seq<char>)
    requires
        forall|i: int| 0 <= i < entry.len() ==> text::is_space(#[trigger] entry[i]),
    ensures
        !covers(entry, host),
{
    text::law_trimmed_is_the_core(entry, Seq::empty(), Seq::empty());
    assert(entry + Seq::<char>::empty() + Seq::<char>::empty() =~= entry);
    assert(text::trimmed(entry) =~= Seq::empty());
    assert(allow_entry(entry).len() == 0);
}

/// An entry is compared without the blanks around it, the dots at its end and
/// the case of its letters: one without a dot before it covers the host of its
/// name, one with a dot the domain behind it and the names below it.
pub proof fn law_entry_spelling(
    before: Seq<char>,
    core: Seq<char>,
    dots: nat,
    after: Seq<char>,
    host: Seq<char>,
)
    requires
        forall|i: int| 0 <= i < before.len() ==> text::is_space(#[trigger] before[i]),
        forall|i: int| 0 <= i < after.len() ==> text::is_space(#[trigger] after[i]),
        core.len() > 0,
        !text::is_space(core[0]),
        !text::is_space(core.last()),
        core.last() != '.',
    ensures
        ({
            let entry = before + (core + Seq::new(dots, |i: int| '.')) + after;
            let h = text::strip_trailing(text::lower(host), '.');
            let e = text::lower(core);
            &&& core[0] != '.' ==> (covers(entry, host) <==> h == e)
            &&& core[0] == '.' ==> (covers(entry, host) <==> h == e.skip(1) || (h.len() >= e.len()
                && h.skip(h.len() - e.len()) == e))
        }),
{
    let full = core + Seq::new(dots, |i: int| '.');
    let entry = before + full + after;
    assert(full[0] == core[0]);
    if dots > 0 {
        assert(full.last() == '.');
    } else {
        assert(full =~= core);
    }
    text::law_trimmed_is_the_core(before, full, after);
    text::law_strip_trailing_is_exact(core, '.', dots);
    text::law_lower_changes_capitals_only(core, 0);
    assert(allow_entry(entry) == text::lower(core));
    assert(text::lower(core)[0] == '.' <==> core[0] == '.');
}

proof fn lemma_digits_have_no_case(n: nat)
    ensures
        text::lower(numeral::decimal(n)) == numeral::decimal(n),
        numeral::decimal(n).len() > 0,
        numeral::decimal(n).last() != '.',
{
    let s = numeral::decimal(n);
    numeral::lemma_decimal_digits(n);
    assert(numeral::is_digit(s[s.len() - 1]));
    assert forall|i: int| 0 <= i < s.len() implies text::lower(s)[i] == #[trigger] s[i] by {
        assert(numeral::is_digit(s[i]));
    }
    assert(text::lower(s) =~= s);
}

/// With an empty allow list the address a.b.c.d, written with dots, is dialed
/// exactly when its number lies outside the ranges of the relay's own network;
/// in particular 172.b.c.d is dialed unless b is 16 to 31.
pub proof fn law_dotted_address_by_default(a: u8, b: u8, c: u8, d: u8)
    ensures
        ({
            let host = numeral::decimal(a as nat) + seq!['.'] + numeral::decimal(b as nat)
                + seq!['.'] + numeral::decimal(c as nat) + seq!['.'] + numeral::decimal(d as nat);
            let n = a * 0x100_0000 + b * 0x1_0000 + c * 0x100 + d;
            &&& allowed(Seq::<Seq<char>>::empty(), host) <==> {
                &&& 0 < n < 0xffff_ffff
                &&& !(0x0a00_0000 <= n < 0x0b00_0000)
                &&& !(0x6440_0000 <= n < 0x6480_0000)
                &&& !(0x7f00_0000 <= n < 0x8000_0000)
                &&& !(0xa9fe_0000 <= n < 0xa9ff_0000)
                &&& !(0xac10_0000 <= n < 0xac20_0000)
                &&& !(0xc0a8_0000 <= n < 0xc0a9_0000)
            }
            &&& a == 172 ==> (allowed(Seq::<Seq<char>>::empty(), host) <==> !(16 <= b <= 31))
        }),
{
    let ta = numeral::decimal(a as nat);
    let tb = numeral::decimal(b as nat);
    let tc = numeral::decimal(c as nat);
    let td = numeral::decimal(d as nat);
    let host = ta + seq!['.'] + tb + seq!['.'] + tc + seq!['.'] + td;
    lemma_digits_have_no_case(a as nat);
    lemma_digits_have_no_case(b as nat);
    lemma_digits_have_no_case(c as nat);
    lemma_digits_have_no_case(d as nat);
    assert(text::lower(host) =~= text::lower(ta) + seq!['.'] + text::lower(tb) + seq!['.']
        + text::lower(tc) + seq!['.'] + text::lower(td));
    assert(text::lower(host) =~= host);
    assert(host.last() == td.last());
    assert(dialed_host(host) == host);
    address::law_dotted_quad_reads_back(a, b, c, d);
    law_public_v4_by_default(host, seq![a, b, c, d]);
}

} // verus!
