//! The payload of a Connect frame: the destination as `host:port`.
use vstd::prelude::*;
use vstd::utf8::{decode_utf8, encode_utf8, valid_utf8};

use crate::numeral;
use crate::text;

verus! {

/// A destination as text.
pub open spec fn address_text(host: Seq<char>, port: u16) -> Seq<char> {
    host + ":"@ + numeral::decimal(port as nat)
}

/// The position of the last colon.
pub open spec fn last_colon(s: Seq<char>) -> Option<int>
    decreases s.len(),
{
    if s.len() == 0 {
        None
    } else if s.last() == ':' {
        Some(s.len() - 1)
    } else {
        last_colon(s.drop_last())
    }
}

/// The destination that a text denotes: the host before the last colon, the
/// port after it.
pub open spec fn target(s: Seq<char>) -> Option<(Seq<char>, u16)> {
    match last_colon(s) {
        Some(i) => match numeral::parsed(s.skip(i + 1), 0xffff) {
            Some(port) => Some((s.take(i), port as u16)),
            None => None,
        },
        None => None,
    }
}

/// The destination that a payload denotes.
pub open spec fn payload_target(payload: Seq<u8>) -> Option<(Seq<char>, u16)> {
    if valid_utf8(payload) {
        target(decode_utf8(payload))
    } else {
        None
    }
}

/// Writes a destination as text.
pub fn connect_address(host: &str, port: u16) -> (s: String)
    ensures
        s@ == address_text(host@, port),
{
    host.to_owned().concat(":").concat(numeral::to_decimal(port as u64).as_str())
}

proof fn lemma_last_colon(s: Seq<char>, k: int)
    requires
        0 <= k < s.len(),
        s[k] == ':',
        forall|i: int| k < i < s.len() ==> s[i] != ':',
    ensures
        last_colon(s) == Some(k),
    decreases s.len(),
{
    if k < s.len() - 1 {
        assert(s[s.len() - 1] != ':');
        assert forall|i: int| k < i < s.drop_last().len() implies s.drop_last()[i] != ':' by {
            assert(s[i] != ':');
        }
        lemma_last_colon(s.drop_last(), k);
    }
}

proof fn lemma_no_colon(s: Seq<char>)
    requires
        forall|i: int| 0 <= i < s.len() ==> s[i] != ':',
    ensures
        last_colon(s) is None,
    decreases s.len(),
{
    if s.len() > 0 {
        assert(s[s.len() - 1] != ':');
        assert forall|i: int| 0 <= i < s.drop_last().len() implies s.drop_last()[i] != ':' by {
            assert(s[i] != ':');
        }
        lemma_no_colon(s.drop_last());
    }
}

/// Reads a destination from the payload of a Connect frame.
pub fn parse_connect_addr(payload: &[u8]) -> (r: Option<(String, u16)>)
    ensures
        match r {
            Some(t) => payload_target(payload@) == Some((t.0@, t.1)),
            None => payload_target(payload@) is None,
        },
{
    broadcast use vstd::utf8::encode_utf8_decode_utf8, vstd::utf8::encode_utf8_valid_utf8;

    let s = match text::utf8_text(payload) {
        Some(s) => s,
        None => return None,
    };
    proof {
        assert(decode_utf8(encode_utf8(s@)) == s@);
        assert(valid_utf8(encode_utf8(s@)));
    }
    let v = text::to_chars(s.as_str());
    let mut k: usize = v.len();
    while 0 < k && v[k - 1] != ':'
        invariant
            k <= v@.len(),
            forall|i: int| k <= i < v@.len() ==> v@[i] != ':',
        ensures
            k <= v@.len(),
            forall|i: int| k <= i < v@.len() ==> v@[i] != ':',
            k == 0 || v@[k - 1] == ':',
        decreases k,
    {
        k = k - 1;
    }
    if k == 0 {
        proof {
            lemma_no_colon(v@);
        }
        return None;
    }
    proof {
        lemma_last_colon(v@, k - 1);
    }
    let host = text::from_chars(&v, 0, k - 1);
    let port = text::from_chars(&v, k, v.len());
    proof {
        assert(host@ =~= v@.take(k - 1));
        assert(port@ =~= v@.skip(k as int));
    }
    match numeral::parse_u16(port.as_str()) {
        Some(port) => Some((host, port)),
        None => None,
    }
}

/// The relay reads from a Connect frame the destination that the client wrote
/// into it.
pub proof fn law_connect_reads_back(host: Seq<char>, port: u16)
    ensures
        payload_target(encode_utf8(address_text(host, port))) == Some((host, port)),
{
    broadcast use vstd::utf8::encode_utf8_decode_utf8, vstd::utf8::encode_utf8_valid_utf8;

    reveal_strlit(":");
    let s = address_text(host, port);
    assert(decode_utf8(encode_utf8(s)) == s);
    assert(valid_utf8(encode_utf8(s)));
    numeral::lemma_decimal_digits(port as nat);
    numeral::law_decimal_reads_back(port as nat, 0xffff);
    assert forall|i: int| host.len() < i < s.len() implies s[i] != ':' by {
        assert(numeral::is_digit(numeral::decimal(port as nat)[i - host.len() - 1]));
    }
    lemma_last_colon(s, host.len() as int);
    assert(s.skip(host.len() as int + 1) =~= numeral::decimal(port as nat));
    assert(s.take(host.len() as int) =~= host);
}

/// An address is read at its last colon: what stands before it is the host,
/// colons and all, and what stands after it has to be a port number.
pub proof fn law_target_at_last_colon(host: Seq<char>, port: Seq<char>)
    requires
        forall|i: int| 0 <= i < port.len() ==> #[trigger] port[i] != ':',
    ensures
        match numeral::parsed(port, 65535) {
            Some(n) => target(host + seq![':'] + port) == Some((host, n as u16)),
            None => target(host + seq![':'] + port) is None,
        },
        target(port) is None,
{
    let s = host + seq![':'] + port;
    let k = host.len() as int;
    assert forall|i: int| k < i < s.len() implies s[i] != ':' by {
        assert(s[i] == port[i - k - 1]);
    }
    lemma_last_colon(s, k);
    assert(s.skip(k + 1) =~= port);
    assert(s.take(k) =~= host);
    lemma_no_colon(port);
}

} // verus!
