//! Recognising the block pages that CDNs serve to datacenter addresses, and
//! the hint that goes to the log at most once per host.
use vstd::prelude::*;
use vstd::slice::slice_subrange;
use vstd::utf8::encode_utf8;

use crate::numeral;
use crate::text;

verus! {

/// How much of a response is inspected.
pub const SCAN_LEN: usize = 16384;

/// The ASCII lower-case form of a byte; other bytes are unchanged.
pub open spec fn lower_byte(b: u8) -> u8 {
    if 65 <= b <= 90 {
        (b + 32) as u8
    } else {
        b
    }
}

/// `needle` stands in `hay` at position `i`, up to ASCII case.
pub open spec fn stands_at(hay: Seq<u8>, needle: Seq<u8>, i: int) -> bool {
    &&& 0 <= i
    &&& i + needle.len() <= hay.len()
    &&& forall|j: int|
        0 <= j < needle.len() ==> lower_byte(#[trigger] needle[j]) == lower_byte(hay[i + j])
}

/// `needle` stands somewhere in `hay`, up to ASCII case.
pub open spec fn occurs_ci(hay: Seq<u8>, needle: Seq<u8>) -> bool {
    exists|i: int| stands_at(hay, needle, i)
}

/// The literal `marker` stands somewhere in `hay`, up to ASCII case.
pub open spec fn has_marker(hay: Seq<u8>, marker: Seq<char>) -> bool {
    occurs_ci(hay, encode_utf8(marker))
}

/// The position of the first byte that is `a` or `b`; the length if there is
/// none.
pub open spec fn until(s: Seq<u8>, a: u8, b: u8) -> int
    decreases s.len(),
{
    if s.len() == 0 || s[0] == a || s[0] == b {
        0
    } else {
        1 + until(s.skip(1), a, b)
    }
}

/// The bytes begin as an HTTP/1.x response does, with `HTTP/1.`.
pub open spec fn has_version(s: Seq<u8>) -> bool {
    s.len() >= 7 && s.take(7) == seq![72u8, 84, 84, 80, 47, 49, 46]
}

/// The second space-separated field of the first line, if the line is
/// terminated and has one.
pub open spec fn status_field(s: Seq<u8>) -> Option<Seq<u8>> {
    let end = until(s, 13, 10);
    let line = s.take(end);
    let space = until(line, 32, 32);
    let rest = line.skip(space + 1);
    if end < s.len() && space < line.len() {
        Some(rest.take(until(rest, 32, 32)))
    } else {
        None
    }
}

/// The bytes as characters of the same code.
pub open spec fn as_chars(s: Seq<u8>) -> Seq<char> {
    s.map_values(|b: u8| b as char)
}

/// The status code of a raw HTTP/1.x response; bytes that do not begin as one
/// have none.
pub open spec fn status_code(s: Seq<u8>) -> Option<nat> {
    match status_field(s) {
        Some(f) => if has_version(s) {
            numeral::parsed(as_chars(f), 0xffff)
        } else {
            None
        },
        None => None,
    }
}

/// A status that denies access.
pub open spec fn denies(code: nat) -> bool {
    code == 401 || code == 403 || code == 429 || code == 451 || code == 503
}

/// The part of a response that is inspected.
pub open spec fn scanned(response: Seq<u8>) -> Seq<u8> {
    if response.len() <= SCAN_LEN {
        response
    } else {
        response.take(SCAN_LEN as int)
    }
}

/// The inspected part has Akamai's block-page link, or Akamai's server name
/// under a status that denies access.
pub open spec fn akamai_block(p: Seq<u8>) -> bool {
    ||| has_marker(p, "errors.edgesuite.net"@)
    ||| has_marker(p, "AkamaiGHost"@) && status_code(p) is Some && denies(status_code(p)->0)
}

/// The inspected part has one of Cloudflare's challenge markers.
pub open spec fn cloudflare_block(p: Seq<u8>) -> bool {
    ||| has_marker(p, "cf-mitigated:"@)
    ||| has_marker(p, "Just a moment..."@)
    ||| has_marker(p, "__cf_chl_"@)
    ||| has_marker(p, "challenge-platform"@)
}

/// The CDN whose block page the response is.
pub open spec fn verdict(response: Seq<u8>) -> Option<Seq<char>> {
    if akamai_block(scanned(response)) {
        Some("Akamai"@)
    } else if cloudflare_block(scanned(response)) {
        Some("Cloudflare"@)
    } else {
        None
    }
}

fn to_lower_byte(b: u8) -> (r: u8)
    ensures
        r == lower_byte(b),
{
    if 65 <= b && b <= 90 {
        b + 32
    } else {
        b
    }
}

fn matches_at(haystack: &[u8], needle: &[u8], i: usize) -> (r: bool)
    requires
        i + needle@.len() <= haystack@.len(),
    ensures
        r == stands_at(haystack@, needle@, i as int),
{
    let hay_len: usize = haystack.len();
    let mut j: usize = 0;
    while j < needle.len()
        invariant
            j <= needle@.len(),
            i + needle@.len() <= hay_len,
            hay_len == haystack@.len(),
            forall|k: int|
                0 <= k < j ==> lower_byte(#[trigger] needle@[k]) == lower_byte(haystack@[i + k]),
        decreases needle@.len() - j,
    {
        if to_lower_byte(needle[j]) != to_lower_byte(haystack[i + j]) {
            return false;
        }
        j = j + 1;
    }
    true
}

/// Tests whether `needle` occurs in `haystack` up to ASCII case.
pub fn contains_ascii_ci(haystack: &[u8], needle: &[u8]) -> (r: bool)
    ensures
        r == occurs_ci(haystack@, needle@),
{
    if haystack.len() < needle.len() {
        return false;
    }
    let last: usize = haystack.len() - needle.len();
    let mut i: usize = 0;
    loop
        invariant
            i <= last,
            last == haystack@.len() - needle@.len(),
            forall|k: int| 0 <= k < i ==> !stands_at(haystack@, needle@, k),
        decreases last - i,
    {
        if matches_at(haystack, needle, i) {
            return true;
        }
        if i == last {
            return false;
        }
        i = i + 1;
    }
}

proof fn lemma_until(s: Seq<u8>, a: u8, b: u8, k: int)
    requires
        0 <= k <= s.len(),
        forall|i: int| 0 <= i < k ==> #[trigger] s[i] != a && s[i] != b,
        k == s.len() || s[k] == a || s[k] == b,
    ensures
        until(s, a, b) == k,
    decreases k,
{
    if k > 0 {
        assert(s[0] != a && s[0] != b);
        assert forall|i: int| 0 <= i < k - 1 implies #[trigger] s.skip(1)[i] != a && s.skip(1)[i]
            != b by {
            assert(s[i + 1] != a && s[i + 1] != b);
        }
        lemma_until(s.skip(1), a, b, k - 1);
    }
}

fn find_either(s: &[u8], a: u8, b: u8) -> (k: usize)
    ensures
        k == until(s@, a, b),
        k <= s@.len(),
{
    let mut k: usize = 0;
    while k < s.len() && s[k] != a && s[k] != b
        invariant
            k <= s@.len(),
            forall|i: int| 0 <= i < k ==> #[trigger] s@[i] != a && s@[i] != b,
        ensures
            k <= s@.len(),
            forall|i: int| 0 <= i < k ==> #[trigger] s@[i] != a && s@[i] != b,
            k == s@.len() || s@[k as int] == a || s@[k as int] == b,
        decreases s@.len() - k,
    {
        k = k + 1;
    }
    proof {
        lemma_until(s@, a, b, k as int);
    }
    k
}

fn bytes_to_text(s: &[u8]) -> (r: String)
    ensures
        r@ == as_chars(s@),
{
    let mut r = String::new();
    let mut i: usize = 0;
    while i < s.len()
        invariant
            i <= s@.len(),
            r@ == as_chars(s@.take(i as int)),
        decreases s@.len() - i,
    {
        r.push(s[i] as char);
        i = i + 1;
        proof {
            assert(r@ =~= as_chars(s@.take(i as int)));
        }
    }
    proof {
        assert(s@.take(i as int) =~= s@);
    }
    r
}

fn starts_with_version(s: &[u8]) -> (r: bool)
    ensures
        r == has_version(s@),
{
    let r = s.len() >= 7 && s[0] == 72 && s[1] == 84 && s[2] == 84 && s[3] == 80 && s[4] == 47
        && s[5] == 49 && s[6] == 46;
    proof {
        let version = seq![72u8, 84, 84, 80, 47, 49, 46];
        if r {
            assert(s@.take(7) =~= version);
        } else if has_version(s@) {
            assert forall|i: int| 0 <= i < 7 implies s@[i] == version[i] by {
                assert(s@.take(7)[i] == version[i]);
            }
        }
    }
    r
}

/// The status code at the start of a raw HTTP/1.x response: the second field
/// of a terminated first line that begins with `HTTP/1.`, as an unsigned 16-bit
/// numeral. Anything else, such as a fragment of a body, has none.
pub fn parse_status_code(response: &[u8]) -> (r: Option<u16>)
    ensures
        match r {
            Some(code) => status_code(response@) == Some(code as nat),
            None => status_code(response@) is None,
        },
{
    if !starts_with_version(response) {
        return None;
    }
    let end = find_either(response, 13, 10);
    let line = slice_subrange(response, 0, end);
    proof {
        assert(line@ =~= response@.take(end as int));
    }
    if end == response.len() {
        return None;
    }
    let space = find_either(line, 32, 32);
    if space == line.len() {
        return None;
    }
    let rest = slice_subrange(line, space + 1, line.len());
    proof {
        assert(rest@ =~= line@.skip(space + 1));
    }
    let field = slice_subrange(rest, 0, find_either(rest, 32, 32));
    proof {
        assert(field@ =~= rest@.take(until(rest@, 32, 32)));
    }
    numeral::parse_u16(bytes_to_text(field).as_str())
}

/// Tests for a status that denies access.
pub fn is_deny_status(code: u16) -> (r: bool)
    ensures
        r == denies(code as nat),
{
    code == 401 || code == 403 || code == 429 || code == 451 || code == 503
}

/// Names the CDN whose block page a raw response is. Only the first 16 KiB
/// count.
pub fn detect(response: &[u8]) -> (r: Option<&'static str>)
    ensures
        match r {
            Some(cdn) => verdict(response@) == Some(cdn@),
            None => verdict(response@) is None,
        },
{
    let len: usize = if response.len() <= SCAN_LEN {
        response.len()
    } else {
        SCAN_LEN
    };
    let prefix = slice_subrange(response, 0, len);
    proof {
        assert(prefix@ =~= scanned(response@));
    }
    if contains_ascii_ci(prefix, "errors.edgesuite.net".as_bytes()) {
        return Some("Akamai");
    }
    if contains_ascii_ci(prefix, "AkamaiGHost".as_bytes()) {
        if let Some(code) = parse_status_code(prefix) {
            if is_deny_status(code) {
                return Some("Akamai");
            }
        }
    }
    if contains_ascii_ci(prefix, "cf-mitigated:".as_bytes()) || contains_ascii_ci(
        prefix,
        "Just a moment...".as_bytes(),
    ) || contains_ascii_ci(prefix, "__cf_chl_".as_bytes()) || contains_ascii_ci(
        prefix,
        "challenge-platform".as_bytes(),
    ) {
        return Some("Cloudflare");
    }
    None
}

/// A host name in the form in which hosts are told apart: ASCII lower case,
/// without trailing dots.
pub open spec fn normal_host(host: Seq<char>) -> Seq<char> {
    text::lower(text::strip_trailing(host, '.'))
}

/// Lower-cases a host name and strips its trailing dots.
pub fn normalize_host(host: &str) -> (r: String)
    ensures
        r@ == normal_host(host@),
{
    text::to_lower(text::trim_trailing(host, '.').as_str())
}

/// The hosts that already had their hint. No host is held twice.
pub struct SeenHosts {
    hosts: Vec<String>,
}

impl View for SeenHosts {
    type V = Set<Seq<char>>;

    closed spec fn view(&self) -> Set<Seq<char>> {
        text::texts(self.hosts@).to_set()
    }
}

impl SeenHosts {
    #[verifier::type_invariant]
    spec fn inv(self) -> bool {
        text::texts(self.hosts@).no_duplicates()
    }

    /// No host yet.
    pub fn new() -> (s: SeenHosts)
        ensures
            s@ == Set::<Seq<char>>::empty(),
    {
        let hosts: Vec<String> = Vec::new();
        proof {
            assert(text::texts(hosts@).to_set() =~= Set::<Seq<char>>::empty());
        }
        SeenHosts { hosts }
    }
}

/// Adds `host` and reports whether it was new.
pub fn mark_first_seen(set: &mut SeenHosts, host: &str) -> (r: bool)
    ensures
        r == !old(set)@.contains(host@),
        final(set)@ == old(set)@.insert(host@),
{
    proof {
        use_type_invariant(&*set);
    }
    let ghost before = text::texts(set.hosts@);
    if text::contains_text(&set.hosts, host) {
        proof {
            assert(before.to_set().contains(host@));
            assert(set@ =~= set@.insert(host@));
        }
        return false;
    }
    let mut hosts: Vec<String> = Vec::new();
    std::mem::swap(&mut hosts, &mut set.hosts);
    hosts.push(host.to_owned());
    proof {
        let after = text::texts(hosts@);
        assert(after =~= before.push(host@));
        assert forall|i: int, j: int| 0 <= i < after.len() && 0 <= j < after.len() && i
            != j implies after[i] != after[j] by {
            if i < before.len() {
                assert(before.contains(before[i]));
            }
            if j < before.len() {
                assert(before.contains(before[j]));
            }
        }
        assert(!before.to_set().contains(host@));
        before.lemma_push_to_set_commute(host@);
    }
    set.hosts = hosts;
    true
}

/// The hint for a host that a CDN blocks.
pub open spec fn hint_text(host: Seq<char>, cdn: Seq<char>) -> Seq<char> {
    host + " responded with a "@ + cdn + " bot-block \u{2014} add \""@ + host
        + "\" to exit_node.hosts in config.json to route via your exit node (see assets/exit_node/README.md)"@
}

/// What a response makes of the hosts already hinted at: the hint that is due,
/// if any, and the hosts hinted at afterwards.
pub open spec fn noted(seen: Set<Seq<char>>, host: Seq<char>, response: Seq<u8>) -> (
    Option<Seq<char>>,
    Set<Seq<char>>,
) {
    match verdict(response) {
        Some(cdn) => {
            let h = normal_host(host);
            (
                if seen.contains(h) {
                    None
                } else {
                    Some(hint_text(h, cdn))
                },
                seen.insert(h),
            )
        },
        None => (None, seen),
    }
}

/// The hint to log for a response, due at most once per host.
pub fn note_if_blocked(seen: &mut SeenHosts, host: &str, response: &[u8]) -> (r: Option<String>)
    ensures
        match r {
            Some(hint) => noted(old(seen)@, host@, response@).0 == Some(hint@),
            None => noted(old(seen)@, host@, response@).0 is None,
        },
        final(seen)@ == noted(old(seen)@, host@, response@).1,
{
    let cdn = match detect(response) {
        Some(cdn) => cdn,
        None => return None,
    };
    let host = normalize_host(host);
    if !mark_first_seen(seen, host.as_str()) {
        return None;
    }
    let hint = host.clone().concat(" responded with a ").concat(cdn).concat(
        " bot-block \u{2014} add \"",
    ).concat(host.as_str()).concat(
        "\" to exit_node.hosts in config.json to route via your exit node (see assets/exit_node/README.md)",
    );
    Some(hint)
}

/// A host has its hint at most once: after any response for a host, a blocked
/// response for the same host, however spelled, gives none.
pub proof fn law_hint_once_per_host(
    seen: Set<Seq<char>>,
    first: Seq<char>,
    first_response: Seq<u8>,
    second: Seq<char>,
    second_response: Seq<u8>,
)
    requires
        verdict(first_response) is Some,
        normal_host(first) == normal_host(second),
    ensures
        noted(noted(seen, first, first_response).1, second, second_response).0 is None,
        noted(noted(seen, first, first_response).1, second, second_response).1 == noted(
            seen,
            first,
            first_response,
        ).1,
{
    let after = noted(seen, first, first_response).1;
    assert(after.insert(normal_host(second)) =~= after);
}

/// A blocked host that was not hinted at yet has its hint, whatever other hosts
/// were hinted at.
pub proof fn law_new_blocked_host_is_hinted(seen: Set<Seq<char>>, host: Seq<char>, response: Seq<u8>)
    requires
        !seen.contains(normal_host(host)),
    ensures
        noted(seen, host, response).0 is Some <==> verdict(response) is Some,
{
}

/// The verdict depends on the first 16 KiB only.
pub proof fn law_verdict_of_prefix(a: Seq<u8>, b: Seq<u8>)
    requires
        scanned(a) == scanned(b),
    ensures
        verdict(a) == verdict(b),
{
}

proof fn lemma_strip_trailing_done(s: Seq<char>, c: char)
    ensures
        text::strip_trailing(s, c).len() == 0 || text::strip_trailing(s, c).last() != c,
    decreases s.len(),
{
    if s.len() > 0 && s.last() == c {
        lemma_strip_trailing_done(s.drop_last(), c);
    }
}

/// A host name in normal form is its own normal form.
pub proof fn law_normal_host_idempotent(host: Seq<char>)
    ensures
        normal_host(normal_host(host)) == normal_host(host),
{
    let s = text::strip_trailing(host, '.');
    lemma_strip_trailing_done(host, '.');
    let n = text::lower(s);
    assert(text::strip_trailing(n, '.') == n);
    assert(text::lower(n) =~= n);
}

/// The status of a response is the number between the first and the second
/// blank of its first line, or to the end of that line, whatever follows.
pub proof fn law_status_of_first_line(
    minor: Seq<u8>,
    code: Seq<u8>,
    rest: Seq<u8>,
    end: u8,
    tail: Seq<u8>,
)
    requires
        end == 13 || end == 10,
        forall|i: int|
            0 <= i < minor.len() ==> #[trigger] minor[i] != 32 && minor[i] != 13 && minor[i] != 10,
        forall|i: int|
            0 <= i < code.len() ==> #[trigger] code[i] != 32 && code[i] != 13 && code[i] != 10,
        forall|i: int| 0 <= i < rest.len() ==> #[trigger] rest[i] != 13 && rest[i] != 10,
        rest.len() > 0 ==> rest[0] == 32,
    ensures
        status_code(
            seq![72u8, 84, 84, 80, 47, 49, 46] + minor + seq![32u8] + code + rest + seq![end]
                + tail,
        ) == numeral::parsed(as_chars(code), 0xffff),
{
    let version = seq![72u8, 84, 84, 80, 47, 49, 46];
    let head = version + minor;
    let line = head + seq![32u8] + code + rest;
    let s = version + minor + seq![32u8] + code + rest + seq![end] + tail;
    assert(s =~= line + seq![end] + tail);
    assert forall|i: int| 0 <= i < line.len() implies #[trigger] s[i] != 13 && s[i] != 10 by {
        if i < 7 {
            assert(s[i] == version[i]);
        } else if i < head.len() {
            assert(s[i] == minor[i - 7]);
        } else if i == head.len() {
            assert(s[i] == 32);
        } else if i < head.len() + 1 + code.len() {
            assert(s[i] == code[i - head.len() - 1]);
        } else {
            assert(s[i] == rest[i - head.len() - 1 - code.len()]);
        }
    }
    assert(s[line.len() as int] == end);
    lemma_until(s, 13, 10, line.len() as int);
    assert(s.take(line.len() as int) =~= line);
    assert forall|i: int| 0 <= i < head.len() implies #[trigger] line[i] != 32 by {
        if i < 7 {
            assert(line[i] == version[i]);
        } else {
            assert(line[i] == minor[i - 7]);
        }
    }
    lemma_until(line, 32, 32, head.len() as int);
    let after = line.skip(head.len() as int + 1);
    assert(after =~= code + rest);
    assert forall|i: int| 0 <= i < code.len() implies #[trigger] after[i] != 32 by {
        assert(after[i] == code[i]);
    }
    lemma_until(after, 32, 32, code.len() as int);
    assert(after.take(code.len() as int) =~= code);
    assert(s.take(7) =~= version);
}

/// A response that does not begin with `HTTP/1.` has no status.
pub proof fn law_no_status_without_version(s: Seq<u8>, i: int)
    requires
        s.len() < 7 || (0 <= i < 7 && s[i] != seq![72u8, 84, 84, 80, 47, 49, 46][i]),
    ensures
        status_code(s) is None,
{
    if s.len() >= 7 && has_version(s) {
        assert(s.take(7)[i] == s[i]);
    }
}

/// The statuses that mean a refusal: unauthorized, forbidden, too many
/// requests, unavailable for legal reasons, service unavailable.
pub proof fn law_refusing_statuses(code: nat)
    ensures
        denies(code) <==> code == 401 || code == 403 || code == 429 || code == 451 || code == 503,
        200 <= code < 400 ==> !denies(code),
{
}

/// A marker is found wherever it stands, in whatever case it is written.
pub proof fn law_marker_is_found_anywhere(
    before: Seq<u8>,
    written: Seq<u8>,
    after: Seq<u8>,
    marker: Seq<u8>,
)
    requires
        written.len() == marker.len(),
        forall|i: int|
            0 <= i < marker.len() ==> {
                ||| #[trigger] written[i] == marker[i]
                ||| 65 <= marker[i] <= 90 && written[i] == marker[i] + 32
                ||| 97 <= marker[i] <= 122 && written[i] == marker[i] - 32
            },
    ensures
        occurs_ci(before + written + after, marker),
{
    let hay = before + written + after;
    let at = before.len() as int;
    assert forall|j: int| 0 <= j < marker.len() implies lower_byte(#[trigger] marker[j])
        == lower_byte(hay[at + j]) by {
        assert(hay[at + j] == written[j]);
    }
    assert(stands_at(hay, marker, at));
}

/// A marker is not found in bytes that are shorter than it.
pub proof fn law_marker_needs_room(hay: Seq<u8>, marker: Seq<u8>)
    requires
        hay.len() < marker.len(),
    ensures
        !occurs_ci(hay, marker),
{
}

/// Which block page is recognised, by the first 16 KiB alone: Akamai's by its
/// error host, or by its server name together with a refusing status; else
/// Cloudflare's by any of its four markers; else none.
pub proof fn law_recognised_pages(response: Seq<u8>)
    ensures
        ({
            let p = if response.len() <= 16384 {
                response
            } else {
                response.take(16384)
            };
            let akamai = has_marker(p, "errors.edgesuite.net"@) || (has_marker(p, "AkamaiGHost"@)
                && status_code(p) is Some && denies(status_code(p)->0));
            let cloudflare = has_marker(p, "cf-mitigated:"@) || has_marker(p, "Just a moment..."@)
                || has_marker(p, "__cf_chl_"@) || has_marker(p, "challenge-platform"@);
            &&& akamai ==> verdict(response) == Some("Akamai"@)
            &&& !akamai && cloudflare ==> verdict(response) == Some("Cloudflare"@)
            &&& !akamai && !cloudflare ==> verdict(response) is None
        }),
{
}

/// Hosts are told apart without regard to case or trailing dots.
pub proof fn law_host_spellings(host: Seq<char>)
    ensures
        normal_host(host.push('.')) == normal_host(host),
        normal_host(text::lower(host)) == normal_host(host),
    decreases host.len(),
{
    assert(host.push('.').drop_last() =~= host);
    let l = text::lower(host);
    if host.len() > 0 {
        law_host_spellings(host.drop_last());
        text::law_lower_changes_capitals_only(host, host.len() - 1);
        assert(l.drop_last() =~= text::lower(host.drop_last()));
        assert(l.last() == '.' <==> host.last() == '.');
        assert(text::lower(l) == l);
    } else {
        assert(l =~= host);
    }
}

/// The hint names the host and the network that blocked it.
pub proof fn law_hint_names_host_and_network(
    seen: Set<Seq<char>>,
    host: Seq<char>,
    response: Seq<u8>,
)
    requires
        !seen.contains(normal_host(host)),
        verdict(response) is Some,
    ensures
        noted(seen, host, response).0 == Some(
            normal_host(host) + " responded with a "@ + verdict(response)->0
                + " bot-block \u{2014} add \""@ + normal_host(host)
                + "\" to exit_node.hosts in config.json to route via your exit node (see assets/exit_node/README.md)"@,
        ),
        noted(seen, host, response).1.contains(normal_host(host)),
{
}

/// A response that no page is recognised in leaves no trace.
pub proof fn law_unblocked_host_is_not_noted(
    seen: Set<Seq<char>>,
    host: Seq<char>,
    response: Seq<u8>,
)
    requires
        verdict(response) is None,
    ensures
        noted(seen, host, response).0 is None,
        noted(seen, host, response).1 == seen,
{
}

} // verus!
