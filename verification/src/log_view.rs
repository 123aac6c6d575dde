//! The log panel: line levels, level colours, the ring of recent lines, and
//! the short forms of durations and byte counts.
use std::collections::VecDeque;

use vstd::prelude::*;

use crate::numeral;
use crate::text;

verus! {

/// How many lines the panel keeps.
pub const LOG_MAX: usize = 200;

/// The levels that have a colour.
#[derive(Debug, Clone, Copy, PartialEq, Eq, Structural)]
pub enum LogLevel {
    Info,
    Warn,
    Error,
}

/// A colour.
#[derive(Debug, Clone, Copy, PartialEq, Eq, Structural)]
pub struct Rgb {
    pub r: u8,
    pub g: u8,
    pub b: u8,
}

/// `s` begins with `token`.
pub open spec fn begins(s: Seq<char>, token: Seq<char>) -> bool {
    token.len() <= s.len() && s.take(token.len() as int) == token
}

/// The level whose token, with the spaces around it, `s` begins with.
pub open spec fn level_here(s: Seq<char>) -> Option<LogLevel> {
    if begins(s, " ERROR "@) {
        Some(LogLevel::Error)
    } else if begins(s, " WARN "@) {
        Some(LogLevel::Warn)
    } else if begins(s, " INFO "@) {
        Some(LogLevel::Info)
    } else {
        None
    }
}

/// The leftmost level token of a line.
pub open spec fn leftmost_level(s: Seq<char>) -> Option<LogLevel>
    decreases s.len(),
{
    if level_here(s) is Some {
        level_here(s)
    } else if s.len() == 0 {
        None
    } else {
        leftmost_level(s.skip(1))
    }
}

fn stands_at(line: &Vec<char>, at: usize, token: &str) -> (r: bool)
    requires
        at <= line@.len(),
    ensures
        r == begins(line@.skip(at as int), token@),
{
    let t = text::to_chars(token);
    let len: usize = line.len();
    if len - at < t.len() {
        return false;
    }
    let mut i: usize = 0;
    while i < t.len()
        invariant
            t@ == token@,
            len == line@.len(),
            at <= len,
            i <= t@.len() <= len - at,
            forall|j: int| 0 <= j < i ==> line@[at + j] == #[trigger] t@[j],
        decreases t@.len() - i,
    {
        if line[at + i] != t[i] {
            proof {
                assert(line@.skip(at as int).take(t@.len() as int)[i as int] != t@[i as int]);
            }
            return false;
        }
        i = i + 1;
    }
    proof {
        assert(line@.skip(at as int).take(t@.len() as int) =~= t@);
    }
    true
}

/// Tells the level of a log line by its leftmost level token.
pub fn classify_log_line(line: &str) -> (r: Option<LogLevel>)
    ensures
        r == leftmost_level(line@),
{
    let v = text::to_chars(line);
    let len: usize = v.len();
    let mut at: usize = 0;
    proof {
        assert(v@.skip(0) =~= v@);
    }
    loop
        invariant
            at <= len == v@.len(),
            leftmost_level(v@.skip(at as int)) == leftmost_level(line@),
        decreases len - at,
    {
        if stands_at(&v, at, " ERROR ") {
            return Some(LogLevel::Error);
        }
        if stands_at(&v, at, " WARN ") {
            return Some(LogLevel::Warn);
        }
        if stands_at(&v, at, " INFO ") {
            return Some(LogLevel::Info);
        }
        if at == len {
            return None;
        }
        proof {
            assert(v@.skip(at as int).skip(1) =~= v@.skip(at + 1));
        }
        at = at + 1;
    }
}

/// The hexadecimal digits of a colour: the trimmed text without one leading
/// `#`.
pub open spec fn color_digits(s: Seq<char>) -> Seq<char> {
    let t = text::trimmed(s);
    if t.len() > 0 && t[0] == '#' {
        t.skip(1)
    } else {
        t
    }
}

/// The byte that two hexadecimal digits denote.
pub open spec fn hex_byte(hi: char, lo: char) -> u8 {
    (numeral::hex_digit_value(hi)->0 * 16 + numeral::hex_digit_value(lo)->0) as u8
}

/// The colour that a text denotes.
pub open spec fn color_of(s: Seq<char>) -> Option<Rgb> {
    let d = color_digits(s);
    if d.len() == 6 && forall|i: int| 0 <= i < 6 ==> numeral::hex_digit_value(#[trigger] d[i]) is Some {
        Some(Rgb { r: hex_byte(d[0], d[1]), g: hex_byte(d[2], d[3]), b: hex_byte(d[4], d[5]) })
    } else {
        None
    }
}

/// The canonical text of a colour.
pub open spec fn color_text(c: Rgb) -> Seq<char> {
    seq!['#'] + numeral::hex2(c.r) + numeral::hex2(c.g) + numeral::hex2(c.b)
}

/// The canonical text of the colour that `value` denotes, or the default.
pub open spec fn normal_color(value: Seq<char>, default: Seq<char>) -> Seq<char> {
    match color_of(value) {
        Some(c) => color_text(c),
        None => default,
    }
}

fn read_hex_byte(hi: char, lo: char) -> (r: Option<u8>)
    ensures
        match r {
            Some(b) => numeral::hex_digit_value(hi) is Some && numeral::hex_digit_value(lo) is Some
                && b == hex_byte(hi, lo),
            None => numeral::hex_digit_value(hi) is None || numeral::hex_digit_value(lo) is None,
        },
{
    match (numeral::from_hex_digit(hi), numeral::from_hex_digit(lo)) {
        (Some(h), Some(l)) => Some(h * 16 + l),
        _ => None,
    }
}

/// Reads a colour written `#RRGGBB` or `RRGGBB`, in either case and with
/// whitespace around it.
pub fn parse_hex_color(s: &str) -> (r: Option<Rgb>)
    ensures
        r == color_of(s@),
{
    let t = text::trim(s);
    let v = text::to_chars(t.as_str());
    let from: usize = if v.len() > 0 && v[0] == '#' {
        1
    } else {
        0
    };
    let ghost d = color_digits(s@);
    proof {
        assert(d =~= v@.skip(from as int));
    }
    if v.len() - from != 6 {
        return None;
    }
    proof {
        assert(d[0] == v@[from as int] && d[1] == v@[from + 1] && d[2] == v@[from + 2] && d[3]
            == v@[from + 3] && d[4] == v@[from + 4] && d[5] == v@[from + 5]);
    }
    match (
        read_hex_byte(v[from], v[from + 1]),
        read_hex_byte(v[from + 2], v[from + 3]),
        read_hex_byte(v[from + 4], v[from + 5]),
    ) {
        (Some(r), Some(g), Some(b)) => Some(Rgb { r, g, b }),
        _ => None,
    }
}

/// Writes a colour as lower-case `#rrggbb`.
pub fn color_to_hex(c: Rgb) -> (s: String)
    ensures
        s@ == color_text(c),
{
    let mut s = String::new();
    s.push('#');
    s.append(numeral::to_hex2(c.r).as_str());
    s.append(numeral::to_hex2(c.g).as_str());
    s.append(numeral::to_hex2(c.b).as_str());
    proof {
        assert(s@ =~= color_text(c));
    }
    s
}

/// Brings a colour into its canonical form, or gives the default where the text
/// denotes none.
pub fn normalize_log_color(value: &str, default: &str) -> (s: String)
    ensures
        s@ == normal_color(value@, default@),
{
    match parse_hex_color(value) {
        Some(c) => color_to_hex(c),
        None => default.to_owned(),
    }
}

proof fn lemma_hex2_reads_back(b: u8)
    ensures
        numeral::hex2(b).len() == 2,
        numeral::hex_digit_value(numeral::hex2(b)[0]) == Some((b / 16) as nat),
        numeral::hex_digit_value(numeral::hex2(b)[1]) == Some((b % 16) as nat),
        hex_byte(numeral::hex2(b)[0], numeral::hex2(b)[1]) == b,
{
}

/// Reading a colour gives back what was written.
pub proof fn law_color_reads_back(c: Rgb)
    ensures
        color_of(color_text(c)) == Some(c),
{
    let t = color_text(c);
    lemma_hex2_reads_back(c.r);
    lemma_hex2_reads_back(c.g);
    lemma_hex2_reads_back(c.b);
    assert(!text::is_space(t[6])) by {
        assert(t[6] == numeral::hex2(c.b)[1]);
    }
    assert(t.last() == t[6]);
    assert(text::trimmed(t) == t);
    let d = color_digits(t);
    assert(d =~= numeral::hex2(c.r) + numeral::hex2(c.g) + numeral::hex2(c.b));
    assert forall|i: int| 0 <= i < 6 implies numeral::hex_digit_value(#[trigger] d[i]) is Some by {}
}

/// Bringing a colour into its canonical form twice is doing it once, and the
/// result denotes a colour whenever the default does.
pub proof fn law_normal_color_stable(value: Seq<char>, default: Seq<char>)
    requires
        color_of(default) is Some,
    ensures
        color_of(normal_color(value, default)) is Some,
        color_of(value) is Some ==> normal_color(normal_color(value, default), default)
            == normal_color(value, default),
{
    if let Some(c) = color_of(value) {
        law_color_reads_back(c);
    }
}

/// The color of a level; a line without one has none of its own.
pub open spec fn color_of_level(level: Option<LogLevel>, info: Rgb, warn: Rgb, error: Rgb) -> Option<
    Rgb,
> {
    match level {
        Some(LogLevel::Info) => Some(info),
        Some(LogLevel::Warn) => Some(warn),
        Some(LogLevel::Error) => Some(error),
        None => None,
    }
}

/// The colour of a log line under the user's choices: that of its level, where
/// a choice that denotes no colour gives way to the level's default; `None` for
/// a line without a level.
pub fn line_color(
    line: &str,
    info: &str,
    warn: &str,
    error: &str,
    info_default: Rgb,
    warn_default: Rgb,
    error_default: Rgb,
) -> (r: Option<Rgb>)
    ensures
        r == color_of_level(
            leftmost_level(line@),
            chosen_color(info@, info_default),
            chosen_color(warn@, warn_default),
            chosen_color(error@, error_default),
        ),
{
    match classify_log_line(line) {
        Some(LogLevel::Info) => Some(choose_color(info, info_default)),
        Some(LogLevel::Warn) => Some(choose_color(warn, warn_default)),
        Some(LogLevel::Error) => Some(choose_color(error, error_default)),
        None => None,
    }
}

/// The colour that a text denotes, or the default.
pub open spec fn chosen_color(s: Seq<char>, default: Rgb) -> Rgb {
    match color_of(s) {
        Some(c) => c,
        None => default,
    }
}

/// The colour that a text denotes, or the default.
pub fn choose_color(s: &str, default: Rgb) -> (r: Rgb)
    ensures
        r == chosen_color(s@, default),
{
    match parse_hex_color(s) {
        Some(c) => c,
        None => default,
    }
}

/// The last `LOG_MAX` of the lines.
pub open spec fn recent(lines: Seq<String>) -> Seq<String> {
    if lines.len() <= LOG_MAX {
        lines
    } else {
        lines.skip(lines.len() - LOG_MAX)
    }
}

/// Adds a line to the ring; the oldest lines beyond the limit leave.
pub fn push_log(log: &mut VecDeque<String>, line: String)
    ensures
        final(log)@ == recent(old(log)@.push(line)),
{
    let ghost all = log@;
    proof {
        assert(all.skip(0) =~= all);
    }
    while log.len() >= LOG_MAX
        invariant
            log@.len() <= all.len(),
            log@ == all.skip(all.len() - log@.len()),
            all.len() >= LOG_MAX ==> log@.len() + 1 >= LOG_MAX,
            all.len() < LOG_MAX ==> log@ == all,
        decreases log@.len(),
    {
        let _oldest = log.pop_front();
        proof {
            assert(log@ =~= all.skip(all.len() - log@.len()));
        }
    }
    log.push_back(line);
    proof {
        assert(log@ =~= recent(all.push(line)));
    }
}

/// A run of lines pushed one by one leaves the last `LOG_MAX` of them all.
pub proof fn law_recent_of_recent(lines: Seq<String>, more: Seq<String>)
    ensures
        recent(recent(lines) + more) == recent(lines + more),
{
    let a = recent(recent(lines) + more);
    let b = recent(lines + more);
    assert(a =~= b);
}

/// The lines of a text: the pieces between newlines, each without one trailing
/// carriage return.
pub open spec fn without_cr(s: Seq<char>) -> Seq<char> {
    if s.len() > 0 && s.last() == '\r' {
        s.drop_last()
    } else {
        s
    }
}

/// The lines of the pieces that are not empty.
pub open spec fn nonempty_lines(parts: Seq<Seq<char>>) -> Seq<Seq<char>>
    decreases parts.len(),
{
    if parts.len() == 0 {
        Seq::empty()
    } else {
        let before = nonempty_lines(parts.drop_last());
        let line = without_cr(parts.last());
        if line.len() == 0 {
            before
        } else {
            before.push(line)
        }
    }
}

/// The log lines that a buffered chunk of output holds: the lines of the text
/// without its trailing whitespace, empty lines left out.
pub fn log_lines(chunk: &str) -> (r: Vec<String>)
    ensures
        text::texts(r@) == nonempty_lines(text::split(text::trim_end(chunk@), '\n', '\n')),
{
    let body = text::trim_right(chunk);
    let parts = text::split_at_either(body.as_str(), '\n', '\n');
    let ghost p = text::texts(parts@);
    let mut r: Vec<String> = Vec::new();
    let mut i: usize = 0;
    while i < parts.len()
        invariant
            i <= parts@.len(),
            p == text::texts(parts@),
            text::texts(r@) == nonempty_lines(p.take(i as int)),
        decreases parts@.len() - i,
    {
        let v = text::to_chars(parts[i].as_str());
        let end: usize = if v.len() > 0 && v[v.len() - 1] == '\r' {
            v.len() - 1
        } else {
            v.len()
        };
        let ghost before = text::texts(r@);
        proof {
            assert(p.take(i + 1).drop_last() =~= p.take(i as int));
            assert(p[i as int] == v@);
            assert(v@.subrange(0, end as int) =~= without_cr(v@));
        }
        if end > 0 {
            let line = text::from_chars(&v, 0, end);
            r.push(line);
            proof {
                assert(text::texts(r@) =~= before.push(line@));
            }
        }
        i = i + 1;
    }
    proof {
        assert(p.take(i as int) =~= p);
    }
    r
}

/// A duration as hours, minutes and seconds.
pub open spec fn duration_text(secs: nat) -> Seq<char> {
    numeral::decimal2(secs / 3600) + ":"@ + numeral::decimal2((secs / 60) % 60) + ":"@
        + numeral::decimal2(secs % 60)
}

/// Writes a duration in seconds as `hh:mm:ss`.
pub fn fmt_duration(secs: u64) -> (s: String)
    ensures
        s@ == duration_text(secs as nat),
{
    numeral::to_decimal2(secs / 3600).concat(":").concat(
        numeral::to_decimal2((secs / 60) % 60).as_str(),
    ).concat(":").concat(numeral::to_decimal2(secs % 60).as_str())
}

/// `n / d` rounded to the nearest integer, ties to the even one.
pub open spec fn rounded(n: nat, d: nat) -> nat {
    let q = n / d;
    let twice = 2 * (n % d);
    if twice > d || (twice == d && q % 2 == 1) {
        q + 1
    } else {
        q
    }
}

/// The distance between neighbouring integers that a double-precision number
/// can hold near `n`.
pub open spec fn double_step(n: nat) -> nat
    decreases n,
{
    if n < 0x20_0000_0000_0000 {
        1
    } else {
        2 * double_step(n / 2)
    }
}

/// The double-precision number nearest to `n`.
pub open spec fn as_double(n: nat) -> nat {
    rounded(n, double_step(n)) * double_step(n)
}

/// A number of tenths (`places == 1`) or hundredths with a decimal point.
pub open spec fn point_text(n: nat, places: nat) -> Seq<char> {
    if places == 1 {
        numeral::decimal(n / 10) + "."@ + numeral::decimal(n % 10)
    } else {
        numeral::decimal(n / 100) + "."@ + numeral::decimal2(n % 100)
    }
}

/// A byte count in the largest unit that it reaches: whole bytes, tenths of
/// KiB, hundredths of MiB and GiB.
pub open spec fn bytes_text(b: nat) -> Seq<char> {
    if b >= 0x4000_0000 {
        point_text(rounded(as_double(b) * 100, 0x4000_0000), 2) + " GB"@
    } else if b >= 0x10_0000 {
        point_text(rounded(b * 100, 0x10_0000), 2) + " MB"@
    } else if b >= 0x400 {
        point_text(rounded(b * 10, 0x400), 1) + " KB"@
    } else {
        numeral::decimal(b) + " B"@
    }
}

fn round_div(n: u128, d: u128) -> (r: u128)
    requires
        0 < d <= 0x4000_0000,
        n <= 0x1_0000_0000_0000_0000_0000_0000,
    ensures
        r == rounded(n as nat, d as nat),
        r <= n + 1,
{
    let q: u128 = n / d;
    let twice: u128 = 2 * (n % d);
    proof {
        assert(n / d <= n) by (nonlinear_arith)
            requires
                d > 0,
        ;
    }
    if twice > d || (twice == d && q % 2 == 1) {
        q + 1
    } else {
        q
    }
}

proof fn lemma_double_step(n: nat)
    requires
        n < 0x1_0000_0000_0000_0000,
    ensures
        1 <= double_step(n) <= 2048,
{
    reveal_with_fuel(double_step, 13);
}

fn to_double(n: u64) -> (r: u128)
    ensures
        r == as_double(n as nat),
        r <= 0x1_0000_0000_0000_1000,
{
    let mut step: u128 = 1;
    let mut rest: u64 = n;
    let ghost whole = double_step(n as nat);
    proof {
        lemma_double_step(n as nat);
    }
    while rest >= 0x20_0000_0000_0000
        invariant
            step * double_step(rest as nat) == whole,
            1 <= step <= whole <= 2048,
            double_step(rest as nat) >= 1,
        decreases rest,
    {
        proof {
            let half = double_step((rest / 2) as nat);
            assert(double_step(rest as nat) == 2 * half);
            lemma_double_step((rest / 2) as nat);
            assert(step * (2 * half) == (step * 2) * half) by (nonlinear_arith);
            assert(step * 2 <= (step * 2) * half) by (nonlinear_arith)
                requires
                    half >= 1,
                    step >= 1,
            ;
        }
        step = step * 2;
        rest = rest / 2;
    }
    let r = round_div(n as u128, step);
    proof {
        let last = double_step(rest as nat);
        assert(last == 1);
        assert(step * last == step) by (nonlinear_arith)
            requires
                last == 1,
        ;
        assert(step == whole);
        let q = n as nat / whole;
        assert(q * whole <= n) by (nonlinear_arith)
            requires
                q == n as nat / whole,
                whole > 0,
        ;
        assert(r * step <= n + step) by (nonlinear_arith)
            requires
                r <= q + 1,
                q * whole <= n,
                step == whole,
        ;
        assert(r * step >= 0) by (nonlinear_arith)
            requires
                r >= 0,
                step >= 0,
        ;
    }
    r * step
}

fn write_point(n: u64, places: u64) -> (s: String)
    requires
        places == 1 || places == 2,
    ensures
        s@ == point_text(n as nat, places as nat),
{
    if places == 1 {
        numeral::to_decimal(n / 10).concat(".").concat(numeral::to_decimal(n % 10).as_str())
    } else {
        numeral::to_decimal(n / 100).concat(".").concat(numeral::to_decimal2(n % 100).as_str())
    }
}

/// A byte count in MiB, to a tenth.
pub open spec fn megabytes_text(b: nat) -> Seq<char> {
    point_text(rounded(as_double(b) * 10, 0x10_0000), 1) + " MB"@
}

/// Writes a byte count in MiB, to a tenth.
pub fn fmt_megabytes(b: u64) -> (s: String)
    ensures
        s@ == megabytes_text(b as nat),
{
    let d = to_double(b);
    let tenths = round_div(d * 10, 0x10_0000);
    proof {
        assert(tenths <= 0x1000_0000_0000_0000) by {
            assert(d * 10 / 0x10_0000 <= 0x800_0000_0000_0000);
        }
    }
    write_point(tenths as u64, 1).concat(" MB")
}

/// Writes a byte count in the largest unit that it reaches.
pub fn fmt_bytes(b: u64) -> (s: String)
    ensures
        s@ == bytes_text(b as nat),
{
    if b >= 0x4000_0000 {
        let d = to_double(b);
        let hundredths = round_div(d * 100, 0x4000_0000);
        proof {
            assert(hundredths <= 0x1000_0000_0000_0000) by {
                assert(d * 100 / 0x4000_0000 <= 0x800_0000_0000_0000);
            }
        }
        write_point(hundredths as u64, 2).concat(" GB")
    } else if b >= 0x10_0000 {
        let hundredths = round_div(b as u128 * 100, 0x10_0000);
        write_point(hundredths as u64, 2).concat(" MB")
    } else if b >= 0x400 {
        let tenths = round_div(b as u128 * 10, 0x400);
        write_point(tenths as u64, 1).concat(" KB")
    } else {
        numeral::to_decimal(b).concat(" B")
    }
}

proof fn lemma_no_level_without_blank(s: Seq<char>)
    requires
        s.len() > 0 ==> s[0] != ' ',
    ensures
        level_here(s) is None,
{
    reveal_strlit(" ERROR ");
    reveal_strlit(" WARN ");
    reveal_strlit(" INFO ");
    if s.len() >= 7 {
        assert(s.take(7)[0] == s[0]);
    }
    if s.len() >= 6 {
        assert(s.take(6)[0] == s[0]);
    }
}

/// A line has the level of the first level word that stands between blanks in
/// it, whatever follows.
pub proof fn law_level_of_a_line(before: Seq<char>, after: Seq<char>)
    requires
        forall|i: int| 0 <= i < before.len() ==> #[trigger] before[i] != ' ',
    ensures
        leftmost_level(before + " ERROR "@ + after) == Some(LogLevel::Error),
        leftmost_level(before + " WARN "@ + after) == Some(LogLevel::Warn),
        leftmost_level(before + " INFO "@ + after) == Some(LogLevel::Info),
        leftmost_level(before) is None,
    decreases before.len(),
{
    reveal_strlit(" ERROR ");
    reveal_strlit(" WARN ");
    reveal_strlit(" INFO ");
    let e = before + " ERROR "@ + after;
    let w = before + " WARN "@ + after;
    let i = before + " INFO "@ + after;
    lemma_no_level_without_blank(before);
    if before.len() > 0 {
        let rest = before.skip(1);
        assert forall|k: int| 0 <= k < rest.len() implies #[trigger] rest[k] != ' ' by {
            assert(rest[k] == before[k + 1]);
        }
        law_level_of_a_line(rest, after);
        lemma_no_level_without_blank(e);
        lemma_no_level_without_blank(w);
        lemma_no_level_without_blank(i);
        assert(e.skip(1) =~= rest + " ERROR "@ + after);
        assert(w.skip(1) =~= rest + " WARN "@ + after);
        assert(i.skip(1) =~= rest + " INFO "@ + after);
    } else {
        assert(e.take(7) =~= " ERROR "@);
        assert(w.take(6) =~= " WARN "@);
        assert(i.take(6) =~= " INFO "@);
        if w.len() >= 7 {
            assert(w.take(7)[1] != " ERROR "@[1]);
        }
        if i.len() >= 7 {
            assert(i.take(7)[1] != " ERROR "@[1]);
        }
        assert(i.take(6)[1] != " WARN "@[1]);
    }
}

/// A color is written with six lower-case hexadecimal digits behind a hash sign,
/// red first, then green, then blue.
pub proof fn law_color_channels(c: Rgb)
    ensures
        color_text(c).len() == 7,
        color_text(c)[0] == '#',
        color_text(c).subrange(1, 3) == numeral::hex2(c.r),
        color_text(c).subrange(3, 5) == numeral::hex2(c.g),
        color_text(c).subrange(5, 7) == numeral::hex2(c.b),
{
    assert(color_text(c).subrange(1, 3) =~= numeral::hex2(c.r));
    assert(color_text(c).subrange(3, 5) =~= numeral::hex2(c.g));
    assert(color_text(c).subrange(5, 7) =~= numeral::hex2(c.b));
}

/// A setting that is a color is kept in its written form, and anything else is
/// replaced by the default.
pub proof fn law_setting_or_default(value: Seq<char>, default: Seq<char>, c: Rgb, fallback: Rgb)
    ensures
        color_of(value) == Some(c) ==> normal_color(value, default) == color_text(c)
            && chosen_color(value, fallback) == c,
        color_of(value) is None ==> normal_color(value, default) == default && chosen_color(
            value,
            fallback,
        ) == fallback,
{
}

/// The log keeps the last 200 lines.
pub proof fn law_log_keeps_the_last_lines(lines: Seq<String>, i: int)
    ensures
        recent(lines).len() == (if lines.len() <= 200 {
            lines.len()
        } else {
            200nat
        }),
        0 <= i < recent(lines).len() ==> recent(lines)[i] == lines[lines.len() - recent(lines).len()
            + i],
{
}

/// The lines of a chunk come one by one, without the carriage return at their
/// end, and empty ones are left out.
pub proof fn law_lines_one_by_one(a: Seq<Seq<char>>, b: Seq<Seq<char>>, line: Seq<char>)
    requires
        line.len() > 0 ==> line.last() != '\r',
    ensures
        nonempty_lines(a + b) == nonempty_lines(a) + nonempty_lines(b),
        line.len() > 0 ==> nonempty_lines(seq![line]) == seq![line] && nonempty_lines(
            seq![line.push('\r')],
        ) == seq![line],
        line.len() == 0 ==> nonempty_lines(seq![line]).len() == 0 && nonempty_lines(
            seq![line.push('\r')],
        ).len() == 0,
    decreases b.len(),
{
    reveal_with_fuel(nonempty_lines, 2);
    assert(seq![line].drop_last() =~= Seq::empty());
    assert(seq![line.push('\r')].drop_last() =~= Seq::empty());
    assert(line.push('\r').drop_last() =~= line);
    if line.len() > 0 {
        assert(nonempty_lines(seq![line]) =~= seq![line]);
        assert(nonempty_lines(seq![line.push('\r')]) =~= seq![line]);
    }
    if b.len() > 0 {
        law_lines_one_by_one(a, b.drop_last(), line);
        assert((a + b).drop_last() =~= a + b.drop_last());
        assert((a + b).last() == b.last());
        assert(nonempty_lines(a + b) =~= nonempty_lines(a) + nonempty_lines(b));
    } else {
        assert(a + b =~= a);
        assert(nonempty_lines(a + b) =~= nonempty_lines(a) + nonempty_lines(b));
    }
}

/// A duration shows its hours, minutes and seconds.
pub proof fn law_duration_shows_its_parts(hours: nat, minutes: nat, seconds: nat)
    requires
        minutes < 60,
        seconds < 60,
    ensures
        duration_text(hours * 3600 + minutes * 60 + seconds) == numeral::decimal2(hours) + ":"@
            + numeral::decimal2(minutes) + ":"@ + numeral::decimal2(seconds),
{
    let t = hours * 3600 + minutes * 60 + seconds;
    assert(t / 3600 == hours);
    assert((t / 60) % 60 == minutes);
    assert(t % 60 == seconds);
}

/// A quotient is rounded to the nearest whole number, and to the even one of two
/// that are equally near.
pub proof fn law_rounded_to_nearest(n: nat, d: nat)
    requires
        d > 0,
    ensures
        2 * (rounded(n, d) * d - n) <= d,
        2 * (n - rounded(n, d) * d) <= d,
        2 * (rounded(n, d) * d - n) == d || 2 * (n - rounded(n, d) * d) == d ==> rounded(n, d) % 2
            == 0,
{
    let q = n / d;
    vstd::arithmetic::div_mod::lemma_fundamental_div_mod(n as int, d as int);
    assert(q * d == d * q) by (nonlinear_arith);
    assert((q + 1) * d == q * d + d) by (nonlinear_arith);
    assert(0 <= n % d < d);
}

/// Sizes are shown in the largest unit that they reach, and whole numbers of a
/// unit are shown as such: bytes below 1 KB, one digit after the point for KB,
/// two for MB and GB.
pub proof fn law_whole_sizes(k: nat)
    requires
        0 < k < 1024,
    ensures
        bytes_text(k) == numeral::decimal(k) + " B"@,
        bytes_text(k * 0x400) == numeral::decimal(k) + "."@ + numeral::decimal(0) + " KB"@,
        bytes_text(k * 0x10_0000) == numeral::decimal(k) + "."@ + numeral::decimal2(0) + " MB"@,
        bytes_text(k * 0x4000_0000) == numeral::decimal(k) + "."@ + numeral::decimal2(0) + " GB"@,
        megabytes_text(k * 0x10_0000) == numeral::decimal(k) + "."@ + numeral::decimal(0) + " MB"@,
{
    let kb = (k * 0x400) as nat;
    let mb = (k * 0x10_0000) as nat;
    let gb = (k * 0x4000_0000) as nat;
    assert(kb * 10 / 0x400 == k * 10 && (kb * 10) % 0x400 == 0);
    assert(mb * 100 / 0x10_0000 == k * 100 && (mb * 100) % 0x10_0000 == 0);
    assert(mb * 10 / 0x10_0000 == k * 10 && (mb * 10) % 0x10_0000 == 0);
    assert(gb * 100 / 0x4000_0000 == k * 100 && (gb * 100) % 0x4000_0000 == 0);
    assert(double_step(gb) == 1);
    assert(double_step(mb) == 1);
    assert(as_double(gb) == gb);
    assert(as_double(mb) == mb);
}

/// A color is six hexadecimal digits in either case, with or without a hash sign
/// before them: two each for red, green and blue, high digit first. Anything
/// else is no color.
pub proof fn law_color_digits(d: Seq<char>)
    requires
        d.len() > 0,
        !text::is_space(d[0]),
        !text::is_space(d.last()),
        d[0] != '#',
    ensures
        color_of(seq!['#'] + d) == color_of(d),
        color_of(d) is Some <==> d.len() == 6 && forall|i: int|
            0 <= i < d.len() ==> '0' <= #[trigger] d[i] <= '9' || 'a' <= d[i] <= 'f' || 'A' <= d[i]
                <= 'F',
        color_of(d) matches Some(c) ==> {
            &&& c.r == numeral::hex_digit_value(d[0])->0 * 16 + numeral::hex_digit_value(d[1])->0
            &&& c.g == numeral::hex_digit_value(d[2])->0 * 16 + numeral::hex_digit_value(d[3])->0
            &&& c.b == numeral::hex_digit_value(d[4])->0 * 16 + numeral::hex_digit_value(d[5])->0
        },
{
    let h = seq!['#'] + d;
    text::law_trimmed_is_the_core(Seq::empty(), d, Seq::empty());
    assert(Seq::<char>::empty() + d + Seq::<char>::empty() =~= d);
    text::law_trimmed_is_the_core(Seq::empty(), h, Seq::empty());
    assert(Seq::<char>::empty() + h + Seq::<char>::empty() =~= h);
    assert(h.skip(1) =~= d);
    assert(h.last() == d.last());
    if color_of(d) is Some {
        assert forall|i: int| 0 <= i < d.len() implies '0' <= #[trigger] d[i] <= '9' || 'a' <= d[i]
            <= 'f' || 'A' <= d[i] <= 'F' by {
            assert(numeral::hex_digit_value(d[i]) is Some);
        }
        assert(numeral::hex_digit_value(d[0]) is Some && numeral::hex_digit_value(d[1]) is Some);
        assert(numeral::hex_digit_value(d[2]) is Some && numeral::hex_digit_value(d[3]) is Some);
        assert(numeral::hex_digit_value(d[4]) is Some && numeral::hex_digit_value(d[5]) is Some);
    } else if d.len() == 6 && forall|i: int|
        0 <= i < d.len() ==> '0' <= #[trigger] d[i] <= '9' || 'a' <= d[i] <= 'f' || 'A' <= d[i]
            <= 'F' {
        assert(forall|i: int| 0 <= i < 6 ==> numeral::hex_digit_value(#[trigger] d[i]) is Some);
    }
}

/// Each level has its own color.
pub proof fn law_level_colors(level: LogLevel, info: Rgb, warn: Rgb, error: Rgb)
    ensures
        level is Info ==> color_of_level(Some(level), info, warn, error) == Some(info),
        level is Warn ==> color_of_level(Some(level), info, warn, error) == Some(warn),
        level is Error ==> color_of_level(Some(level), info, warn, error) == Some(error),
        color_of_level(None, info, warn, error) is None,
{
}

} // verus!
