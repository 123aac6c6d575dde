//! Character-level text operations: trimming, ASCII case, searching, splitting
//! and joining.
//!
//! Text is modelled as `Seq<char>`, the view of `str` and `String`.
use vstd::prelude::*;

verus! {

/// Trusted: `String::push` appends one character to the end of the string.
pub assume_specification[ String::push ](s: &mut String, c: char)
    ensures
        final(s)@ == old(s)@.push(c),
;

/// Trusted: `std::str::from_utf8` accepts exactly the valid UTF-8 byte strings
/// and gives the text that they encode.
#[verifier::external_body]
pub(crate) fn utf8_text(bytes: &[u8]) -> (r: Option<String>)
    ensures
        match r {
            Some(s) => vstd::utf8::encode_utf8(s@) == bytes@,
            None => !vstd::utf8::valid_utf8(bytes@),
        },
{
    match std::str::from_utf8(bytes) {
        Ok(s) => Some(s.to_string()),
        Err(_) => None,
    }
}

/// The number of bytes of a character in UTF-8.
pub open spec fn char_width(c: char) -> nat {
    if (c as u32) < 0x80 {
        1
    } else if (c as u32) < 0x800 {
        2
    } else if (c as u32) < 0x1_0000 {
        3
    } else {
        4
    }
}

/// The number of bytes of a text in UTF-8.
pub open spec fn width(s: Seq<char>) -> nat
    decreases s.len(),
{
    if s.len() == 0 {
        0
    } else {
        width(s.drop_last()) + char_width(s.last())
    }
}

/// Counts the bytes of a character in UTF-8.
pub fn utf8_width(c: char) -> (n: usize)
    ensures
        n == char_width(c),
{
    let code: u32 = c as u32;
    if code < 0x80 {
        1
    } else if code < 0x800 {
        2
    } else if code < 0x1_0000 {
        3
    } else {
        4
    }
}

/// A character with the Unicode `White_Space` property.
pub open spec fn is_space(c: char) -> bool {
    let n = c as u32;
    ||| 0x9 <= n <= 0xd
    ||| n == 0x20
    ||| n == 0x85
    ||| n == 0xa0
    ||| n == 0x1680
    ||| 0x2000 <= n <= 0x200a
    ||| n == 0x2028
    ||| n == 0x2029
    ||| n == 0x202f
    ||| n == 0x205f
    ||| n == 0x3000
}

/// `s` without its leading whitespace.
pub open spec fn trim_start(s: Seq<char>) -> Seq<char>
    decreases s.len(),
{
    if s.len() > 0 && is_space(s[0]) {
        trim_start(s.skip(1))
    } else {
        s
    }
}

/// `s` without its trailing whitespace.
pub open spec fn trim_end(s: Seq<char>) -> Seq<char>
    decreases s.len(),
{
    if s.len() > 0 && is_space(s.last()) {
        trim_end(s.drop_last())
    } else {
        s
    }
}

/// `s` without leading and trailing whitespace.
pub open spec fn trimmed(s: Seq<char>) -> Seq<char> {
    trim_end(trim_start(s))
}

/// `s` without its trailing run of `c`.
pub open spec fn strip_trailing(s: Seq<char>, c: char) -> Seq<char>
    decreases s.len(),
{
    if s.len() > 0 && s.last() == c {
        strip_trailing(s.drop_last(), c)
    } else {
        s
    }
}

/// The ASCII lower-case form of `c`; other characters are unchanged.
pub open spec fn lower_char(c: char) -> char {
    if 'A' <= c <= 'Z' {
        ((c as u8) + 32) as u8 as char
    } else {
        c
    }
}

/// `s` with every ASCII letter in lower case.
pub open spec fn lower(s: Seq<char>) -> Seq<char> {
    s.map_values(|c: char| lower_char(c))
}

/// The views of a sequence of strings.
pub open spec fn texts(v: Seq<String>) -> Seq<Seq<char>> {
    v.map_values(|s: String| s@)
}

/// Tests for the Unicode `White_Space` property.
pub fn char_is_space(c: char) -> (r: bool)
    ensures
        r == is_space(c),
{
    let n: u32 = c as u32;
    (0x9 <= n && n <= 0xd) || n == 0x20 || n == 0x85 || n == 0xa0 || n == 0x1680 || (0x2000 <= n
        && n <= 0x200a) || n == 0x2028 || n == 0x2029 || n == 0x202f || n == 0x205f || n == 0x3000
}

/// The characters of `s`.
pub fn to_chars(s: &str) -> (v: Vec<char>)
    ensures
        v@ == s@,
{
    let mut v: Vec<char> = Vec::new();
    for c in it: s.chars()
        invariant
            it.seq() == s@,
            v@ == s@.take(it.index() as int),
    {
        v.push(c);
    }
    v
}

/// The string made of `v[from..to]`.
pub fn from_chars(v: &Vec<char>, from: usize, to: usize) -> (s: String)
    requires
        from <= to <= v@.len(),
    ensures
        s@ == v@.subrange(from as int, to as int),
{
    let mut s = String::new();
    let mut i: usize = from;
    while i < to
        invariant
            from <= i <= to <= v@.len(),
            s@ == v@.subrange(from as int, i as int),
        decreases to - i,
    {
        s.push(v[i]);
        i = i + 1;
    }
    s
}

proof fn lemma_trim_start_range(s: Seq<char>, k: int)
    requires
        0 <= k <= s.len(),
        forall|i: int| 0 <= i < k ==> is_space(#[trigger] s[i]),
        k == s.len() || !is_space(s[k]),
    ensures
        trim_start(s) == s.skip(k),
    decreases k,
{
    if k > 0 {
        assert(is_space(s[0]));
        assert forall|i: int| 0 <= i < k - 1 implies is_space(#[trigger] s.skip(1)[i]) by {
            assert(is_space(s[i + 1]));
        }
        lemma_trim_start_range(s.skip(1), k - 1);
        assert(s.skip(1).skip(k - 1) =~= s.skip(k));
    } else {
        assert(s.skip(0) =~= s);
    }
}

proof fn lemma_trim_end_range(s: Seq<char>, k: int)
    requires
        0 <= k <= s.len(),
        forall|i: int| k <= i < s.len() ==> is_space(#[trigger] s[i]),
        k == 0 || !is_space(s[k - 1]),
    ensures
        trim_end(s) == s.take(k),
    decreases s.len() - k,
{
    if k < s.len() {
        assert(is_space(s[s.len() - 1]));
        assert forall|i: int| k <= i < s.len() - 1 implies is_space(#[trigger] s.drop_last()[i]) by {
            assert(is_space(s[i]));
        }
        lemma_trim_end_range(s.drop_last(), k);
        assert(s.drop_last().take(k) =~= s.take(k));
    } else {
        assert(s.take(k) =~= s);
    }
}

/// The string without trailing whitespace.
pub fn trim_right(s: &str) -> (r: String)
    ensures
        r@ == trim_end(s@),
{
    let v = to_chars(s);
    let mut b: usize = v.len();
    while 0 < b && char_is_space(v[b - 1])
        invariant
            b <= v@.len(),
            forall|i: int| b <= i < v@.len() ==> is_space(#[trigger] v@[i]),
        ensures
            b <= v@.len(),
            forall|i: int| b <= i < v@.len() ==> is_space(#[trigger] v@[i]),
            b == 0 || !is_space(v@[b - 1]),
        decreases b,
    {
        b = b - 1;
    }
    proof {
        lemma_trim_end_range(v@, b as int);
        assert(v@.take(b as int) =~= v@.subrange(0, b as int));
    }
    from_chars(&v, 0, b)
}

/// The string without leading and trailing whitespace.
pub fn trim(s: &str) -> (r: String)
    ensures
        r@ == trimmed(s@),
{
    let v = to_chars(s);
    let mut a: usize = 0;
    while a < v.len() && char_is_space(v[a])
        invariant
            a <= v@.len(),
            forall|i: int| 0 <= i < a ==> is_space(#[trigger] v@[i]),
        ensures
            a <= v@.len(),
            forall|i: int| 0 <= i < a ==> is_space(#[trigger] v@[i]),
            a == v@.len() || !is_space(v@[a as int]),
        decreases v@.len() - a,
    {
        a = a + 1;
    }
    proof {
        lemma_trim_start_range(s@, a as int);
    }
    let mut b: usize = v.len();
    while a < b && char_is_space(v[b - 1])
        invariant
            a <= b <= v@.len(),
            forall|i: int| b <= i < v@.len() ==> is_space(#[trigger] v@[i]),
        ensures
            a <= b <= v@.len(),
            forall|i: int| b <= i < v@.len() ==> is_space(#[trigger] v@[i]),
            b == a || !is_space(v@[b - 1]),
        decreases b,
    {
        b = b - 1;
    }
    proof {
        let t = s@.skip(a as int);
        assert forall|i: int| b - a <= i < t.len() implies is_space(#[trigger] t[i]) by {
            assert(is_space(v@[i + a]));
        }
        lemma_trim_end_range(t, b - a);
        assert(t.take(b - a) =~= v@.subrange(a as int, b as int));
    }
    from_chars(&v, a, b)
}

/// The string without its trailing run of `c`.
pub fn trim_trailing(s: &str, c: char) -> (r: String)
    ensures
        r@ == strip_trailing(s@, c),
{
    let v = to_chars(s);
    let mut b: usize = v.len();
    proof {
        assert(v@.take(b as int) =~= v@);
    }
    while 0 < b && v[b - 1] == c
        invariant
            b <= v@.len(),
            strip_trailing(v@.take(b as int), c) == strip_trailing(v@, c),
        ensures
            b <= v@.len(),
            strip_trailing(v@, c) == v@.take(b as int),
        decreases b,
    {
        proof {
            assert(v@.take(b as int).drop_last() =~= v@.take(b - 1));
        }
        b = b - 1;
    }
    proof {
        assert(v@.subrange(0, b as int) =~= v@.take(b as int));
    }
    from_chars(&v, 0, b)
}

/// The ASCII lower-case form of one character.
pub fn char_to_lower(c: char) -> (r: char)
    ensures
        r == lower_char(c),
{
    if 'A' <= c && c <= 'Z' {
        ((c as u8) + 32) as char
    } else {
        c
    }
}

/// The string with every ASCII letter in lower case.
pub fn to_lower(s: &str) -> (r: String)
    ensures
        r@ == lower(s@),
{
    let v = to_chars(s);
    let mut r = String::new();
    let mut i: usize = 0;
    while i < v.len()
        invariant
            i <= v@.len(),
            r@ == lower(v@.take(i as int)),
        decreases v@.len() - i,
    {
        r.push(char_to_lower(v[i]));
        i = i + 1;
        proof {
            assert(r@ =~= lower(v@.take(i as int)));
        }
    }
    proof {
        assert(v@.take(i as int) =~= v@);
    }
    r
}

/// Tests two strings for equality.
pub fn same(a: &str, b: &str) -> (r: bool)
    ensures
        r == (a@ == b@),
{
    a.to_owned() == b.to_owned()
}

/// Tests two strings for equality up to ASCII case.
pub fn same_ignoring_case(a: &str, b: &str) -> (r: bool)
    ensures
        r == (lower(a@) == lower(b@)),
{
    to_lower(a) == to_lower(b)
}

/// `needle` occurs in `hay` at `at`.
pub open spec fn occurs_at(hay: Seq<char>, needle: Seq<char>, at: int) -> bool {
    0 <= at <= hay.len() - needle.len() && hay.subrange(at, at + needle.len()) == needle
}

/// `needle` occurs in `hay`.
pub open spec fn occurs(hay: Seq<char>, needle: Seq<char>) -> bool {
    exists|at: int| occurs_at(hay, needle, at)
}

fn matches_at(hay: &Vec<char>, needle: &Vec<char>, at: usize) -> (r: bool)
    requires
        at + needle@.len() <= hay@.len(),
    ensures
        r == occurs_at(hay@, needle@, at as int),
{
    let len: usize = needle.len();
    let hay_len: usize = hay.len();
    let mut i: usize = 0;
    while i < len
        invariant
            i <= len,
            len == needle@.len(),
            hay_len == hay@.len(),
            at + len <= hay_len,
            forall|k: int| 0 <= k < i ==> hay@[at + k] == #[trigger] needle@[k],
        decreases len - i,
    {
        if hay[at + i] != needle[i] {
            proof {
                assert(hay@.subrange(at as int, at + len)[i as int] != needle@[i as int]);
            }
            return false;
        }
        i = i + 1;
    }
    proof {
        assert(hay@.subrange(at as int, at + len) =~= needle@);
    }
    true
}

/// Tests whether one string occurs in another.
pub fn contains(hay: &str, needle: &str) -> (r: bool)
    ensures
        r == occurs(hay@, needle@),
{
    let h = to_chars(hay);
    let n = to_chars(needle);
    let hay_len: usize = h.len();
    let needle_len: usize = n.len();
    if needle_len > hay_len {
        return false;
    }
    let last: usize = hay_len - needle_len;
    if matches_at(&h, &n, last) {
        return true;
    }
    let mut at: usize = 0;
    while at < last
        invariant
            at <= last,
            last == hay_len - needle_len,
            hay_len == h@.len(),
            needle_len == n@.len(),
            h@ == hay@,
            n@ == needle@,
            !occurs_at(hay@, needle@, last as int),
            forall|k: int| 0 <= k < at ==> !#[trigger] occurs_at(hay@, needle@, k),
        decreases last - at,
    {
        if matches_at(&h, &n, at) {
            return true;
        }
        at = at + 1;
    }
    false
}

/// `s` begins with `prefix`.
pub open spec fn begins_with(s: Seq<char>, prefix: Seq<char>) -> bool {
    occurs_at(s, prefix, 0)
}

/// Tests whether a string begins with another.
pub fn starts_with(s: &str, prefix: &str) -> (r: bool)
    ensures
        r == begins_with(s@, prefix@),
{
    let h = to_chars(s);
    let n = to_chars(prefix);
    if n.len() > h.len() {
        return false;
    }
    matches_at(&h, &n, 0)
}

/// The pieces of `s` between separators, a separator being `a` or `b`.
pub open spec fn split(s: Seq<char>, a: char, b: char) -> Seq<Seq<char>>
    decreases s.len(),
{
    if s.len() == 0 {
        seq![Seq::<char>::empty()]
    } else {
        let before = split(s.drop_last(), a, b);
        if s.last() == a || s.last() == b {
            before.push(Seq::<char>::empty())
        } else {
            before.drop_last().push(before.last().push(s.last()))
        }
    }
}

/// The pieces with surrounding whitespace removed, blank ones left out.
pub open spec fn cleaned(parts: Seq<Seq<char>>) -> Seq<Seq<char>>
    decreases parts.len(),
{
    if parts.len() == 0 {
        Seq::empty()
    } else {
        let before = cleaned(parts.drop_last());
        let t = trimmed(parts.last());
        if t.len() == 0 {
            before
        } else {
            before.push(t)
        }
    }
}

/// The pieces in order of first appearance, repetitions left out.
pub open spec fn distinct(parts: Seq<Seq<char>>) -> Seq<Seq<char>>
    decreases parts.len(),
{
    if parts.len() == 0 {
        Seq::empty()
    } else {
        let before = distinct(parts.drop_last());
        if before.contains(parts.last()) {
            before
        } else {
            before.push(parts.last())
        }
    }
}

/// The pieces written one after the other with `sep` in between.
pub open spec fn joined(parts: Seq<Seq<char>>, sep: Seq<char>) -> Seq<char>
    decreases parts.len(),
{
    if parts.len() == 0 {
        Seq::empty()
    } else if parts.len() == 1 {
        parts[0]
    } else {
        joined(parts.drop_last(), sep) + sep + parts.last()
    }
}

/// Splits a string at every `a` and every `b`.
pub fn split_at_either(s: &str, a: char, b: char) -> (r: Vec<String>)
    ensures
        texts(r@) == split(s@, a, b),
        r@.len() > 0,
{
    let v = to_chars(s);
    let mut r: Vec<String> = Vec::new();
    let mut current = String::new();
    let mut i: usize = 0;
    while i < v.len()
        invariant
            i <= v@.len(),
            texts(r@).push(current@) == split(v@.take(i as int), a, b),
        decreases v@.len() - i,
    {
        let c = v[i];
        proof {
            assert(v@.take(i + 1).drop_last() =~= v@.take(i as int));
        }
        let ghost before = texts(r@).push(current@);
        if c == a || c == b {
            r.push(current);
            current = String::new();
            proof {
                assert(texts(r@) =~= before);
                assert(texts(r@).push(current@) =~= split(v@.take(i + 1), a, b));
            }
        } else {
            current.push(c);
            proof {
                assert(before.drop_last() =~= texts(r@));
                assert(texts(r@).push(current@) =~= split(v@.take(i + 1), a, b));
            }
        }
        i = i + 1;
    }
    let ghost before = texts(r@).push(current@);
    r.push(current);
    proof {
        assert(v@.take(i as int) =~= s@);
        assert(texts(r@) =~= before);
    }
    r
}

/// Trims every string and leaves out those that are blank.
pub fn clean(parts: &Vec<String>) -> (r: Vec<String>)
    ensures
        texts(r@) == cleaned(texts(parts@)),
{
    let mut r: Vec<String> = Vec::new();
    let mut i: usize = 0;
    while i < parts.len()
        invariant
            i <= parts@.len(),
            texts(r@) == cleaned(texts(parts@).take(i as int)),
        decreases parts@.len() - i,
    {
        let t = trim(parts[i].as_str());
        proof {
            assert(texts(parts@).take(i + 1).drop_last() =~= texts(parts@).take(i as int));
        }
        let ghost before = texts(r@);
        if !t.as_str().is_empty() {
            r.push(t);
            proof {
                assert(texts(r@) =~= before.push(t@));
            }
        }
        i = i + 1;
    }
    proof {
        assert(texts(parts@).take(i as int) =~= texts(parts@));
    }
    r
}

/// Tests whether `x` is one of the strings.
pub fn contains_text(v: &Vec<String>, x: &str) -> (r: bool)
    ensures
        r == texts(v@).contains(x@),
{
    let mut i: usize = 0;
    while i < v.len()
        invariant
            i <= v@.len(),
            forall|j: int| 0 <= j < i ==> (#[trigger] v@[j])@ != x@,
        decreases v@.len() - i,
    {
        if same(v[i].as_str(), x) {
            proof {
                assert(texts(v@)[i as int] == x@);
            }
            return true;
        }
        i = i + 1;
    }
    proof {
        assert forall|j: int| 0 <= j < texts(v@).len() implies texts(v@)[j] != x@ by {
            assert(v@[j]@ != x@);
        }
    }
    false
}

/// Leaves out repetitions, keeping the first appearance of each string.
pub fn dedup(parts: &Vec<String>) -> (r: Vec<String>)
    ensures
        texts(r@) == distinct(texts(parts@)),
{
    let mut r: Vec<String> = Vec::new();
    let mut i: usize = 0;
    while i < parts.len()
        invariant
            i <= parts@.len(),
            texts(r@) == distinct(texts(parts@).take(i as int)),
        decreases parts@.len() - i,
    {
        proof {
            assert(texts(parts@).take(i + 1).drop_last() =~= texts(parts@).take(i as int));
        }
        let ghost before = texts(r@);
        if !contains_text(&r, parts[i].as_str()) {
            r.push(parts[i].clone());
            proof {
                assert(texts(r@) =~= before.push(parts@[i as int]@));
            }
        }
        i = i + 1;
    }
    proof {
        assert(texts(parts@).take(i as int) =~= texts(parts@));
    }
    r
}

/// Joins the strings with `sep` in between.
pub fn join(parts: &Vec<String>, sep: &str) -> (r: String)
    ensures
        r@ == joined(texts(parts@), sep@),
{
    let mut r = String::new();
    let mut i: usize = 0;
    while i < parts.len()
        invariant
            i <= parts@.len(),
            r@ == joined(texts(parts@).take(i as int), sep@),
        decreases parts@.len() - i,
    {
        proof {
            assert(texts(parts@).take(i + 1).drop_last() =~= texts(parts@).take(i as int));
        }
        if i > 0 {
            r.append(sep);
        }
        r.append(parts[i].as_str());
        proof {
            assert(r@ =~= joined(texts(parts@).take(i + 1), sep@));
        }
        i = i + 1;
    }
    proof {
        assert(texts(parts@).take(i as int) =~= texts(parts@));
    }
    r
}

/// What the clean-up keeps is trimmed and not blank.
pub proof fn law_cleaned_is_clean(parts: Seq<Seq<char>>)
    ensures
        forall|i: int|
            0 <= i < cleaned(parts).len() ==> #[trigger] cleaned(parts)[i].len() > 0 && trimmed(
                cleaned(parts)[i],
            ) == cleaned(parts)[i],
        cleaned(cleaned(parts)) == cleaned(parts),
    decreases parts.len(),
{
    if parts.len() > 0 {
        law_cleaned_is_clean(parts.drop_last());
        let t = trimmed(parts.last());
        lemma_trimmed_idempotent(parts.last());
        let before = cleaned(parts.drop_last());
        if t.len() > 0 {
            assert(cleaned(parts).drop_last() =~= before);
        }
    }
}

proof fn lemma_trim_end_last(s: Seq<char>)
    ensures
        trim_end(s).len() <= s.len(),
        trim_end(s) == s.take(trim_end(s).len() as int),
        trim_end(s).len() > 0 ==> !is_space(trim_end(s).last()),
    decreases s.len(),
{
    if s.len() > 0 && is_space(s.last()) {
        lemma_trim_end_last(s.drop_last());
        assert(s.drop_last().take(trim_end(s).len() as int) =~= s.take(trim_end(s).len() as int));
    } else {
        assert(s.take(s.len() as int) =~= s);
    }
}

proof fn lemma_trim_start_first(s: Seq<char>)
    ensures
        trim_start(s).len() > 0 ==> !is_space(trim_start(s)[0]),
    decreases s.len(),
{
    if s.len() > 0 && is_space(s[0]) {
        lemma_trim_start_first(s.skip(1));
    }
}

/// Trimming twice is trimming once.
pub proof fn lemma_trimmed_idempotent(s: Seq<char>)
    ensures
        trimmed(trimmed(s)) == trimmed(s),
{
    lemma_trim_start_first(s);
    lemma_trim_end_last(trim_start(s));
}

proof fn lemma_distinct_members(parts: Seq<Seq<char>>)
    ensures
        forall|x: Seq<char>| distinct(parts).contains(x) <==> parts.contains(x),
        distinct(parts).no_duplicates(),
    decreases parts.len(),
{
    if parts.len() > 0 {
        lemma_distinct_members(parts.drop_last());
        let before = distinct(parts.drop_last());
        let d = distinct(parts);
        assert forall|x: Seq<char>| d.contains(x) <==> parts.contains(x) by {
            if parts.contains(x) {
                let i = choose|i: int| 0 <= i < parts.len() && parts[i] == x;
                if i < parts.len() - 1 {
                    assert(parts.drop_last()[i] == x);
                    assert(parts.drop_last().contains(x));
                    assert(before.contains(x));
                    let k = choose|k: int| 0 <= k < before.len() && before[k] == x;
                    assert(d[k] == x);
                } else if !before.contains(x) {
                    assert(d[d.len() - 1] == x);
                }
            }
            if d.contains(x) {
                let k = choose|k: int| 0 <= k < d.len() && d[k] == x;
                if k < before.len() {
                    assert(before[k] == x);
                    assert(parts.drop_last().contains(x));
                    let i = choose|i: int|
                        0 <= i < parts.drop_last().len() && parts.drop_last()[i] == x;
                    assert(parts[i] == x);
                } else {
                    assert(parts[parts.len() - 1] == x);
                }
            }
        }
        if !before.contains(parts.last()) {
            assert forall|i: int, j: int| 0 <= i < d.len() && 0 <= j < d.len() && i != j implies d[i]
                != d[j] by {
                if i < before.len() && j < before.len() {
                    assert(before[i] != before[j]);
                } else if i < before.len() {
                    assert(before.contains(before[i]));
                } else {
                    assert(before.contains(before[j]));
                }
            }
        }
    }
}

/// Removing repetitions keeps exactly the same members, each of them once.
pub proof fn law_distinct_keeps_members(parts: Seq<Seq<char>>)
    ensures
        forall|x: Seq<char>| distinct(parts).contains(x) <==> parts.contains(x),
        distinct(parts).no_duplicates(),
{
    lemma_distinct_members(parts);
}

/// Trimming takes off the whitespace at both ends and nothing else: a core that
/// begins and ends with something visible comes out of any whitespace around
/// it, and whitespace alone comes out empty.
pub proof fn law_trimmed_is_the_core(before: Seq<char>, core: Seq<char>, after: Seq<char>)
    requires
        forall|i: int| 0 <= i < before.len() ==> is_space(#[trigger] before[i]),
        forall|i: int| 0 <= i < after.len() ==> is_space(#[trigger] after[i]),
        core.len() > 0 ==> !is_space(core[0]) && !is_space(core.last()),
    ensures
        trimmed(before + core + after) == core,
{
    let s = before + core + after;
    if core.len() > 0 {
        assert(s[before.len() as int] == core[0]);
        assert forall|i: int| 0 <= i < before.len() implies is_space(#[trigger] s[i]) by {
            assert(s[i] == before[i]);
        }
        lemma_trim_start_range(s, before.len() as int);
        let t = s.skip(before.len() as int);
        assert(t =~= core + after);
        assert(t[core.len() - 1] == core.last());
        assert forall|i: int| core.len() <= i < t.len() implies is_space(#[trigger] t[i]) by {
            assert(t[i] == after[i - core.len()]);
        }
        lemma_trim_end_range(t, core.len() as int);
        assert(t.take(core.len() as int) =~= core);
    } else {
        assert forall|i: int| 0 <= i < s.len() implies is_space(#[trigger] s[i]) by {
            if i < before.len() {
                assert(s[i] == before[i]);
            } else {
                assert(s[i] == after[i - before.len()]);
            }
        }
        lemma_trim_start_range(s, s.len() as int);
        assert(s.skip(s.len() as int) =~= core);
    }
}

/// Among the ASCII characters, the tab, the line and page breaks and the blank
/// are whitespace, and no other is.
pub proof fn law_ascii_whitespace(c: char)
    requires
        (c as u32) < 0x80,
    ensures
        is_space(c) <==> c == ' ' || c == '\t' || c == '\n' || c == '\r' || c == '\u{b}' || c
            == '\u{c}',
{
}

/// Lowering changes the capital letters of ASCII to the letters that stand
/// thirty-two places after them, and keeps every other character.
pub proof fn law_lower_changes_capitals_only(s: Seq<char>, i: int)
    requires
        0 <= i < s.len(),
    ensures
        lower(s).len() == s.len(),
        0x41 <= s[i] as u32 <= 0x5a ==> lower(s)[i] as u32 == s[i] as u32 + 32,
        !(0x41 <= s[i] as u32 <= 0x5a) ==> lower(s)[i] == s[i],
        lower(lower(s)) == lower(s),
{
    assert forall|k: int| 0 <= k < s.len() implies lower(lower(s))[k] == #[trigger] lower(s)[k] by {
        assert(lower(s)[k] == lower_char(s[k]));
    }
    assert(lower(lower(s)) =~= lower(s));
}

/// Stripping takes off every trailing occurrence of the character and nothing
/// before them.
pub proof fn law_strip_trailing_is_exact(core: Seq<char>, c: char, n: nat)
    requires
        core.len() > 0 ==> core.last() != c,
    ensures
        strip_trailing(core + Seq::new(n, |i: int| c), c) == core,
    decreases n,
{
    let s = core + Seq::new(n, |i: int| c);
    if n > 0 {
        assert(s.last() == c);
        assert(s.drop_last() =~= core + Seq::new((n - 1) as nat, |i: int| c));
        law_strip_trailing_is_exact(core, c, (n - 1) as nat);
    } else {
        assert(s =~= core);
    }
}

/// A text without a separator is one piece.
pub proof fn law_split_of_one_piece(s: Seq<char>, a: char, b: char)
    requires
        forall|i: int| 0 <= i < s.len() ==> #[trigger] s[i] != a && s[i] != b,
    ensures
        split(s, a, b) == seq![s],
    decreases s.len(),
{
    if s.len() > 0 {
        assert(s.last() == s[s.len() - 1]);
        assert forall|i: int| 0 <= i < s.drop_last().len() implies #[trigger] s.drop_last()[i] != a
            && s.drop_last()[i] != b by {
            assert(s.drop_last()[i] == s[i]);
        }
        law_split_of_one_piece(s.drop_last(), a, b);
        assert(seq![s.drop_last()].drop_last() =~= Seq::empty());
        assert(seq![s.drop_last()].last().push(s.last()) =~= s);
        assert(split(s, a, b) =~= seq![s]);
    } else {
        assert(s =~= Seq::empty());
    }
}

/// A separator parts a text in two: the pieces are those of what stands before
/// it, followed by those of what stands after it.
pub proof fn law_split_at_separator(s: Seq<char>, c: char, t: Seq<char>, a: char, b: char)
    requires
        c == a || c == b,
    ensures
        split(s + seq![c] + t, a, b) == split(s, a, b) + split(t, a, b),
        split(t, a, b).len() > 0,
    decreases t.len(),
{
    let all = s + seq![c] + t;
    if t.len() == 0 {
        assert(all.last() == c);
        assert(all.drop_last() =~= s);
        assert(split(all, a, b) =~= split(s, a, b) + split(t, a, b));
    } else {
        law_split_at_separator(s, c, t.drop_last(), a, b);
        assert(all.last() == t.last());
        assert(all.drop_last() =~= s + seq![c] + t.drop_last());
        let left = split(s, a, b);
        let right = split(t.drop_last(), a, b);
        if t.last() == a || t.last() == b {
            assert((left + right).push(Seq::<char>::empty()) =~= left + right.push(
                Seq::<char>::empty(),
            ));
        } else {
            assert((left + right).last() == right.last());
            assert((left + right).drop_last().push(right.last().push(t.last())) =~= left
                + right.drop_last().push(right.last().push(t.last())));
        }
    }
}

/// The clean-up works piece by piece and keeps the order: a blank piece goes,
/// any other stays as its trimmed text.
pub proof fn law_cleaned_piece_by_piece(a: Seq<Seq<char>>, b: Seq<Seq<char>>, x: Seq<char>)
    ensures
        cleaned(a + b) == cleaned(a) + cleaned(b),
        trimmed(x).len() > 0 ==> cleaned(seq![x]) == seq![trimmed(x)],
        trimmed(x).len() == 0 ==> cleaned(seq![x]).len() == 0,
    decreases b.len(),
{
    reveal_with_fuel(cleaned, 2);
    assert(seq![x].drop_last() =~= Seq::empty());
    if trimmed(x).len() > 0 {
        assert(cleaned(seq![x]) =~= seq![trimmed(x)]);
    }
    if b.len() > 0 {
        law_cleaned_piece_by_piece(a, b.drop_last(), x);
        assert((a + b).drop_last() =~= a + b.drop_last());
        assert((a + b).last() == b.last());
        assert(cleaned(a + b) =~= cleaned(a) + cleaned(b));
    } else {
        assert(a + b =~= a);
        assert(cleaned(a + b) =~= cleaned(a) + cleaned(b));
    }
}

/// Removing repetitions keeps the order of first occurrence: what follows in
/// the list never changes what was kept of the part before it.
pub proof fn law_distinct_keeps_order(a: Seq<Seq<char>>, b: Seq<Seq<char>>)
    ensures
        distinct(a).len() <= distinct(a + b).len(),
        distinct(a + b).take(distinct(a).len() as int) == distinct(a),
    decreases b.len(),
{
    if b.len() > 0 {
        law_distinct_keeps_order(a, b.drop_last());
        assert((a + b).drop_last() =~= a + b.drop_last());
        let before = distinct(a + b.drop_last());
        assert(distinct(a + b).take(distinct(a).len() as int) =~= before.take(
            distinct(a).len() as int,
        ));
    } else {
        assert(a + b =~= a);
        assert(distinct(a).take(distinct(a).len() as int) =~= distinct(a));
    }
}

/// Joining puts the separator between two neighbours and nowhere else: joined
/// lists join to one, and a single piece stands as it is.
pub proof fn law_joined_between_neighbours(a: Seq<Seq<char>>, b: Seq<Seq<char>>, sep: Seq<char>)
    requires
        a.len() > 0,
        b.len() > 0,
    ensures
        joined(a + b, sep) == joined(a, sep) + sep + joined(b, sep),
        a.len() == 1 ==> joined(a, sep) == a[0],
    decreases b.len(),
{
    let all = a + b;
    assert(all.last() == b.last());
    assert(all.drop_last() =~= a + b.drop_last());
    if b.len() == 1 {
        assert(b.drop_last() =~= Seq::empty());
        assert(a + b.drop_last() =~= a);
    } else {
        law_joined_between_neighbours(a, b.drop_last(), sep);
        assert(joined(all, sep) =~= joined(a, sep) + sep + joined(b, sep));
    }
}

/// The pieces that a text is cut into at one separator, joined with it again,
/// are the text, and no piece holds the separator.
pub proof fn law_split_joins_back(s: Seq<char>, c: char)
    ensures
        split(s, c, c).len() > 0,
        joined(split(s, c, c), seq![c]) == s,
        forall|i: int, j: int|
            0 <= i < split(s, c, c).len() && 0 <= j < split(s, c, c)[i].len()
                ==> #[trigger] split(s, c, c)[i][j] != c,
    decreases s.len(),
{
    let all = split(s, c, c);
    if s.len() > 0 {
        law_split_joins_back(s.drop_last(), c);
        let before = split(s.drop_last(), c, c);
        assert(s.drop_last().push(s.last()) =~= s);
        if s.last() == c {
            assert(all.drop_last() =~= before);
            assert(joined(all, seq![c]) =~= s);
            assert forall|i: int, j: int| 0 <= i < all.len() && 0 <= j < all[i].len() implies
                #[trigger] all[i][j] != c by {
                assert(all[i] == before[i]);
            }
        } else {
            assert(all.drop_last() =~= before.drop_last());
            assert(joined(all, seq![c]) =~= s);
            assert forall|i: int, j: int| 0 <= i < all.len() && 0 <= j < all[i].len() implies
                #[trigger] all[i][j] != c by {
                if i < all.len() - 1 {
                    assert(all[i] == before[i]);
                    assert(before[i][j] != c);
                } else if j < before.last().len() {
                    assert(all[i][j] == before[before.len() - 1][j]);
                }
            }
        }
    } else {
        assert(joined(all, seq![c]) =~= s);
    }
}

/// Pieces without the separator, joined with it, are cut into the same pieces
/// again.
pub proof fn law_joined_splits_back(parts: Seq<Seq<char>>, c: char)
    requires
        parts.len() > 0,
        forall|i: int, j: int|
            0 <= i < parts.len() && 0 <= j < parts[i].len() ==> #[trigger] parts[i][j] != c,
    ensures
        split(joined(parts, seq![c]), c, c) == parts,
    decreases parts.len(),
{
    let last = parts.last();
    assert forall|j: int| 0 <= j < last.len() implies #[trigger] last[j] != c by {
        assert(parts[parts.len() - 1][j] != c);
    }
    law_split_of_one_piece(last, c, c);
    if parts.len() > 1 {
        let before = parts.drop_last();
        assert forall|i: int, j: int| 0 <= i < before.len() && 0 <= j < before[i].len() implies
            #[trigger] before[i][j] != c by {
            assert(parts[i][j] != c);
        }
        law_joined_splits_back(before, c);
        law_split_at_separator(joined(before, seq![c]), c, last, c, c);
        assert(before + seq![last] =~= parts);
    } else {
        assert(parts =~= seq![last]);
    }
}

/// What trimming leaves is part of the text.
pub proof fn lemma_trimmed_is_part(s: Seq<char>)
    ensures
        trimmed(s).len() <= s.len(),
        forall|i: int| 0 <= i < trimmed(s).len() ==> s.contains(#[trigger] trimmed(s)[i]),
    decreases s.len(),
{
    let t = trim_start(s);
    lemma_trim_end_last(t);
    if s.len() > 0 && is_space(s[0]) {
        lemma_trimmed_is_part(s.skip(1));
        assert(trimmed(s) == trimmed(s.skip(1)));
        assert forall|i: int| 0 <= i < trimmed(s).len() implies s.contains(#[trigger] trimmed(s)[i]) by {
            assert(s.skip(1).contains(trimmed(s)[i]));
            let k = choose|k: int| 0 <= k < s.skip(1).len() && s.skip(1)[k] == trimmed(s)[i];
            assert(s[k + 1] == trimmed(s)[i]);
        }
    } else {
        assert forall|i: int| 0 <= i < trimmed(s).len() implies s.contains(#[trigger] trimmed(s)[i]) by {
            assert(s[i] == trimmed(s)[i]);
        }
    }
}

/// A text occurs wherever it stands, begins what it stands before, and does not
/// occur in anything shorter.
pub proof fn law_occurrence(before: Seq<char>, needle: Seq<char>, after: Seq<char>, hay: Seq<char>)
    ensures
        occurs(before + needle + after, needle),
        begins_with(needle + after, needle),
        begins_with(hay, needle) ==> hay == needle + hay.skip(needle.len() as int),
        hay.len() < needle.len() ==> !occurs(hay, needle) && !begins_with(hay, needle),
        occurs(hay, needle) ==> exists|at: int|
            0 <= at <= hay.len() - needle.len() && #[trigger] hay.subrange(at, at + needle.len())
                == needle,
{
    let all = before + needle + after;
    let at = before.len() as int;
    assert(all.subrange(at, at + needle.len()) =~= needle);
    assert(occurs_at(all, needle, at));
    assert((needle + after).subrange(0, needle.len() as int) =~= needle);
    if begins_with(hay, needle) {
        assert(hay =~= hay.subrange(0, needle.len() as int) + hay.skip(needle.len() as int));
    }
    if occurs(hay, needle) {
        let k = choose|k: int| occurs_at(hay, needle, k);
        assert(hay.subrange(k, k + needle.len()) == needle);
    }
}

} // verus!
