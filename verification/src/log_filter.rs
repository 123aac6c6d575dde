//! Which log filter is in force.
use vstd::prelude::*;

use crate::text;

verus! {

/// `EnvFilter::try_new` accepts the directives.
pub uninterp spec fn is_filter(directives: Seq<char>) -> bool;

/// A character after which a part of a directive begins.
pub open spec fn opens(c: char) -> bool {
    c == '=' || c == '[' || c == '{'
}

/// A character before which a part of a directive may end.
pub open spec fn is_mark(c: char) -> bool {
    opens(c) || c == ']' || c == '}'
}

/// The text can be cut after `b` bytes: they are the bytes of its first
/// characters.
pub open spec fn can_cut(s: Seq<char>, b: nat) -> bool {
    exists|k: int| 0 <= k <= s.len() && text::width(#[trigger] s.take(k)) == b
}

/// Wherever a mark stands in the trimmed directive, the directive itself can be
/// cut after as many bytes as precede the mark, and if it opens a part, after one
/// more.
pub open spec fn fits(directive: Seq<char>) -> bool {
    let t = text::trimmed(directive);
    forall|j: int|
        0 <= j < t.len() && is_mark(#[trigger] t[j]) ==> can_cut(directive, text::width(t.take(j)))
            && (opens(t[j]) ==> can_cut(directive, text::width(t.take(j)) + 1))
}

/// The parser takes the directive. It finds the places to cut in the trimmed
/// directive and cuts the directive itself, whatever precedes it, which panics
/// where that falls inside a character. Without `=` and `[` it only cuts at the
/// start.
pub open spec fn is_parsable(directive: Seq<char>) -> bool {
    ||| directive.len() == 0
    ||| !text::is_space(directive[0])
    ||| !directive.contains('=') && !directive.contains('[')
    ||| fits(directive)
}

/// The parser takes every directive of a comma-separated list.
pub open spec fn all_parsable(directives: Seq<char>) -> bool {
    let list = text::split(directives, ',', ',');
    forall|i: int| 0 <= i < list.len() ==> is_parsable(#[trigger] list[i])
}

/// The directives make up a filter.
pub open spec fn is_usable(directives: Seq<char>) -> bool {
    all_parsable(directives) && is_filter(directives)
}

/// Trusted: `tracing_subscriber::EnvFilter::try_new` accepts directives or
/// refuses them, depending on the text alone. It panics on some directives with
/// leading whitespace, which are left out.
#[verifier::external_body]
fn accepts_filter(directives: &str) -> (r: bool)
    requires
        all_parsable(directives@),
    ensures
        r == is_filter(directives@),
{
    tracing_subscriber::EnvFilter::try_new(directives).is_ok()
}

fn holds(v: &Vec<char>, c: char) -> (r: bool)
    ensures
        r == v@.contains(c),
{
    let mut i: usize = 0;
    while i < v.len()
        invariant
            i <= v@.len(),
            forall|k: int| 0 <= k < i ==> #[trigger] v@[k] != c,
        decreases v@.len() - i,
    {
        if v[i] == c {
            proof {
                assert(v@[i as int] == c);
            }
            return true;
        }
        i = i + 1;
    }
    false
}

fn cuts(v: &Vec<char>, b: u128) -> (r: bool)
    ensures
        r == can_cut(v@, b as nat),
{
    let len: usize = v.len();
    let mut i: usize = 0;
    let mut at: u128 = 0;
    proof {
        assert(v@.take(0) =~= Seq::empty());
    }
    while i < len
        invariant
            i <= len,
            len == v@.len(),
            at == text::width(v@.take(i as int)),
            at <= 4 * i,
            forall|k: int| 0 <= k < i ==> text::width(#[trigger] v@.take(k)) != b,
        decreases len - i,
    {
        if at == b {
            return true;
        }
        let w: usize = text::utf8_width(v[i]);
        proof {
            assert(v@.take(i + 1).drop_last() =~= v@.take(i as int));
            assert(v@.take(i + 1).last() == v@[i as int]);
        }
        at = at + w as u128;
        i = i + 1;
    }
    at == b
}

fn marks_fit(v: &Vec<char>, trimmed: &Vec<char>) -> (r: bool)
    requires
        trimmed@ == text::trimmed(v@),
    ensures
        r == fits(v@),
{
    let ghost t = trimmed@;
    let len: usize = trimmed.len();
    let mut j: usize = 0;
    let mut at: u128 = 0;
    proof {
        assert(t.take(0) =~= Seq::empty());
    }
    while j < len
        invariant
            j <= len,
            len == trimmed@.len(),
            t == trimmed@,
            t == text::trimmed(v@),
            at == text::width(t.take(j as int)),
            at <= 4 * j,
            forall|k: int|
                0 <= k < j && is_mark(#[trigger] t[k]) ==> can_cut(v@, text::width(t.take(k)))
                    && (opens(t[k]) ==> can_cut(v@, text::width(t.take(k)) + 1)),
        decreases len - j,
    {
        let c: char = trimmed[j];
        let opening: bool = c == '=' || c == '[' || c == '{';
        if opening || c == ']' || c == '}' {
            if !cuts(v, at) || (opening && !cuts(v, at + 1)) {
                proof {
                    assert(is_mark(t[j as int]));
                }
                return false;
            }
        }
        let w: usize = text::utf8_width(c);
        proof {
            assert(t.take(j + 1).drop_last() =~= t.take(j as int));
            assert(t.take(j + 1).last() == t[j as int]);
        }
        at = at + w as u128;
        j = j + 1;
    }
    true
}

fn takes_directive(directive: &str) -> (r: bool)
    ensures
        r == is_parsable(directive@),
{
    let v = text::to_chars(directive);
    if v.len() == 0 || !text::char_is_space(v[0]) {
        return true;
    }
    if !holds(&v, '=') && !holds(&v, '[') {
        return true;
    }
    let trimmed = text::to_chars(text::trim(directive).as_str());
    marks_fit(&v, &trimmed)
}

/// Tests whether directives make up a filter. Those that the parser cannot take
/// do not.
fn is_usable_filter(directives: &str) -> (r: bool)
    ensures
        r == is_usable(directives@),
{
    let list = text::split_at_either(directives, ',', ',');
    let ghost pieces = text::split(directives@, ',', ',');
    let mut i: usize = 0;
    while i < list.len()
        invariant
            i <= list@.len(),
            pieces == text::split(directives@, ',', ','),
            text::texts(list@) == pieces,
            forall|k: int| 0 <= k < i ==> is_parsable(#[trigger] pieces[k]),
        decreases list@.len() - i,
    {
        proof {
            assert(pieces[i as int] == list@[i as int]@);
            assert(pieces.len() == list@.len());
        }
        if !takes_directive(list[i].as_str()) {
            return false;
        }
        i = i + 1;
    }
    proof {
        assert(pieces.len() == list@.len());
    }
    accepts_filter(directives)
}

/// The directives at startup: those of the environment if they are valid, else
/// those of the saved level if it is valid and not blank, else the default.
pub open spec fn startup_choice(
    env: Option<Seq<char>>,
    env_ok: bool,
    level: Seq<char>,
    level_ok: bool,
) -> Seq<char> {
    if env is Some && env_ok {
        env->0
    } else if text::trimmed(level).len() > 0 && level_ok {
        text::trimmed(level)
    } else {
        "info,hyper=warn"@
    }
}

/// Chooses the directives at startup, given whether those of the environment
/// and those of the trimmed level are valid.
pub fn choose_startup(env: Option<&str>, env_ok: bool, level: &str, level_ok: bool) -> (r: String)
    ensures
        r@ == startup_choice(
            match env {
                Some(e) => Some(e@),
                None => None,
            },
            env_ok,
            level@,
            level_ok,
        ),
{
    if let Some(e) = env {
        if env_ok {
            return e.to_owned();
        }
    }
    let trimmed = text::trim(level);
    if !trimmed.as_str().is_empty() && level_ok {
        trimmed
    } else {
        "info,hyper=warn".to_owned()
    }
}

/// The directives at startup. `env` is what the environment sets, if anything.
pub fn startup_filter(env: Option<&str>, level: &str) -> (r: String)
    ensures
        r@ == startup_choice(
            match env {
                Some(e) => Some(e@),
                None => None,
            },
            env is Some && is_usable(env->0@),
            level@,
            is_usable(text::trimmed(level@)),
        ),
{
    let env_ok = match env {
        Some(e) => is_usable_filter(e),
        None => false,
    };
    let trimmed = text::trim(level);
    let level_ok = is_usable_filter(trimmed.as_str());
    choose_startup(env, env_ok, level, level_ok)
}

/// Chooses the directives to change to when a level is saved. Nothing changes
/// where the environment sets the filter, or where the level is not valid.
pub fn choose_reload(env_set: bool, level: &str, level_ok: bool) -> (r: Option<String>)
    ensures
        match r {
            None => env_set || (text::trimmed(level@).len() > 0 && !level_ok),
            Some(d) => !env_set && (if text::trimmed(level@).len() == 0 {
                d@ == "info,hyper=warn"@
            } else {
                level_ok && d@ == text::trimmed(level@)
            }),
        },
{
    if env_set {
        return None;
    }
    let trimmed = text::trim(level);
    if trimmed.as_str().is_empty() {
        Some("info,hyper=warn".to_owned())
    } else if level_ok {
        Some(trimmed)
    } else {
        None
    }
}

/// The directives to change to when a level is saved, if the filter changes.
pub fn apply_log_level(env_set: bool, level: &str) -> (r: Option<String>)
    ensures
        match r {
            None => env_set || (text::trimmed(level@).len() > 0 && !is_usable(
                text::trimmed(level@),
            )),
            Some(d) => !env_set && (if text::trimmed(level@).len() == 0 {
                d@ == "info,hyper=warn"@
            } else {
                is_usable(text::trimmed(level@)) && d@ == text::trimmed(level@)
            }),
        },
{
    let trimmed = text::trim(level);
    let level_ok = is_usable_filter(trimmed.as_str());
    choose_reload(env_set, level, level_ok)
}

/// The environment's filter comes first if it is usable, then the configured
/// level, without the blanks around it, then the built-in one.
pub proof fn law_startup_order(
    env: Option<Seq<char>>,
    env_ok: bool,
    level: Seq<char>,
    level_ok: bool,
)
    ensures
        ({
            let chosen = startup_choice(env, env_ok, level, level_ok);
            let has_env = env is Some && env_ok;
            let has_level = text::trimmed(level).len() > 0 && level_ok;
            &&& has_env ==> chosen == env->0
            &&& !has_env && has_level ==> chosen == text::trimmed(level)
            &&& !has_env && !has_level ==> chosen == "info,hyper=warn"@
        }),
{
}

/// A directive that begins with something visible is always parsable, and so is
/// one that names neither a level nor a span.
pub proof fn law_plain_directive_is_parsable(directive: Seq<char>)
    requires
        directive.len() == 0 || !text::is_space(directive[0]) || forall|i: int|
            0 <= i < directive.len() ==> #[trigger] directive[i] != '=' && directive[i] != '[',
    ensures
        is_parsable(directive),
{
}

/// The marks at which a directive is cut: the equals sign and the brackets and
/// braces, of which the closing ones need no cut behind them.
pub proof fn law_marks(c: char)
    ensures
        is_mark(c) <==> c == '=' || c == '[' || c == ']' || c == '{' || c == '}',
        opens(c) <==> is_mark(c) && c != ']' && c != '}',
{
}

proof fn lemma_ascii_width(s: Seq<char>)
    requires
        forall|i: int| 0 <= i < s.len() ==> (#[trigger] s[i] as u32) < 0x80,
    ensures
        text::width(s) == s.len(),
    decreases s.len(),
{
    if s.len() > 0 {
        assert((s[s.len() - 1] as u32) < 0x80);
        assert forall|i: int| 0 <= i < s.drop_last().len() implies (#[trigger] s.drop_last()[i]
            as u32) < 0x80 by {
            assert((s[i] as u32) < 0x80);
        }
        lemma_ascii_width(s.drop_last());
    }
}

/// A directive of ASCII characters is always parsable, blanks before it or not.
pub proof fn law_ascii_directive_is_parsable(directive: Seq<char>)
    requires
        forall|i: int| 0 <= i < directive.len() ==> (#[trigger] directive[i] as u32) < 0x80,
    ensures
        is_parsable(directive),
{
    let t = text::trimmed(directive);
    text::lemma_trimmed_is_part(directive);
    assert forall|j: int| 0 <= j < t.len() && is_mark(#[trigger] t[j]) implies can_cut(
        directive,
        text::width(t.take(j)),
    ) && (opens(t[j]) ==> can_cut(directive, text::width(t.take(j)) + 1)) by {
        assert forall|i: int| 0 <= i < t.take(j).len() implies (#[trigger] t.take(j)[i] as u32)
            < 0x80 by {
            assert(directive.contains(t[i]));
        }
        lemma_ascii_width(t.take(j));
        lemma_ascii_width(directive.take(j));
        lemma_ascii_width(directive.take(j + 1));
    }
    assert(fits(directive));
}

/// Directives are usable if and only if each of them, between commas, is
/// parsable and the parser accepts them.
pub proof fn law_usable_directives(directives: Seq<char>)
    ensures
        is_usable(directives) <==> is_filter(directives) && forall|i: int|
            0 <= i < text::split(directives, ',', ',').len() ==> is_parsable(
                #[trigger] text::split(directives, ',', ',')[i],
            ),
{
}

} // verus!
