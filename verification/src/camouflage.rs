//! TLS with a harmless name on the wire: the certificate is checked against the
//! real names of the destination instead.
//!
//! This module decides which names count and what a certificate's trials come
//! to; building and running the TLS connection is the program's part.
use vstd::prelude::*;

use crate::text;

verus! {

/// `ServerName::try_from` accepts the text: it is a DNS name or an IP address.
pub uninterp spec fn is_server_name(s: Seq<char>) -> bool;

/// Trusted: `ServerName::try_from` of `rustls-pki-types` accepts a string or
/// refuses it, depending on the string alone.
#[verifier::external_body]
fn accepts_name(s: &str) -> (r: bool)
    ensures
        r == is_server_name(s@),
{
    tokio_rustls::rustls::pki_types::ServerName::try_from(s.to_string()).is_ok()
}

/// A configured name without surrounding whitespace and trailing dots.
pub open spec fn bare_name(s: Seq<char>) -> Seq<char> {
    text::strip_trailing(text::trimmed(s), '.')
}

/// The names that a certificate may be valid for: the configured ones that are
/// not blank and are valid.
pub open spec fn accepted_names(names: Seq<Seq<char>>, valid: spec_fn(Seq<char>) -> bool) -> Seq<
    Seq<char>,
>
    decreases names.len(),
{
    if names.len() == 0 {
        Seq::empty()
    } else {
        let before = accepted_names(names.drop_last(), valid);
        let name = bare_name(names.last());
        if name.len() > 0 && valid(name) {
            before.push(name)
        } else {
            before
        }
    }
}

/// Adds a bare name to the accepted ones if it is valid.
pub fn take_name(accepted: &mut Vec<String>, name: String, valid: bool)
    ensures
        text::texts(final(accepted)@) == (if name@.len() > 0 && valid {
            text::texts(old(accepted)@).push(name@)
        } else {
            text::texts(old(accepted)@)
        }),
{
    let ghost before = text::texts(accepted@);
    if !name.as_str().is_empty() && valid {
        accepted.push(name);
        proof {
            assert(text::texts(accepted@) =~= before.push(name@));
        }
    }
}

/// The names that certificates are checked against. At least one must be left: a
/// connection that trusts nothing is refused when it is set up, not later.
pub fn expected_names(verify_names: &Vec<String>) -> (r: Result<Vec<String>, String>)
    ensures
        ({
            let names = accepted_names(
                text::texts(verify_names@),
                |s: Seq<char>| is_server_name(s),
            );
            match r {
                Ok(list) => names.len() > 0 && text::texts(list@) == names,
                Err(e) => names.len() == 0 && e@
                    == "no valid verify_names for camouflage connector"@,
            }
        }),
{
    let ghost valid = |s: Seq<char>| is_server_name(s);
    let ghost all = text::texts(verify_names@);
    let mut accepted: Vec<String> = Vec::new();
    let mut i: usize = 0;
    proof {
        assert(text::texts(accepted@) =~= Seq::empty());
    }
    while i < verify_names.len()
        invariant
            i <= verify_names@.len(),
            all == text::texts(verify_names@),
            valid == (|s: Seq<char>| is_server_name(s)),
            text::texts(accepted@) == accepted_names(all.take(i as int), valid),
        decreases verify_names@.len() - i,
    {
        let trimmed = text::trim(verify_names[i].as_str());
        let name = text::trim_trailing(trimmed.as_str(), '.');
        let ok = accepts_name(name.as_str());
        proof {
            assert(all.take(i + 1).drop_last() =~= all.take(i as int));
            assert(all[i as int] == verify_names@[i as int]@);
        }
        take_name(&mut accepted, name, ok);
        i = i + 1;
    }
    proof {
        assert(all.take(i as int) =~= all);
        assert(text::texts(accepted@).len() == accepted@.len());
    }
    if accepted.len() == 0 {
        Err("no valid verify_names for camouflage connector".to_owned())
    } else {
        Ok(accepted)
    }
}

/// The trials of a certificate, one expected name after the other.
pub struct NameTrials<E> {
    pub last_error: Option<E>,
}

/// What the trials so far come to: the first success, else the last error, else
/// nothing was tried.
pub open spec fn decided<V, E>(outcomes: Seq<Result<V, E>>) -> Option<Result<V, E>>
    decreases outcomes.len(),
{
    if outcomes.len() == 0 {
        None
    } else {
        match decided(outcomes.drop_last()) {
            Some(Ok(v)) => Some(Ok(v)),
            _ => Some(outcomes.last()),
        }
    }
}

/// What the trials keep of the outcomes so far, none of which was a success.
pub open spec fn follows<V, E>(t: NameTrials<E>, outcomes: Seq<Result<V, E>>) -> bool {
    match decided(outcomes) {
        None => t.last_error is None,
        Some(Err(e)) => t.last_error == Some(e),
        Some(Ok(_)) => false,
    }
}

impl<E> NameTrials<E> {
    /// No name has been tried.
    pub fn new() -> (t: NameTrials<E>)
        ensures
            t.last_error is None,
    {
        NameTrials { last_error: None }
    }

    /// A name was tried. A success ends the trials.
    pub fn tried<V>(&mut self, outcome: Result<V, E>) -> (r: Option<V>)
        ensures
            match outcome {
                Ok(v) => r == Some(v) && *final(self) == *old(self),
                Err(e) => r is None && final(self).last_error == Some(e),
            },
    {
        match outcome {
            Ok(v) => Some(v),
            Err(e) => {
                self.last_error = Some(e);
                None
            },
        }
    }

    /// All names have failed: the last error, or `none_expected` where there was
    /// no name to try.
    pub fn exhausted(self, none_expected: E) -> (e: E)
        ensures
            e == (match self.last_error {
                Some(last) => last,
                None => none_expected,
            }),
    {
        match self.last_error {
            Some(last) => last,
            None => none_expected,
        }
    }
}

/// Trying the names in turn decides on the certificate: a success that follows
/// only failures is final, and each failure leaves its error behind.
pub proof fn law_trials_decide<V, E>(
    t: NameTrials<E>,
    outcomes: Seq<Result<V, E>>,
    outcome: Result<V, E>,
)
    requires
        follows(t, outcomes),
    ensures
        match outcome {
            Ok(v) => decided(outcomes.push(outcome)) == Some(outcome),
            Err(e) => follows(NameTrials { last_error: Some(e) }, outcomes.push(outcome)),
        },
{
    assert(outcomes.push(outcome).drop_last() =~= outcomes);
}

/// A certificate is accepted only if it is valid for one of the names, and it is
/// refused only if it is valid for none.
pub proof fn law_accepted_iff_some_name_valid<V, E>(outcomes: Seq<Result<V, E>>)
    ensures
        (decided(outcomes) matches Some(r) && r is Ok) <==> (exists|i: int|
            0 <= i < outcomes.len() && (#[trigger] outcomes[i]) is Ok),
    decreases outcomes.len(),
{
    if outcomes.len() > 0 {
        let before = outcomes.drop_last();
        law_accepted_iff_some_name_valid(before);
        if exists|i: int| 0 <= i < outcomes.len() && (#[trigger] outcomes[i]) is Ok {
            let i = choose|i: int| 0 <= i < outcomes.len() && (#[trigger] outcomes[i]) is Ok;
            if i < before.len() {
                assert(before[i] is Ok);
            }
        }
        if decided(before) matches Some(r) && r is Ok {
            let i = choose|i: int| 0 <= i < before.len() && (#[trigger] before[i]) is Ok;
            assert(outcomes[i] is Ok);
        }
    }
}

/// Every expected name is one of the configured names, bare and valid.
pub proof fn law_expected_names_are_configured(
    names: Seq<Seq<char>>,
    valid: spec_fn(Seq<char>) -> bool,
)
    ensures
        forall|i: int|
            0 <= i < accepted_names(names, valid).len() ==> {
                let n = #[trigger] accepted_names(names, valid)[i];
                n.len() > 0 && valid(n) && exists|j: int|
                    0 <= j < names.len() && bare_name(#[trigger] names[j]) == n
            },
    decreases names.len(),
{
    if names.len() > 0 {
        let q = names.drop_last();
        law_expected_names_are_configured(q, valid);
        let a = accepted_names(names, valid);
        let b = accepted_names(q, valid);
        assert forall|i: int| 0 <= i < a.len() implies {
            let n = #[trigger] a[i];
            n.len() > 0 && valid(n) && exists|j: int|
                0 <= j < names.len() && bare_name(#[trigger] names[j]) == n
        } by {
            if i < b.len() {
                let n = b[i];
                let j = choose|j: int| 0 <= j < q.len() && bare_name(#[trigger] q[j]) == n;
                assert(bare_name(names[j]) == n);
            } else {
                assert(bare_name(names[names.len() - 1]) == a[i]);
            }
        }
    }
}

/// Every configured name that is valid once blanks and trailing dots are off is
/// expected, in the order of the configuration, and no other is.
pub proof fn law_valid_names_are_expected(
    a: Seq<Seq<char>>,
    b: Seq<Seq<char>>,
    name: Seq<char>,
    valid: spec_fn(Seq<char>) -> bool,
)
    ensures
        accepted_names(a + b, valid) == accepted_names(a, valid) + accepted_names(b, valid),
        bare_name(name).len() > 0 && valid(bare_name(name)) ==> accepted_names(seq![name], valid)
            == seq![bare_name(name)],
        bare_name(name).len() == 0 || !valid(bare_name(name)) ==> accepted_names(
            seq![name],
            valid,
        ).len() == 0,
    decreases b.len(),
{
    reveal_with_fuel(accepted_names, 2);
    assert(seq![name].drop_last() =~= Seq::empty());
    if bare_name(name).len() > 0 && valid(bare_name(name)) {
        assert(accepted_names(seq![name], valid) =~= seq![bare_name(name)]);
    }
    if b.len() > 0 {
        law_valid_names_are_expected(a, b.drop_last(), name, valid);
        assert((a + b).drop_last() =~= a + b.drop_last());
        assert((a + b).last() == b.last());
        assert(accepted_names(a + b, valid) =~= accepted_names(a, valid) + accepted_names(b, valid));
    } else {
        assert(a + b =~= a);
        assert(accepted_names(a + b, valid) =~= accepted_names(a, valid) + accepted_names(b, valid));
    }
}

/// A name is used without the blanks around it and without dots at its end.
pub proof fn law_bare_name(before: Seq<char>, core: Seq<char>, dots: nat, after: Seq<char>)
    requires
        forall|i: int| 0 <= i < before.len() ==> text::is_space(#[trigger] before[i]),
        forall|i: int| 0 <= i < after.len() ==> text::is_space(#[trigger] after[i]),
        core.len() > 0,
        !text::is_space(core[0]),
        !text::is_space(core.last()),
        core.last() != '.',
    ensures
        bare_name(before + (core + Seq::new(dots, |i: int| '.')) + after) == core,
{
    let full = core + Seq::new(dots, |i: int| '.');
    assert(full[0] == core[0]);
    if dots > 0 {
        assert(full.last() == '.');
    } else {
        assert(full =~= core);
    }
    text::law_trimmed_is_the_core(before, full, after);
    text::law_strip_trailing_is_exact(core, '.', dots);
}

/// The first name that verifies decides; if none does, the last failure is
/// reported.
pub proof fn law_first_success_decides<V, E>(outcomes: Seq<Result<V, E>>, i: int)
    requires
        0 <= i < outcomes.len(),
        forall|j: int| 0 <= j < i ==> (#[trigger] outcomes[j]) is Err,
    ensures
        outcomes[i] is Ok ==> decided(outcomes) == Some(outcomes[i]),
        i == outcomes.len() - 1 ==> decided(outcomes) == Some(outcomes[i]),
    decreases outcomes.len(),
{
    let before = outcomes.drop_last();
    if i < before.len() {
        assert forall|j: int| 0 <= j < i implies (#[trigger] before[j]) is Err by {
            assert(before[j] == outcomes[j]);
        }
        law_first_success_decides(before, i);
    } else {
        law_accepted_iff_some_name_valid(before);
        assert forall|j: int| 0 <= j < before.len() implies (#[trigger] before[j]) is Err by {
            assert(before[j] == outcomes[j]);
        }
    }
}

} // verus!
