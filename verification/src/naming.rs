//! Names that are not taken yet.
use vstd::prelude::*;

use crate::numeral;
use crate::text;

verus! {

/// The `n`-th numbered name.
pub open spec fn numbered(prefix: Seq<char>, n: nat, suffix: Seq<char>) -> Seq<char> {
    prefix + numeral::decimal(n) + suffix
}

/// `n` is the least number, from two on, whose name is not taken.
pub open spec fn is_first_free(
    taken: Seq<Seq<char>>,
    prefix: Seq<char>,
    suffix: Seq<char>,
    n: nat,
) -> bool {
    &&& n >= 2
    &&& !taken.contains(numbered(prefix, n, suffix))
    &&& forall|m: nat| 2 <= m < n ==> taken.contains(#[trigger] numbered(prefix, m, suffix))
}

proof fn lemma_numbered_injective(prefix: Seq<char>, suffix: Seq<char>, m: nat, n: nat)
    requires
        numbered(prefix, m, suffix) == numbered(prefix, n, suffix),
    ensures
        m == n,
{
    let a = numbered(prefix, m, suffix);
    let b = numbered(prefix, n, suffix);
    let p = prefix.len() as int;
    assert(a.len() == b.len());
    assert(a.subrange(p, a.len() - suffix.len()) =~= numeral::decimal(m));
    assert(b.subrange(p, b.len() - suffix.len()) =~= numeral::decimal(n));
    numeral::law_decimal_injective(m, n);
}

proof fn lemma_no_more_than_taken(taken: Seq<Seq<char>>, prefix: Seq<char>, suffix: Seq<char>, n: nat)
    requires
        n >= 2,
        forall|m: nat| 2 <= m < n ==> taken.contains(#[trigger] numbered(prefix, m, suffix)),
    ensures
        n - 2 <= taken.len(),
{
    let names = Seq::new((n - 2) as nat, |i: int| numbered(prefix, (i + 2) as nat, suffix));
    assert forall|i: int, j: int| 0 <= i < names.len() && 0 <= j < names.len() && i
        != j implies names[i] != names[j] by {
        if names[i] == names[j] {
            lemma_numbered_injective(prefix, suffix, (i + 2) as nat, (j + 2) as nat);
        }
    }
    names.unique_seq_to_set();
    taken.lemma_cardinality_of_set();
    assert forall|s: Seq<char>| names.to_set().contains(s) implies taken.to_set().contains(s) by {
        let i = choose|i: int| 0 <= i < names.len() && names[i] == s;
        assert(taken.contains(numbered(prefix, (i + 2) as nat, suffix)));
    }
    vstd::set_lib::lemma_len_subset(names.to_set(), taken.to_set());
}

/// Some numbered name is always free, at the latest after as many as are taken.
pub proof fn law_some_name_is_free(taken: Seq<Seq<char>>, prefix: Seq<char>, suffix: Seq<char>)
    ensures
        exists|n: nat| #[trigger] is_first_free(taken, prefix, suffix, n) && n <= taken.len() + 2,
{
    lemma_free_from(taken, prefix, suffix, 2);
}

proof fn lemma_free_from(taken: Seq<Seq<char>>, prefix: Seq<char>, suffix: Seq<char>, n: nat)
    requires
        n >= 2,
        forall|m: nat| 2 <= m < n ==> taken.contains(#[trigger] numbered(prefix, m, suffix)),
    ensures
        exists|k: nat| #[trigger] is_first_free(taken, prefix, suffix, k) && k <= taken.len() + 2,
    decreases taken.len() + 3 - n,
{
    lemma_no_more_than_taken(taken, prefix, suffix, n);
    if taken.contains(numbered(prefix, n, suffix)) {
        lemma_free_from(taken, prefix, suffix, n + 1);
    } else {
        assert(is_first_free(taken, prefix, suffix, n));
    }
}

/// The first numbered name that is not taken, counting from two.
pub fn first_free(taken: &Vec<String>, prefix: &str, suffix: &str) -> (r: String)
    requires
        taken@.len() + 3 <= u64::MAX,
    ensures
        exists|n: nat|
            #[trigger] is_first_free(text::texts(taken@), prefix@, suffix@, n) && r@ == numbered(
                prefix@,
                n,
                suffix@,
            ),
{
    let ghost names = text::texts(taken@);
    let mut n: u64 = 2;
    loop
        invariant
            names == text::texts(taken@),
            taken@.len() + 3 <= u64::MAX,
            2 <= n <= names.len() + 2,
            forall|m: nat| 2 <= m < n ==> names.contains(#[trigger] numbered(prefix@, m, suffix@)),
        decreases names.len() + 3 - n,
    {
        let candidate = prefix.to_owned().concat(numeral::to_decimal(n).as_str()).concat(suffix);
        proof {
            assert(candidate@ == numbered(prefix@, n as nat, suffix@));
        }
        if !text::contains_text(taken, candidate.as_str()) {
            proof {
                assert(is_first_free(names, prefix@, suffix@, n as nat));
            }
            return candidate;
        }
        proof {
            assert forall|m: nat| 2 <= m < n + 1 implies names.contains(
                #[trigger] numbered(prefix@, m, suffix@),
            ) by {
                if m < n {
                    assert(names.contains(numbered(prefix@, m, suffix@)));
                }
            }
            lemma_no_more_than_taken(names, prefix@, suffix@, (n + 1) as nat);
        }
        n = n + 1;
    }
}

} // verus!
