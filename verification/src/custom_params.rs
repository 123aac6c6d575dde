//! The editor table of configuration members that no field stands for: rows of
//! a key and a value written as JSON or as plain text.
use vstd::prelude::*;

use crate::json;
use crate::json::JsonView;
use crate::text;

verus! {

/// The rows of the editor over views.
pub open spec fn rows(buffer: Seq<(String, String)>) -> Seq<(Seq<char>, Seq<char>)> {
    buffer.map_values(|r: (String, String)| (r.0@, r.1@))
}

/// How a value is shown: a string as it is, unless it would itself read as
/// JSON without surrounding whitespace; everything else, and such a string, as
/// JSON.
pub open spec fn shown(v: JsonView) -> Seq<char> {
    match v {
        JsonView::Text(s) => if json::text_document(text::trimmed(s)) is Ok {
            json::compact_text(v)
        } else {
            s
        },
        _ => json::compact_text(v),
    }
}

/// What a typed value means: the JSON value that it reads as without
/// surrounding whitespace; failing that, the text itself.
pub open spec fn meant(typed: Seq<char>) -> JsonView {
    match json::text_document(text::trimmed(typed)) {
        Ok(v) => v,
        Err(_) => JsonView::Text(typed),
    }
}

/// The members that rows stand for. Rows with a blank key are drafts and stand
/// for nothing; a later row takes the place of an earlier one with the same
/// key.
pub open spec fn extras_of(r: Seq<(Seq<char>, Seq<char>)>) -> Map<Seq<char>, JsonView>
    decreases r.len(),
{
    if r.len() == 0 {
        Map::empty()
    } else {
        let before = extras_of(r.drop_last());
        let key = text::trimmed(r.last().0);
        if key.len() == 0 {
            before
        } else {
            before.insert(key, meant(r.last().1))
        }
    }
}

/// The rows show the members, in ascending order of the keys.
pub open spec fn shows(r: Seq<(Seq<char>, Seq<char>)>, m: Map<Seq<char>, JsonView>) -> bool {
    &&& forall|i: int|
        0 <= i < r.len() ==> m.contains_key((#[trigger] r[i]).0) && r[i].1 == shown(m[r[i].0])
    &&& forall|k: Seq<char>|
        #[trigger] m.contains_key(k) ==> exists|i: int| 0 <= i < r.len() && (#[trigger] r[i]).0 == k
    &&& forall|i: int, j: int|
        0 <= i < j < r.len() ==> json::precedes((#[trigger] r[i]).0, (#[trigger] r[j]).0)
}

/// The editor does not change the member: its key is trimmed and not blank, and
/// the parser reads its value back from its compact text, as it does wherever all
/// numbers are integers and the nesting is readable.
pub open spec fn editable(key: Seq<char>, v: JsonView) -> bool {
    &&& key.len() > 0
    &&& text::trimmed(key) == key
    &&& json::is_exact(v, json::MAX_DEPTH as nat) || json::reads_as(json::compact_text(v), v)
}

/// No other member's key is the same once trimmed.
pub open spec fn is_alone(m: Map<Seq<char>, JsonView>, key: Seq<char>) -> bool {
    forall|k: Seq<char>| #[trigger] m.contains_key(k) && text::trimmed(k) == key ==> k == key
}

/// `after` has every member of `m` that the editor does not change and whose key
/// no other one takes, whatever becomes of the rest.
pub open spec fn keeps(after: Map<Seq<char>, JsonView>, m: Map<Seq<char>, JsonView>) -> bool {
    forall|k: Seq<char>| #[trigger]
        m.contains_key(k) && editable(k, m[k]) && is_alone(m, k) ==> after.contains_key(k)
            && after[k] == m[k]
}

/// All members are such that the editor does not change them.
pub open spec fn all_editable(m: Map<Seq<char>, JsonView>) -> bool {
    forall|k: Seq<char>| #[trigger] m.contains_key(k) ==> editable(k, m[k])
}

fn show(v: &serde_json::Value) -> (s: String)
    ensures
        s@ == shown(json::json_view(*v)),
        json::is_exact(json::json_view(*v), json::MAX_DEPTH as nat) ==> meant(s@)
            == json::json_view(*v),
        json::reads_as(json::compact_text(json::json_view(*v)), json::json_view(*v)) ==> meant(s@)
            == json::json_view(*v),
{
    match json::read_text(v) {
        Some(t) => match json::parse_text(text::trim(t.as_str()).as_str()) {
            Ok(_) => json::write_compact(v),
            Err(_) => t,
        },
        None => json::write_compact(v),
    }
}

proof fn lemma_rows_rebuild(r: Seq<(Seq<char>, Seq<char>)>, m: Map<Seq<char>, JsonView>, n: int)
    requires
        0 <= n <= r.len(),
        forall|i: int|
            0 <= i < r.len() ==> m.contains_key((#[trigger] r[i]).0) && meant(r[i].1) == m[r[i].0]
                && text::trimmed(r[i].0) == r[i].0 && r[i].0.len() > 0,
    ensures
        forall|k: Seq<char>|
            #[trigger] extras_of(r.take(n)).contains_key(k) ==> m.contains_key(k) && extras_of(
                r.take(n),
            )[k] == m[k],
        forall|i: int| 0 <= i < n ==> extras_of(r.take(n)).contains_key((#[trigger] r[i]).0),
    decreases n,
{
    if n > 0 {
        lemma_rows_rebuild(r, m, n - 1);
        assert(r.take(n).drop_last() =~= r.take(n - 1));
        assert(r.take(n).last() == r[n - 1]);
        let before = extras_of(r.take(n - 1));
        let after = extras_of(r.take(n));
        assert(after == before.insert(r[n - 1].0, m[r[n - 1].0]));
        assert forall|k: Seq<char>| #[trigger] after.contains_key(k) implies m.contains_key(k)
            && after[k] == m[k] by {
            if k != r[n - 1].0 {
                assert(before.contains_key(k));
            }
        }
        assert forall|i: int| 0 <= i < n implies after.contains_key((#[trigger] r[i]).0) by {
            if i < n - 1 {
                assert(before.contains_key(r[i].0));
            }
        }
    } else {
        assert(r.take(n) =~= Seq::empty());
    }
}

proof fn lemma_rows_keep(r: Seq<(Seq<char>, Seq<char>)>, key: Seq<char>, v: JsonView, at: int)
    requires
        key.len() > 0,
        0 <= at < r.len(),
        text::trimmed(r[at].0) == key,
        forall|i: int|
            0 <= i < r.len() && text::trimmed((#[trigger] r[i]).0) == key ==> meant(r[i].1) == v,
    ensures
        extras_of(r).contains_key(key),
        extras_of(r)[key] == v,
    decreases r.len(),
{
    let q = r.drop_last();
    if text::trimmed(r.last().0) == key {
        assert(meant(r[r.len() - 1].1) == v);
    } else {
        assert(q[at] == r[at]);
        assert forall|i: int|
            0 <= i < q.len() && text::trimmed((#[trigger] q[i]).0) == key implies meant(q[i].1)
            == v by {
            assert(q[i] == r[i]);
        }
        lemma_rows_keep(q, key, v, at);
    }
}

/// Shows members as rows of the editor. The rows stand for the members again,
/// where the editor does not change any of them; and in any case for each that it
/// does not change.
pub fn extras_to_buffer(extras: &serde_json::Map<String, serde_json::Value>) -> (buffer: Vec<
    (String, String),
>)
    ensures
        shows(rows(buffer@), json::members(*extras)),
        keeps(extras_of(rows(buffer@)), json::members(*extras)),
        all_editable(json::members(*extras)) ==> extras_of(rows(buffer@)) == json::members(*extras),
{
    let keys = json::object_keys(extras);
    let ghost names = text::texts(keys@);
    let ghost m = json::members(*extras);
    let mut buffer: Vec<(String, String)> = Vec::new();
    let mut i: usize = 0;
    while i < keys.len()
        invariant
            i <= keys@.len(),
            names == text::texts(keys@),
            m == json::members(*extras),
            forall|k: Seq<char>| #[trigger] names.contains(k) <==> m.contains_key(k),
            buffer@.len() == i,
            forall|j: int|
                0 <= j < i ==> (#[trigger] rows(buffer@)[j]).0 == names[j] && m.contains_key(names[j])
                    && rows(buffer@)[j].1 == shown(m[names[j]]) && (editable(names[j], m[names[j]])
                    ==> meant(rows(buffer@)[j].1) == m[names[j]]),
        decreases keys@.len() - i,
    {
        let ghost before = rows(buffer@);
        proof {
            assert(names[i as int] == keys@[i as int]@);
            assert(names.contains(names[i as int]));
        }
        match json::object_member(extras, keys[i].as_str()) {
            Some(v) => {
                let shown_text = show(&v);
                buffer.push((keys[i].clone(), shown_text));
                proof {
                    assert(rows(buffer@) =~= before.push((keys@[i as int]@, shown_text@)));
                }
            },
            None => {
                proof {
                    assert(false);
                }
            },
        }
        i = i + 1;
    }
    proof {
        let r = rows(buffer@);
        assert forall|k: Seq<char>| #[trigger] m.contains_key(k) implies exists|i: int|
            0 <= i < r.len() && (#[trigger] r[i]).0 == k by {
            assert(names.contains(k));
            let j = choose|j: int| 0 <= j < names.len() && names[j] == k;
            assert(r[j].0 == k);
        }
        assert forall|i: int, j: int| 0 <= i < j < r.len() implies json::precedes(
            (#[trigger] r[i]).0,
            (#[trigger] r[j]).0,
        ) by {
            assert(json::precedes(keys@[i]@, keys@[j]@));
        }
        assert forall|k: Seq<char>| #[trigger]
            m.contains_key(k) && editable(k, m[k]) && is_alone(m, k) implies extras_of(
            r,
        ).contains_key(k) && extras_of(r)[k] == m[k] by {
            let at = choose|i: int| 0 <= i < r.len() && (#[trigger] r[i]).0 == k;
            assert forall|i: int|
                0 <= i < r.len() && text::trimmed((#[trigger] r[i]).0) == k implies meant(r[i].1)
                == m[k] by {
                assert(names[i] == r[i].0);
                assert(names.contains(names[i]));
                assert(m.contains_key(r[i].0));
            }
            assert(text::trimmed(r[at].0) == k);
            lemma_rows_keep(r, k, m[k], at);
        }
        if all_editable(m) {
            assert forall|i: int| 0 <= i < r.len() implies m.contains_key((#[trigger] r[i]).0)
                && meant(r[i].1) == m[r[i].0] && text::trimmed(r[i].0) == r[i].0 && r[i].0.len()
                > 0 by {
                assert(editable(names[i], m[names[i]]));
            }
            lemma_rows_rebuild(r, m, r.len() as int);
            assert(r.take(r.len() as int) =~= r);
            assert(extras_of(r) =~= m);
        }
    }
    buffer
}

/// Reads the rows of the editor back into members.
pub fn build_extras_from_buffer(buffer: &Vec<(String, String)>) -> (m: serde_json::Map<
    String,
    serde_json::Value,
>)
    ensures
        json::members(m) == extras_of(rows(buffer@)),
{
    let ghost r = rows(buffer@);
    let mut m = json::new_object();
    let mut i: usize = 0;
    while i < buffer.len()
        invariant
            i <= buffer@.len(),
            r == rows(buffer@),
            json::members(m) == extras_of(r.take(i as int)),
        decreases buffer@.len() - i,
    {
        proof {
            assert(r.take(i + 1).drop_last() =~= r.take(i as int));
            assert(r.take(i + 1).last() == (buffer@[i as int].0@, buffer@[i as int].1@));
        }
        let key = text::trim(buffer[i].0.as_str());
        if !key.as_str().is_empty() {
            let typed = text::trim(buffer[i].1.as_str());
            let v = match json::parse_text(typed.as_str()) {
                Ok(v) => v,
                Err(_) => json::text_value(buffer[i].1.as_str()),
            };
            json::insert_member(&mut m, key.as_str(), v);
        }
        i = i + 1;
    }
    proof {
        assert(r.take(i as int) =~= r);
    }
    m
}

/// No row stands for a member with a blank key or one with whitespace around
/// it.
pub proof fn law_extras_keys_clean(r: Seq<(Seq<char>, Seq<char>)>)
    ensures
        forall|k: Seq<char>|
            #[trigger] extras_of(r).contains_key(k) ==> k.len() > 0 && text::trimmed(k) == k,
    decreases r.len(),
{
    if r.len() > 0 {
        law_extras_keys_clean(r.drop_last());
        text::lemma_trimmed_idempotent(r.last().0);
        let before = extras_of(r.drop_last());
        assert forall|k: Seq<char>| #[trigger] extras_of(r).contains_key(k) implies k.len() > 0
            && text::trimmed(k) == k by {
            if k != text::trimmed(r.last().0) {
                assert(before.contains_key(k));
            }
        }
    }
}

/// The last row with a key decides its value.
pub proof fn law_last_row_wins(r: Seq<(Seq<char>, Seq<char>)>, row: (Seq<char>, Seq<char>))
    requires
        text::trimmed(row.0).len() > 0,
    ensures
        extras_of(r.push(row)) == extras_of(r).insert(text::trimmed(row.0), meant(row.1)),
{
    assert(r.push(row).drop_last() =~= r);
}

/// What is typed as a value is the JSON value that it spells, and else the text
/// itself, blanks and all.
pub proof fn law_typed_value(typed: Seq<char>)
    ensures
        json::text_document(text::trimmed(typed)) matches Ok(v) ==> meant(typed) == v,
        json::text_document(text::trimmed(typed)) is Err ==> meant(typed) == JsonView::Text(typed),
{
}

/// A plain text is shown as it is, so that it is not taken for anything else;
/// one that would read as JSON is shown in quotes, and so is every other value
/// in its JSON form.
pub proof fn law_shown_value(s: Seq<char>, v: JsonView)
    ensures
        json::text_document(text::trimmed(s)) is Err ==> shown(JsonView::Text(s)) == s && meant(
            shown(JsonView::Text(s)),
        ) == JsonView::Text(s),
        json::text_document(text::trimmed(s)) is Ok ==> shown(JsonView::Text(s))
            == json::compact_text(JsonView::Text(s)),
        !(v is Text) ==> shown(v) == json::compact_text(v),
{
}

/// A row without a name is left out, and a row concerns its own name only.
pub proof fn law_row_by_row(
    r: Seq<(Seq<char>, Seq<char>)>,
    row: (Seq<char>, Seq<char>),
    other: Seq<char>,
)
    ensures
        text::trimmed(row.0).len() == 0 ==> extras_of(r.push(row)) == extras_of(r),
        other != text::trimmed(row.0) ==> (extras_of(r.push(row)).contains_key(other)
            <==> extras_of(r).contains_key(other)),
        other != text::trimmed(row.0) && extras_of(r).contains_key(other) ==> extras_of(
            r.push(row),
        )[other] == extras_of(r)[other],
        text::trimmed(row.0).len() > 0 ==> extras_of(r.push(row)).contains_key(
            text::trimmed(row.0),
        ) && extras_of(r.push(row))[text::trimmed(row.0)] == meant(row.1),
{
    assert(r.push(row).drop_last() =~= r);
    assert(r.push(row).last() == row);
}

} // verus!
