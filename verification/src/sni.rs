//! The pool of SNI names that connections rotate through.
use vstd::prelude::*;

use crate::json;
use crate::json::JsonView;
use crate::text;

verus! {

/// A row of the pool editor.
#[derive(Debug)]
pub struct SniRow {
    pub name: String,
    pub enabled: bool,
}

/// A row of the pool as the desktop front end shows it.
#[derive(Debug)]
pub struct SniHostDto {
    pub host: String,
    pub enabled: bool,
}

/// A row over views.
pub struct RowView {
    pub name: Seq<char>,
    pub enabled: bool,
}

/// Rows over views.
pub open spec fn row_views(rows: Seq<SniRow>) -> Seq<RowView> {
    rows.map_values(|r: SniRow| RowView { name: r.name@, enabled: r.enabled })
}

/// Rows over views.
pub open spec fn host_views(rows: Seq<SniHostDto>) -> Seq<RowView> {
    rows.map_values(|r: SniHostDto| RowView { name: r.host@, enabled: r.enabled })
}

/// Names as rows, all of them enabled.
pub open spec fn enabled_rows(names: Seq<Seq<char>>) -> Seq<RowView> {
    names.map_values(|n: Seq<char>| RowView { name: n, enabled: true })
}

/// The built-in pool.
pub open spec fn default_pool() -> Seq<Seq<char>> {
    seq![
        "www.google.com"@,
        "mail.google.com"@,
        "drive.google.com"@,
        "docs.google.com"@,
        "calendar.google.com"@,
    ]
}

/// The built-in pool.
pub fn default_google_sni_pool() -> (r: Vec<String>)
    ensures
        text::texts(r@) == default_pool(),
{
    let mut r: Vec<String> = Vec::new();
    r.push("www.google.com".to_owned());
    r.push("mail.google.com".to_owned());
    r.push("drive.google.com".to_owned());
    r.push("docs.google.com".to_owned());
    r.push("calendar.google.com".to_owned());
    proof {
        assert(text::texts(r@) =~= default_pool());
    }
    r
}

/// The names that the editor first shows: the user's own, cleaned; without any,
/// the front domain followed by the built-in pool, each name once.
pub open spec fn form_names(user: Seq<Seq<char>>, front_domain: Seq<char>) -> Seq<Seq<char>> {
    let own = text::cleaned(user);
    let primary = text::trimmed(front_domain);
    if own.len() > 0 {
        own
    } else if primary.len() > 0 {
        text::distinct(seq![primary] + default_pool())
    } else {
        text::distinct(default_pool())
    }
}

/// The configured names, none where nothing is configured.
pub open spec fn configured(user: Option<Vec<String>>) -> Seq<Seq<char>> {
    match user {
        Some(v) => text::texts(v@),
        None => Seq::empty(),
    }
}

fn to_rows(names: &Vec<String>) -> (r: Vec<SniRow>)
    ensures
        row_views(r@) == enabled_rows(text::texts(names@)),
{
    let mut r: Vec<SniRow> = Vec::new();
    let mut i: usize = 0;
    while i < names.len()
        invariant
            i <= names@.len(),
            r@.len() == i,
            forall|k: int| 0 <= k < i ==> (#[trigger] r@[k]).name@ == names@[k]@ && r@[k].enabled,
        decreases names@.len() - i,
    {
        r.push(SniRow { name: names[i].clone(), enabled: true });
        i = i + 1;
    }
    proof {
        assert(row_views(r@) =~= enabled_rows(text::texts(names@)));
    }
    r
}

/// The rows that the pool editor first shows.
pub fn sni_pool_for_form(user: &Option<Vec<String>>, front_domain: &str) -> (r: Vec<SniRow>)
    ensures
        row_views(r@) == enabled_rows(form_names(configured(*user), front_domain@)),
{
    if let Some(names) = user {
        let own = text::clean(names);
        proof {
            assert(text::texts(own@).len() == own@.len());
        }
        if own.len() > 0 {
            return to_rows(&own);
        }
    }
    proof {
        if user is None {
            assert(text::cleaned(configured(*user)) =~= Seq::empty());
        }
    }
    let primary = text::trim(front_domain);
    let mut names: Vec<String> = Vec::new();
    if !primary.as_str().is_empty() {
        names.push(primary);
    }
    let ghost head = text::texts(names@);
    let mut pool = default_google_sni_pool();
    let ghost tail = text::texts(pool@);
    names.append(&mut pool);
    proof {
        assert(text::texts(names@) =~= head + tail);
        if text::trimmed(front_domain@).len() > 0 {
            assert(head =~= seq![text::trimmed(front_domain@)]);
        } else {
            assert(head + tail =~= default_pool());
        }
    }
    to_rows(&text::dedup(&names))
}

/// The names of the enabled rows, in order.
pub open spec fn enabled_names(rows: Seq<RowView>) -> Seq<Seq<char>>
    decreases rows.len(),
{
    if rows.len() == 0 {
        Seq::empty()
    } else {
        let before = enabled_names(rows.drop_last());
        if rows.last().enabled {
            before.push(rows.last().name)
        } else {
            before
        }
    }
}

/// The names that are saved: those of the enabled rows, trimmed, without
/// blanks.
pub open spec fn active_names(rows: Seq<RowView>) -> Seq<Seq<char>> {
    text::cleaned(enabled_names(rows))
}

/// The active names of the pool editor.
pub fn active_rows(rows: &Vec<SniRow>) -> (r: Vec<String>)
    ensures
        text::texts(r@) == active_names(row_views(rows@)),
{
    let ghost rv = row_views(rows@);
    let mut enabled: Vec<String> = Vec::new();
    let mut i: usize = 0;
    while i < rows.len()
        invariant
            i <= rows@.len(),
            rv == row_views(rows@),
            text::texts(enabled@) == enabled_names(rv.take(i as int)),
        decreases rows@.len() - i,
    {
        let ghost before = text::texts(enabled@);
        proof {
            assert(rv.take(i + 1).drop_last() =~= rv.take(i as int));
            assert(rv[i as int].name == rows@[i as int].name@);
        }
        if rows[i].enabled {
            enabled.push(rows[i].name.clone());
            proof {
                assert(text::texts(enabled@) =~= before.push(rows@[i as int].name@));
            }
        }
        i = i + 1;
    }
    proof {
        assert(rv.take(i as int) =~= rv);
    }
    text::clean(&enabled)
}

/// Checks the rows that the desktop front end sends back and gives the names to
/// save. At least one must remain.
pub fn checked_hosts(entries: &Vec<SniHostDto>) -> (r: Result<Vec<String>, String>)
    ensures
        match r {
            Ok(names) => active_names(host_views(entries@)).len() > 0 && text::texts(names@)
                == active_names(host_views(entries@)),
            Err(e) => active_names(host_views(entries@)).len() == 0 && e@
                == "At least one SNI host must remain enabled"@,
        },
{
    let mut rows: Vec<SniRow> = Vec::new();
    let mut i: usize = 0;
    while i < entries.len()
        invariant
            i <= entries@.len(),
            rows@.len() == i,
            forall|k: int|
                0 <= k < i ==> (#[trigger] rows@[k]).name@ == entries@[k].host@ && rows@[k].enabled
                    == entries@[k].enabled,
        decreases entries@.len() - i,
    {
        rows.push(SniRow { name: entries[i].host.clone(), enabled: entries[i].enabled });
        i = i + 1;
    }
    proof {
        assert(row_views(rows@) =~= host_views(entries@));
    }
    let names = active_rows(&rows);
    proof {
        assert(text::texts(names@).len() == names@.len());
    }
    if names.len() == 0 {
        Err("At least one SNI host must remain enabled".to_owned())
    } else {
        Ok(names)
    }
}

/// Puts the active names into a document, leaving its other members as they
/// are.
pub fn put_sni_hosts(document: &mut serde_json::Map<String, serde_json::Value>, names: &Vec<String>)
    ensures
        json::members(*final(document)) == json::members(*old(document)).insert(
            "sni_hosts"@,
            json::texts_array(text::texts(names@)),
        ),
{
    json::insert_member(document, "sni_hosts", json::texts_value(names));
}

/// One of the names is `x` up to ASCII case.
pub open spec fn has_name(names: Seq<Seq<char>>, x: Seq<char>) -> bool {
    exists|i: int| 0 <= i < names.len() && text::lower(#[trigger] names[i]) == text::lower(x)
}

/// The first `n` names of the built-in pool that are not configured, as
/// disabled rows.
pub open spec fn opted_out(names: Seq<Seq<char>>, n: int) -> Seq<RowView>
    decreases n,
{
    if n <= 0 {
        Seq::empty()
    } else {
        let before = opted_out(names, n - 1);
        if has_name(names, default_pool()[n - 1]) {
            before
        } else {
            before.push(RowView { name: default_pool()[n - 1], enabled: false })
        }
    }
}

/// The rows that the desktop front end shows: the configured names in order,
/// then the built-in names that are not among them, disabled; without
/// configured names, the built-in pool.
pub open spec fn pool_rows(names: Seq<Seq<char>>) -> Seq<RowView> {
    if names.len() == 0 {
        enabled_rows(default_pool())
    } else {
        enabled_rows(names) + opted_out(names, default_pool().len() as int)
    }
}

fn contains_name(names: &Vec<String>, x: &str) -> (r: bool)
    ensures
        r == has_name(text::texts(names@), x@),
{
    let ghost nv = text::texts(names@);
    let mut i: usize = 0;
    while i < names.len()
        invariant
            i <= names@.len(),
            nv == text::texts(names@),
            forall|k: int| 0 <= k < i ==> text::lower(#[trigger] nv[k]) != text::lower(x@),
        decreases names@.len() - i,
    {
        proof {
            assert(nv[i as int] == names@[i as int]@);
        }
        if text::same_ignoring_case(names[i].as_str(), x) {
            return true;
        }
        i = i + 1;
    }
    false
}

fn to_hosts(names: &Vec<String>) -> (r: Vec<SniHostDto>)
    ensures
        host_views(r@) == enabled_rows(text::texts(names@)),
{
    let mut r: Vec<SniHostDto> = Vec::new();
    let mut i: usize = 0;
    while i < names.len()
        invariant
            i <= names@.len(),
            r@.len() == i,
            forall|k: int| 0 <= k < i ==> (#[trigger] r@[k]).host@ == names@[k]@ && r@[k].enabled,
        decreases names@.len() - i,
    {
        r.push(SniHostDto { host: names[i].clone(), enabled: true });
        i = i + 1;
    }
    proof {
        assert(host_views(r@) =~= enabled_rows(text::texts(names@)));
    }
    r
}

/// The rows to show for configured names.
pub fn pool_for_names(names: &Vec<String>) -> (r: Vec<SniHostDto>)
    ensures
        host_views(r@) == pool_rows(text::texts(names@)),
{
    let pool = default_google_sni_pool();
    if names.len() == 0 {
        proof {
            assert(text::texts(names@).len() == 0);
        }
        return to_hosts(&pool);
    }
    let ghost nv = text::texts(names@);
    let mut r = to_hosts(names);
    let mut i: usize = 0;
    proof {
        assert(host_views(r@) =~= enabled_rows(nv) + opted_out(nv, 0));
    }
    while i < pool.len()
        invariant
            i <= pool@.len(),
            text::texts(pool@) == default_pool(),
            nv == text::texts(names@),
            host_views(r@) == enabled_rows(nv) + opted_out(nv, i as int),
        decreases pool@.len() - i,
    {
        let ghost before = host_views(r@);
        proof {
            assert(default_pool()[i as int] == pool@[i as int]@);
        }
        if !contains_name(names, pool[i].as_str()) {
            r.push(SniHostDto { host: pool[i].clone(), enabled: false });
            proof {
                let row = RowView { name: pool@[i as int]@, enabled: false };
                assert(host_views(r@) =~= before.push(row));
                assert(before.push(row) =~= enabled_rows(nv) + opted_out(nv, i as int).push(row));
            }
        }
        i = i + 1;
    }
    proof {
        assert(text::texts(pool@).len() == pool@.len());
    }
    r
}

/// The names configured in a document, or why they cannot be read.
pub open spec fn document_names(v: JsonView) -> Result<Seq<Seq<char>>, Seq<char>> {
    match json::member(v, "sni_hosts"@) {
        None => Ok(Seq::empty()),
        Some(list) => if json::is_texts(list) {
            Ok(json::texts_of(list))
        } else {
            Err("malformed sni_hosts: "@ + json::not_texts_reason(list))
        },
    }
}

/// The rows to show for a saved document. A malformed list is an error, since
/// saving over it would lose it.
pub fn pool_for_document(v: &serde_json::Value) -> (r: Result<Vec<SniHostDto>, String>)
    ensures
        match r {
            Ok(rows) => document_names(json::json_view(*v)) matches Ok(names) && host_views(rows@)
                == pool_rows(names),
            Err(e) => document_names(json::json_view(*v)) matches Err(m) && e@ == m,
        },
{
    let names: Vec<String> = match json::get_member(v, "sni_hosts") {
        None => {
            let none: Vec<String> = Vec::new();
            proof {
                assert(text::texts(none@) =~= Seq::empty());
            }
            none
        },
        Some(list) => match json::read_texts(&list) {
            Ok(names) => names,
            Err(e) => return Err("malformed sni_hosts: ".to_owned().concat(e.as_str())),
        },
    };
    Ok(pool_for_names(&names))
}

/// The rows to show for the bytes of the saved document, or for none where
/// nothing has been saved yet.
pub fn get_sni_pool(saved: Option<&Vec<u8>>, path: &str) -> (r: Result<Vec<SniHostDto>, String>)
    ensures
        match saved {
            None => r matches Ok(rows) && host_views(rows@) == enabled_rows(default_pool()),
            Some(bytes) => match json::bytes_document(bytes@) {
                Err(e) => r matches Err(m) && m@ == "parse "@ + path@ + ": "@ + e,
                Ok(v) => match document_names(v) {
                    Ok(names) => r matches Ok(rows) && host_views(rows@) == pool_rows(names),
                    Err(e) => r matches Err(m) && m@ == e,
                },
            },
        },
{
    match saved {
        None => Ok(to_hosts(&default_google_sni_pool())),
        Some(bytes) => match json::parse_bytes(bytes.as_slice()) {
            Ok(v) => pool_for_document(&v),
            Err(e) => Err(
                "parse ".to_owned().concat(path).concat(": ").concat(e.as_str()),
            ),
        },
    }
}

proof fn lemma_enabled_names(names: Seq<Seq<char>>)
    ensures
        enabled_names(enabled_rows(names)) == names,
    decreases names.len(),
{
    if names.len() > 0 {
        lemma_enabled_names(names.drop_last());
        assert(enabled_rows(names).drop_last() =~= enabled_rows(names.drop_last()));
        assert(names.drop_last().push(names.last()) =~= names);
    } else {
        assert(enabled_names(enabled_rows(names)) =~= names);
    }
}

proof fn lemma_enabled_names_concat(a: Seq<RowView>, b: Seq<RowView>)
    requires
        forall|i: int| 0 <= i < b.len() ==> !(#[trigger] b[i]).enabled,
    ensures
        enabled_names(a + b) == enabled_names(a),
    decreases b.len(),
{
    if b.len() > 0 {
        assert((a + b).drop_last() =~= a + b.drop_last());
        assert(!b[b.len() - 1].enabled);
        assert forall|i: int| 0 <= i < b.drop_last().len() implies !(
        #[trigger] b.drop_last()[i]).enabled by {
            assert(!b[i].enabled);
        }
        lemma_enabled_names_concat(a, b.drop_last());
    } else {
        assert(a + b =~= a);
    }
}

proof fn lemma_opted_out_disabled(names: Seq<Seq<char>>, n: int)
    ensures
        forall|i: int|
            0 <= i < opted_out(names, n).len() ==> !(#[trigger] opted_out(names, n)[i]).enabled,
    decreases n,
{
    if n > 0 {
        lemma_opted_out_disabled(names, n - 1);
        let before = opted_out(names, n - 1);
        assert forall|i: int| 0 <= i < opted_out(names, n).len() implies !(#[trigger] opted_out(
            names,
            n,
        )[i]).enabled by {
            if i < before.len() {
                assert(!before[i].enabled);
            }
        }
    }
}

/// Saving the pool as it is shown saves the names that were configured,
/// cleaned, in the same order.
pub proof fn law_shown_pool_saves_back(names: Seq<Seq<char>>)
    requires
        names.len() > 0,
    ensures
        active_names(pool_rows(names)) == text::cleaned(names),
{
    let n = default_pool().len() as int;
    lemma_opted_out_disabled(names, n);
    lemma_enabled_names_concat(enabled_rows(names), opted_out(names, n));
    lemma_enabled_names(names);
}

/// A configured list with a name in it is shown in the form as it is, cleaned,
/// and saved back the same.
pub proof fn law_form_pool_saves_back(user: Seq<Seq<char>>, front_domain: Seq<char>)
    requires
        text::cleaned(user).len() > 0,
    ensures
        active_names(enabled_rows(form_names(user, front_domain))) == text::cleaned(user),
{
    lemma_enabled_names(text::cleaned(user));
    text::law_cleaned_is_clean(user);
}

/// Without configured names the form shows every built-in name, the front
/// domain first, and no name twice.
pub proof fn law_form_pool_default(user: Seq<Seq<char>>, front_domain: Seq<char>)
    requires
        text::cleaned(user).len() == 0,
    ensures
        form_names(user, front_domain).no_duplicates(),
        forall|k: int|
            0 <= k < default_pool().len() ==> form_names(user, front_domain).contains(
                #[trigger] default_pool()[k],
            ),
        text::trimmed(front_domain).len() > 0 ==> form_names(user, front_domain).len() > 0
            && form_names(user, front_domain)[0] == text::trimmed(front_domain),
{
    let primary = text::trimmed(front_domain);
    let all = if primary.len() > 0 {
        seq![primary] + default_pool()
    } else {
        default_pool()
    };
    text::law_distinct_keeps_members(all);
    assert forall|k: int| 0 <= k < default_pool().len() implies text::distinct(all).contains(
        #[trigger] default_pool()[k],
    ) by {
        let at = if primary.len() > 0 { k + 1 } else { k };
        assert(all[at] == default_pool()[k]);
        assert(all.contains(all[at]));
    }
    if primary.len() > 0 {
        lemma_distinct_first(all);
    }
}

proof fn lemma_distinct_first(parts: Seq<Seq<char>>)
    requires
        parts.len() > 0,
    ensures
        text::distinct(parts).len() > 0,
        text::distinct(parts)[0] == parts[0],
    decreases parts.len(),
{
    let before = parts.drop_last();
    if before.len() > 0 {
        lemma_distinct_first(before);
    } else {
        assert(text::distinct(before) =~= Seq::empty());
    }
}

/// Adds a custom name unless it is blank or already in the pool. Returns the
/// trimmed name when it was added.
pub fn add_custom(rows: &mut Vec<SniRow>, input: &str) -> (r: Option<String>)
    ensures
        ({
            let name = text::trimmed(input@);
            let old_rows = row_views(old(rows)@);
            if name.len() > 0 && !has_row(old_rows, name) {
                &&& r matches Some(n) && n@ == name
                &&& row_views(final(rows)@) == old_rows.push(RowView { name, enabled: true })
            } else {
                r is None && final(rows)@ == old(rows)@
            }
        }),
{
    let name = text::trim(input);
    if name.as_str().is_empty() || row_exists(rows, name.as_str()) {
        return None;
    }
    let ghost before = row_views(rows@);
    rows.push(SniRow { name: name.clone(), enabled: true });
    proof {
        assert(row_views(rows@) =~= before.push(RowView { name: name@, enabled: true }));
    }
    Some(name)
}

/// A row has exactly this name.
pub open spec fn has_row(rows: Seq<RowView>, name: Seq<char>) -> bool {
    exists|i: int| 0 <= i < rows.len() && (#[trigger] rows[i]).name == name
}

fn row_exists(rows: &Vec<SniRow>, name: &str) -> (r: bool)
    ensures
        r == has_row(row_views(rows@), name@),
{
    let ghost rv = row_views(rows@);
    let mut i: usize = 0;
    while i < rows.len()
        invariant
            i <= rows@.len(),
            rv == row_views(rows@),
            forall|k: int| 0 <= k < i ==> (#[trigger] rv[k]).name != name@,
        decreases rows@.len() - i,
    {
        proof {
            assert(rv[i as int].name == rows@[i as int].name@);
        }
        if text::same(rows[i].name.as_str(), name) {
            return true;
        }
        i = i + 1;
    }
    false
}

/// The names to probe: all rows' names, trimmed, without blanks.
pub fn probe_names(rows: &Vec<SniRow>) -> (r: Vec<String>)
    ensures
        text::texts(r@) == text::cleaned(row_views(rows@).map_values(|r: RowView| r.name)),
{
    let mut names: Vec<String> = Vec::new();
    let mut i: usize = 0;
    while i < rows.len()
        invariant
            i <= rows@.len(),
            names@.len() == i,
            forall|k: int| 0 <= k < i ==> (#[trigger] names@[k])@ == rows@[k].name@,
        decreases rows@.len() - i,
    {
        names.push(rows[i].name.clone());
        i = i + 1;
    }
    proof {
        assert(text::texts(names@) =~= row_views(rows@).map_values(|r: RowView| r.name));
    }
    text::clean(&names)
}

/// Sets every row's flag: enabled exactly if its name is among the working
/// names.
pub fn keep_working_only(rows: &mut Vec<SniRow>, working: &Vec<String>)
    ensures
        row_views(final(rows)@) == row_views(old(rows)@).map_values(
            |r: RowView|
                RowView { name: r.name, enabled: text::texts(working@).contains(r.name) },
        ),
{
    let ghost before = row_views(rows@);
    let mut i: usize = 0;
    while i < rows.len()
        invariant
            i <= rows@.len(),
            rows@.len() == before.len(),
            forall|k: int|
                0 <= k < rows@.len() ==> (#[trigger] rows@[k]).name@ == before[k].name,
            forall|k: int|
                0 <= k < i ==> (#[trigger] rows@[k]).enabled == text::texts(working@).contains(
                    before[k].name,
                ),
        decreases rows@.len() - i,
    {
        let enabled = text::contains_text(working, rows[i].name.as_str());
        let name = rows[i].name.clone();
        rows.set(i, SniRow { name, enabled });
        i = i + 1;
    }
    proof {
        assert(row_views(rows@) =~= before.map_values(
            |r: RowView|
                RowView { name: r.name, enabled: text::texts(working@).contains(r.name) },
        ));
    }
}

/// Enables every row.
pub fn enable_all(rows: &mut Vec<SniRow>)
    ensures
        row_views(final(rows)@) == row_views(old(rows)@).map_values(
            |r: RowView| RowView { name: r.name, enabled: true },
        ),
{
    let ghost before = row_views(rows@);
    let mut i: usize = 0;
    while i < rows.len()
        invariant
            i <= rows@.len(),
            rows@.len() == before.len(),
            forall|k: int|
                0 <= k < rows@.len() ==> (#[trigger] rows@[k]).name@ == before[k].name,
            forall|k: int| 0 <= k < i ==> (#[trigger] rows@[k]).enabled,
        decreases rows@.len() - i,
    {
        let name = rows[i].name.clone();
        rows.set(i, SniRow { name, enabled: true });
        i = i + 1;
    }
    proof {
        assert(row_views(rows@) =~= before.map_values(
            |r: RowView| RowView { name: r.name, enabled: true },
        ));
    }
}

/// The rows of the built-in pool, all enabled.
pub fn default_rows() -> (r: Vec<SniRow>)
    ensures
        row_views(r@) == enabled_rows(default_pool()),
{
    to_rows(&default_google_sni_pool())
}

/// The names to use are those of the enabled rows, trimmed and without blank
/// ones, in the order of the rows.
pub proof fn law_active_rows_in_order(a: Seq<RowView>, b: Seq<RowView>, row: RowView)
    ensures
        active_names(a + b) == active_names(a) + active_names(b),
        row.enabled && text::trimmed(row.name).len() > 0 ==> active_names(seq![row]) == seq![
            text::trimmed(row.name),
        ],
        !row.enabled || text::trimmed(row.name).len() == 0 ==> active_names(seq![row]).len() == 0,
{
    lemma_enabled_names_join(a, b);
    text::law_cleaned_piece_by_piece(enabled_names(a), enabled_names(b), row.name);
    reveal_with_fuel(enabled_names, 2);
    assert(seq![row].drop_last() =~= Seq::empty());
    if row.enabled {
        assert(enabled_names(seq![row]) =~= seq![row.name]);
    } else {
        assert(enabled_names(seq![row]) =~= Seq::empty());
    }
}

proof fn lemma_enabled_names_join(a: Seq<RowView>, b: Seq<RowView>)
    ensures
        enabled_names(a + b) == enabled_names(a) + enabled_names(b),
    decreases b.len(),
{
    if b.len() > 0 {
        lemma_enabled_names_join(a, b.drop_last());
        assert((a + b).drop_last() =~= a + b.drop_last());
        assert((a + b).last() == b.last());
        assert(enabled_names(a + b) =~= enabled_names(a) + enabled_names(b));
    } else {
        assert(a + b =~= a);
        assert(enabled_names(a + b) =~= enabled_names(a) + enabled_names(b));
    }
}

/// The pool of the form is the user's own names if there are any, and else the
/// front domain followed by the built-in names.
pub proof fn law_form_pool_is_own_or_built_in(user: Seq<Seq<char>>, front_domain: Seq<char>)
    ensures
        text::cleaned(user).len() > 0 ==> form_names(user, front_domain) == text::cleaned(user),
        text::cleaned(user).len() == 0 ==> forall|n: Seq<char>| #[trigger]
            form_names(user, front_domain).contains(n) <==> (n.len() > 0 && n == text::trimmed(
                front_domain,
            )) || n == "www.google.com"@ || n == "mail.google.com"@ || n == "drive.google.com"@
                || n == "docs.google.com"@ || n == "calendar.google.com"@,
{
    if text::cleaned(user).len() == 0 {
        let p = default_pool();
        let primary = text::trimmed(front_domain);
        text::law_distinct_keeps_members(p);
        text::law_distinct_keeps_members(seq![primary] + p);
        assert(p[0] == "www.google.com"@ && p[1] == "mail.google.com"@ && p[2]
            == "drive.google.com"@ && p[3] == "docs.google.com"@ && p[4] == "calendar.google.com"@);
        assert forall|n: Seq<char>| #[trigger]
            form_names(user, front_domain).contains(n) <==> (n.len() > 0 && n == text::trimmed(
                front_domain,
            )) || n == "www.google.com"@ || n == "mail.google.com"@ || n == "drive.google.com"@
                || n == "docs.google.com"@ || n == "calendar.google.com"@ by {
            let all = seq![primary] + p;
            assert(p.contains(n) <==> n == p[0] || n == p[1] || n == p[2] || n == p[3] || n
                == p[4]);
            assert(all[0] == primary);
            if p.contains(n) {
                let i = choose|i: int| 0 <= i < p.len() && p[i] == n;
                assert(all[i + 1] == n);
            }
            if all.contains(n) && n != primary {
                let i = choose|i: int| 0 <= i < all.len() && all[i] == n;
                assert(p[i - 1] == n);
            }
            assert(all.contains(n) <==> n == primary || p.contains(n));
        }
    }
}

/// The pool that is shown has the saved names first, enabled, and then each
/// built-in name that is not among them in any case, disabled.
pub proof fn law_shown_pool(names: Seq<Seq<char>>, k: int)
    requires
        names.len() > 0,
        0 <= k < 5,
    ensures
        forall|i: int|
            0 <= i < names.len() ==> #[trigger] pool_rows(names)[i] == (RowView {
                name: names[i],
                enabled: true,
            }),
        forall|i: int|
            names.len() <= i < pool_rows(names).len() ==> !(#[trigger] pool_rows(names)[i]).enabled,
        !has_name(names, default_pool()[k]) ==> pool_rows(names).contains(
            (RowView { name: default_pool()[k], enabled: false }),
        ),
        has_name(names, default_pool()[k]) ==> forall|i: int|
            names.len() <= i < pool_rows(names).len() ==> text::lower(
                (#[trigger] pool_rows(names)[i]).name,
            ) != text::lower(default_pool()[k]),
{
    lemma_opted_out_rows(names, 5, k);
    let off = opted_out(names, 5);
    let rows = pool_rows(names);
    assert forall|i: int| names.len() <= i < rows.len() implies #[trigger] rows[i] == off[i
        - names.len()] by {}
    if !has_name(names, default_pool()[k]) {
        let row = RowView { name: default_pool()[k], enabled: false };
        let i = choose|i: int| 0 <= i < off.len() && off[i] == row;
        assert(rows[names.len() + i] == row);
    }
}

proof fn lemma_opted_out_rows(names: Seq<Seq<char>>, n: int, k: int)
    requires
        0 <= n <= 5,
        0 <= k < 5,
    ensures
        forall|i: int| 0 <= i < opted_out(names, n).len() ==> !(#[trigger] opted_out(names, n)[i]).enabled,
        k < n && !has_name(names, default_pool()[k]) ==> opted_out(names, n).contains(
            (RowView { name: default_pool()[k], enabled: false }),
        ),
        has_name(names, default_pool()[k]) ==> forall|i: int|
            0 <= i < opted_out(names, n).len() ==> text::lower((#[trigger] opted_out(names, n)[i]).name)
                != text::lower(default_pool()[k]),
    decreases n,
{
    if n > 0 {
        lemma_opted_out_rows(names, n - 1, k);
        let before = opted_out(names, n - 1);
        let all = opted_out(names, n);
        let row = RowView { name: default_pool()[k], enabled: false };
        if k < n && !has_name(names, default_pool()[k]) {
            if k < n - 1 {
                let i = choose|i: int| 0 <= i < before.len() && before[i] == row;
                assert(all[i] == row);
            } else {
                assert(all[before.len() as int] == row);
            }
        }
        if has_name(names, default_pool()[k]) {
            let j = choose|j: int|
                0 <= j < names.len() && text::lower(#[trigger] names[j]) == text::lower(
                    default_pool()[k],
                );
            if !has_name(names, default_pool()[n - 1]) {
                assert(text::lower(names[j]) != text::lower(default_pool()[n - 1]));
            }
        }
    }
}

/// A saved pool is read back: the names that a document holds as a list of
/// texts are its pool, and a document without the list has none.
pub proof fn law_saved_pool_is_read_back(m: Map<Seq<char>, JsonView>, names: Seq<Seq<char>>)
    ensures
        document_names(
            JsonView::Object(m.insert("sni_hosts"@, json::texts_array(names))),
        ) == Ok::<Seq<Seq<char>>, Seq<char>>(names),
        !m.contains_key("sni_hosts"@) ==> document_names(JsonView::Object(m)) == Ok::<
            Seq<Seq<char>>,
            Seq<char>,
        >(Seq::empty()),
{
    let list = json::texts_array(names);
    assert(json::texts_of(list) =~= names);
}

/// A name is among others if one of them is equal to it without regard to case,
/// and a row is there if one has exactly its name.
pub proof fn law_name_lookup(
    names: Seq<Seq<char>>,
    name: Seq<char>,
    rows: Seq<RowView>,
    row: RowView,
    x: Seq<char>,
)
    ensures
        has_name(names.push(name), x) <==> has_name(names, x) || text::lower(name) == text::lower(x),
        !has_name(Seq::empty(), x),
        has_row(rows.push(row), x) <==> has_row(rows, x) || row.name == x,
        !has_row(Seq::empty(), x),
{
    let n = names.push(name);
    assert(n[names.len() as int] == name);
    if has_name(names, x) {
        let i = choose|i: int| 0 <= i < names.len() && text::lower(#[trigger] names[i])
            == text::lower(x);
        assert(n[i] == names[i]);
    }
    if has_name(n, x) {
        let i = choose|i: int| 0 <= i < n.len() && text::lower(#[trigger] n[i]) == text::lower(x);
        if i < names.len() {
            assert(names[i] == n[i]);
        }
    }
    let r = rows.push(row);
    assert(r[rows.len() as int] == row);
    if has_row(rows, x) {
        let i = choose|i: int| 0 <= i < rows.len() && (#[trigger] rows[i]).name == x;
        assert(r[i] == rows[i]);
    }
    if has_row(r, x) {
        let i = choose|i: int| 0 <= i < r.len() && (#[trigger] r[i]).name == x;
        if i < rows.len() {
            assert(rows[i] == r[i]);
        }
    }
}

} // verus!
