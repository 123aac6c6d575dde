//! Fronting groups: the editor's rows and buffers, and what is saved of them.
use vstd::prelude::*;

use crate::config;
use crate::config::FrontingGroup;
use crate::json;
use crate::naming;
use crate::numeral;
use crate::text;
use crate::wire;

verus! {

/// A fronting group over views.
pub struct GroupView {
    pub name: Seq<char>,
    pub ip: Seq<char>,
    pub sni: Seq<char>,
    pub domains: Seq<Seq<char>>,
}

impl View for FrontingGroup {
    type V = GroupView;

    open spec fn view(&self) -> GroupView {
        GroupView {
            name: self.name@,
            ip: self.ip@,
            sni: self.sni@,
            domains: text::texts(self.domains@),
        }
    }
}

/// Groups over views.
pub open spec fn views(groups: Seq<FrontingGroup>) -> Seq<GroupView> {
    groups.map_values(|g: FrontingGroup| g@)
}

/// The domains that a buffer lists: its pieces between commas and newlines,
/// trimmed, without blanks and repetitions.
pub open spec fn listed_domains(buffer: Seq<char>) -> Seq<Seq<char>> {
    text::distinct(text::cleaned(text::split(buffer, ',', '\n')))
}

/// The domains of the `i`-th group: what its own buffer lists, or where there
/// is no buffer for it, the domains it has, cleaned the same way.
pub open spec fn edited_domains(groups: Seq<GroupView>, buffers: Seq<Seq<char>>, i: int) -> Seq<
    Seq<char>,
> {
    if i < buffers.len() {
        listed_domains(buffers[i])
    } else {
        text::distinct(text::cleaned(groups[i].domains))
    }
}

/// The first `n` groups with their edited domains; a group without domains is a
/// draft and is left out.
pub open spec fn saved_groups(groups: Seq<GroupView>, buffers: Seq<Seq<char>>, n: int) -> Seq<
    GroupView,
>
    decreases n,
{
    if n <= 0 {
        Seq::empty()
    } else {
        let before = saved_groups(groups, buffers, n - 1);
        let domains = edited_domains(groups, buffers, n - 1);
        if domains.len() == 0 {
            before
        } else {
            before.push(GroupView { domains, ..groups[n - 1] })
        }
    }
}

/// A copy of a group.
pub fn copy_group(g: &FrontingGroup) -> (r: FrontingGroup)
    ensures
        r@ == g@,
{
    FrontingGroup {
        name: g.name.clone(),
        ip: g.ip.clone(),
        sni: g.sni.clone(),
        domains: config::copy_texts(&g.domains),
    }
}

/// A copy of groups.
pub fn copy_groups(groups: &Vec<FrontingGroup>) -> (r: Vec<FrontingGroup>)
    ensures
        views(r@) == views(groups@),
{
    let mut r: Vec<FrontingGroup> = Vec::new();
    let mut i: usize = 0;
    while i < groups.len()
        invariant
            i <= groups@.len(),
            r@.len() == i,
            forall|k: int| 0 <= k < i ==> (#[trigger] r@[k])@ == groups@[k]@,
        decreases groups@.len() - i,
    {
        r.push(copy_group(&groups[i]));
        i = i + 1;
    }
    proof {
        assert(views(r@) =~= views(groups@));
    }
    r
}

/// Builds the groups to save from the editor's groups and domain buffers,
/// paired by position.
pub fn build_fronting_groups_from_editor(groups: &Vec<FrontingGroup>, buffers: &Vec<String>) -> (r:
    Vec<FrontingGroup>)
    ensures
        views(r@) == saved_groups(views(groups@), text::texts(buffers@), groups@.len() as int),
{
    let ghost gv = views(groups@);
    let ghost bv = text::texts(buffers@);
    let mut r: Vec<FrontingGroup> = Vec::new();
    let mut i: usize = 0;
    while i < groups.len()
        invariant
            i <= groups@.len(),
            gv == views(groups@),
            bv == text::texts(buffers@),
            views(r@) == saved_groups(gv, bv, i as int),
        decreases groups@.len() - i,
    {
        let g = &groups[i];
        let domains = if i < buffers.len() {
            let pieces = text::split_at_either(buffers[i].as_str(), ',', '\n');
            text::dedup(&text::clean(&pieces))
        } else {
            text::dedup(&text::clean(&g.domains))
        };
        proof {
            assert(gv[i as int] == g@);
            assert(text::texts(domains@) == edited_domains(gv, bv, i as int));
            assert(text::texts(domains@).len() == domains@.len());
        }
        let ghost before = views(r@);
        if domains.len() > 0 {
            let kept = FrontingGroup {
                name: g.name.clone(),
                ip: g.ip.clone(),
                sni: g.sni.clone(),
                domains,
            };
            r.push(kept);
            proof {
                assert(views(r@) =~= before.push(kept@));
            }
        }
        i = i + 1;
    }
    r
}

/// Whether a buffer lists any domain, so that its group will be saved.
pub fn has_domains(buffer: &str) -> (r: bool)
    ensures
        r == (listed_domains(buffer@).len() > 0),
{
    let pieces = text::split_at_either(buffer, ',', '\n');
    let cleaned = text::clean(&pieces);
    proof {
        let c = text::cleaned(text::split(buffer@, ',', '\n'));
        text::law_distinct_keeps_members(c);
        if c.len() > 0 {
            assert(c.contains(c[0]));
            assert(text::distinct(c).contains(c[0]));
        } else if text::distinct(c).len() > 0 {
            assert(text::distinct(c).contains(text::distinct(c)[0]));
        }
        assert(text::texts(cleaned@).len() == cleaned@.len());
    }
    cleaned.len() > 0
}

/// The buffer in which a group's domains are first shown.
pub open spec fn initial_buffer(g: GroupView) -> Seq<char> {
    text::joined(g.domains, "\n"@)
}

/// The texts in which the editor first shows some groups.
pub open spec fn initial_texts(groups: Seq<GroupView>) -> Seq<Seq<char>> {
    groups.map_values(|g: GroupView| initial_buffer(g))
}

/// The buffers of loaded groups.
pub fn initial_buffers(groups: &Vec<FrontingGroup>) -> (r: Vec<String>)
    ensures
        text::texts(r@) == initial_texts(views(groups@)),
{
    let mut r: Vec<String> = Vec::new();
    let mut i: usize = 0;
    while i < groups.len()
        invariant
            i <= groups@.len(),
            r@.len() == i,
            forall|k: int| 0 <= k < i ==> (#[trigger] r@[k])@ == initial_buffer(groups@[k]@),
        decreases groups@.len() - i,
    {
        r.push(text::join(&groups[i].domains, "\n"));
        i = i + 1;
    }
    proof {
        assert(text::texts(r@) =~= initial_texts(views(groups@)));
    }
    r
}

/// The buffers with one for every group: missing ones are filled in, surplus
/// ones dropped.
pub open spec fn synced(groups: Seq<GroupView>, buffers: Seq<Seq<char>>) -> Seq<Seq<char>> {
    Seq::new(
        groups.len(),
        |i: int|
            if i < buffers.len() {
                buffers[i]
            } else {
                initial_buffer(groups[i])
            },
    )
}

/// Brings the buffers into step with the groups.
pub fn sync_buffers(groups: &Vec<FrontingGroup>, buffers: &mut Vec<String>)
    ensures
        text::texts(final(buffers)@) == synced(views(groups@), text::texts(old(buffers)@)),
{
    let ghost gv = views(groups@);
    let ghost bv = text::texts(buffers@);
    while buffers.len() < groups.len()
        invariant
            gv == views(groups@),
            bv.len() <= buffers@.len(),
            buffers@.len() <= groups@.len() || buffers@.len() == bv.len(),
            forall|i: int| 0 <= i < bv.len() ==> (#[trigger] buffers@[i])@ == bv[i],
            forall|i: int|
                bv.len() <= i < buffers@.len() ==> (#[trigger] buffers@[i])@ == initial_buffer(gv[i]),
        decreases groups@.len() - buffers@.len(),
    {
        let idx: usize = buffers.len();
        buffers.push(text::join(&groups[idx].domains, "\n"));
    }
    buffers.truncate(groups.len());
    proof {
        assert(text::texts(buffers@) =~= synced(gv, bv));
    }
}

/// Removes a group and its buffer.
pub fn remove_group(groups: &mut Vec<FrontingGroup>, buffers: &mut Vec<String>, idx: usize)
    requires
        idx < old(groups)@.len(),
    ensures
        final(groups)@ == old(groups)@.remove(idx as int),
        final(buffers)@ == (if idx < old(buffers)@.len() {
            old(buffers)@.remove(idx as int)
        } else {
            old(buffers)@
        }),
{
    let _group = groups.remove(idx);
    if idx < buffers.len() {
        let _buffer = buffers.remove(idx);
    }
}

/// The names of groups.
pub open spec fn names(groups: Seq<GroupView>) -> Seq<Seq<char>> {
    groups.map_values(|g: GroupView| g.name)
}

/// `name` is the name of a new group for `base`: `base` itself, or the first of
/// `base-2`, `base-3`, ... that no group has.
pub open spec fn is_new_name(groups: Seq<GroupView>, base: Seq<char>, name: Seq<char>) -> bool {
    if names(groups).contains(base) {
        exists|n: nat|
            #[trigger] naming::is_first_free(names(groups), base + "-"@, ""@, n) && name
                == naming::numbered(base + "-"@, n, ""@)
    } else {
        name == base
    }
}

fn group_names(groups: &Vec<FrontingGroup>) -> (r: Vec<String>)
    ensures
        text::texts(r@) == names(views(groups@)),
{
    let mut r: Vec<String> = Vec::new();
    let mut i: usize = 0;
    while i < groups.len()
        invariant
            i <= groups@.len(),
            r@.len() == i,
            forall|k: int| 0 <= k < i ==> (#[trigger] r@[k])@ == groups@[k].name@,
        decreases groups@.len() - i,
    {
        r.push(groups[i].name.clone());
        i = i + 1;
    }
    proof {
        assert(text::texts(r@) =~= names(views(groups@)));
    }
    r
}

/// Adds a group for a discovered address, named after its host, with an empty
/// domain buffer.
pub fn add_discovered_group(
    groups: &mut Vec<FrontingGroup>,
    buffers: &mut Vec<String>,
    hostname: &str,
    ip: &str,
)
    requires
        old(groups)@.len() + 3 <= usize::MAX,
    ensures
        final(groups)@.len() == old(groups)@.len() + 1,
        views(final(groups)@).drop_last() == views(old(groups)@),
        is_new_name(views(old(groups)@), hostname@, final(groups)@.last().name@),
        final(groups)@.last().ip@ == ip@,
        final(groups)@.last().sni@ == hostname@,
        final(groups)@.last().domains@.len() == 0,
        text::texts(final(buffers)@) == text::texts(old(buffers)@).push(""@),
{
    let taken = group_names(groups);
    proof {
        assert(text::texts(taken@).len() == taken@.len());
    }
    let name = if text::contains_text(&taken, hostname) {
        let prefix = hostname.to_owned().concat("-");
        naming::first_free(&taken, prefix.as_str(), "")
    } else {
        hostname.to_owned()
    };
    let ghost before = groups@;
    groups.push(
        FrontingGroup { name, ip: ip.to_owned(), sni: hostname.to_owned(), domains: Vec::new() },
    );
    let ghost old_buffers = buffers@;
    buffers.push(String::new());
    proof {
        reveal_strlit("");
        assert(views(groups@).drop_last() =~= views(before));
        assert(Seq::<char>::empty() =~= ""@);
        assert(text::texts(buffers@) =~= text::texts(old_buffers).push(""@));
    }
}

/// The name of a discovered group is new: it tells the group apart from every
/// group that was there.
pub proof fn law_new_name_is_new(groups: Seq<GroupView>, base: Seq<char>, name: Seq<char>)
    requires
        is_new_name(groups, base, name),
    ensures
        !names(groups).contains(name),
{
}

/// A group with its texts trimmed and its blank domains left out.
pub open spec fn trimmed_group(g: GroupView) -> GroupView {
    GroupView {
        name: text::trimmed(g.name),
        ip: text::trimmed(g.ip),
        sni: text::trimmed(g.sni),
        domains: text::cleaned(g.domains),
    }
}

/// Nothing is filled in.
pub open spec fn is_blank(g: GroupView) -> bool {
    g.name.len() == 0 && g.ip.len() == 0 && g.sni.len() == 0 && g.domains.len() == 0
}

/// Submitted groups, trimmed, with those left out in which nothing is filled
/// in.
pub open spec fn cleaned_groups(groups: Seq<GroupView>) -> Seq<GroupView>
    decreases groups.len(),
{
    if groups.len() == 0 {
        Seq::empty()
    } else {
        let before = cleaned_groups(groups.drop_last());
        let g = trimmed_group(groups.last());
        if is_blank(g) {
            before
        } else {
            before.push(g)
        }
    }
}

/// What is missing in the group at position `i`.
pub open spec fn group_complaint(g: GroupView, i: int) -> Option<Seq<char>> {
    if g.name.len() == 0 {
        Some("Group #"@ + numeral::decimal((i + 1) as nat) + ": name is required"@)
    } else if g.ip.len() == 0 {
        Some("Group '"@ + g.name + "': IP is required"@)
    } else if g.sni.len() == 0 {
        Some("Group '"@ + g.name + "': SNI is required"@)
    } else if g.domains.len() == 0 {
        Some("Group '"@ + g.name + "': at least one domain is required"@)
    } else {
        None
    }
}

/// The complaint about the first group, from position `from` on, in which
/// something is missing.
pub open spec fn first_complaint(groups: Seq<GroupView>, from: int) -> Option<Seq<char>>
    decreases groups.len() - from,
{
    if from < 0 || from >= groups.len() {
        None
    } else if group_complaint(groups[from], from) is Some {
        group_complaint(groups[from], from)
    } else {
        first_complaint(groups, from + 1)
    }
}

fn clean_groups(groups: &Vec<FrontingGroup>) -> (r: Vec<FrontingGroup>)
    ensures
        views(r@) == cleaned_groups(views(groups@)),
{
    let ghost gv = views(groups@);
    let mut r: Vec<FrontingGroup> = Vec::new();
    let mut i: usize = 0;
    while i < groups.len()
        invariant
            i <= groups@.len(),
            gv == views(groups@),
            views(r@) == cleaned_groups(gv.take(i as int)),
        decreases groups@.len() - i,
    {
        let g = FrontingGroup {
            name: text::trim(groups[i].name.as_str()),
            ip: text::trim(groups[i].ip.as_str()),
            sni: text::trim(groups[i].sni.as_str()),
            domains: text::clean(&groups[i].domains),
        };
        let ghost before = views(r@);
        proof {
            assert(gv.take(i + 1).drop_last() =~= gv.take(i as int));
            assert(g@ == trimmed_group(gv[i as int]));
            assert(g@.domains.len() == g.domains@.len());
        }
        if !g.name.as_str().is_empty() || !g.ip.as_str().is_empty() || !g.sni.as_str().is_empty()
            || g.domains.len() > 0 {
            r.push(g);
            proof {
                assert(views(r@) =~= before.push(g@));
            }
        }
        i = i + 1;
    }
    proof {
        assert(gv.take(i as int) =~= gv);
    }
    r
}

fn complain(g: &FrontingGroup, i: usize) -> (r: Option<String>)
    requires
        i < usize::MAX,
    ensures
        match r {
            Some(s) => group_complaint(g@, i as int) == Some(s@),
            None => group_complaint(g@, i as int) is None,
        },
{
    proof {
        assert(g@.domains.len() == g.domains@.len());
    }
    if g.name.as_str().is_empty() {
        return Some(
            "Group #".to_owned().concat(numeral::to_decimal((i + 1) as u64).as_str()).concat(
                ": name is required",
            ),
        );
    }
    let quoted = "Group '".to_owned().concat(g.name.as_str());
    if g.ip.as_str().is_empty() {
        Some(quoted.concat("': IP is required"))
    } else if g.sni.as_str().is_empty() {
        Some(quoted.concat("': SNI is required"))
    } else if g.domains.len() == 0 {
        Some(quoted.concat("': at least one domain is required"))
    } else {
        None
    }
}

/// Cleans submitted groups and checks that each is complete.
pub fn check_groups(groups: &Vec<FrontingGroup>) -> (r: Result<Vec<FrontingGroup>, String>)
    ensures
        match r {
            Ok(cleaned) => {
                &&& first_complaint(cleaned_groups(views(groups@)), 0) is None
                &&& views(cleaned@) == cleaned_groups(views(groups@))
            },
            Err(e) => first_complaint(cleaned_groups(views(groups@)), 0) == Some(e@),
        },
{
    let cleaned = clean_groups(groups);
    let ghost cv = views(cleaned@);
    let mut i: usize = 0;
    while i < cleaned.len()
        invariant
            i <= cleaned@.len(),
            cv == views(cleaned@),
            cv == cleaned_groups(views(groups@)),
            first_complaint(cv, 0) == first_complaint(cv, i as int),
        decreases cleaned@.len() - i,
    {
        proof {
            assert(cv[i as int] == cleaned@[i as int]@);
        }
        if let Some(e) = complain(&cleaned[i], i) {
            return Err(e);
        }
        i = i + 1;
    }
    Ok(cleaned)
}

/// Puts checked groups into a document, leaving its other members as they are.
pub fn put_groups(
    document: &mut serde_json::Map<String, serde_json::Value>,
    groups: &Vec<FrontingGroup>,
)
    ensures
        json::members(*final(document)) == json::members(*old(document)).insert(
            "fronting_groups"@,
            wire::groups_view(groups@),
        ),
{
    json::insert_member(document, "fronting_groups", wire::groups_value(groups));
}

/// Every group that the editor saves has a domain, and its domains are trimmed,
/// not blank and all different; names, addresses and SNIs are as entered.
pub proof fn law_saved_groups_are_complete(groups: Seq<GroupView>, buffers: Seq<Seq<char>>, n: int)
    requires
        n <= groups.len(),
    ensures
        forall|i: int|
            0 <= i < saved_groups(groups, buffers, n).len() ==> {
                let g = #[trigger] saved_groups(groups, buffers, n)[i];
                &&& g.domains.len() > 0
                &&& g.domains.no_duplicates()
                &&& forall|d: Seq<char>|
                    #[trigger] g.domains.contains(d) ==> d.len() > 0 && text::trimmed(d) == d
                &&& exists|k: int|
                    0 <= k < n && #[trigger] edited_domains(groups, buffers, k) == g.domains
                        && groups[k].name == g.name && groups[k].ip == g.ip && groups[k].sni == g.sni
            },
    decreases n,
{
    if n > 0 {
        law_saved_groups_are_complete(groups, buffers, n - 1);
        let before = saved_groups(groups, buffers, n - 1);
        let after = saved_groups(groups, buffers, n);
        let raw = if n - 1 < buffers.len() {
            text::split(buffers[n - 1], ',', '\n')
        } else {
            groups[n - 1].domains
        };
        let domains = edited_domains(groups, buffers, n - 1);
        text::law_cleaned_is_clean(raw);
        text::law_distinct_keeps_members(text::cleaned(raw));
        assert forall|d: Seq<char>| #[trigger] domains.contains(d) implies d.len() > 0
            && text::trimmed(d) == d by {
            assert(text::cleaned(raw).contains(d));
            let k = choose|k: int| 0 <= k < text::cleaned(raw).len() && text::cleaned(raw)[k] == d;
            assert(text::cleaned(raw)[k].len() > 0);
        }
        assert forall|i: int| 0 <= i < after.len() implies {
            let g = #[trigger] after[i];
            &&& g.domains.len() > 0
            &&& g.domains.no_duplicates()
            &&& forall|d: Seq<char>|
                #[trigger] g.domains.contains(d) ==> d.len() > 0 && text::trimmed(d) == d
            &&& exists|k: int|
                0 <= k < n && #[trigger] edited_domains(groups, buffers, k) == g.domains
                    && groups[k].name == g.name && groups[k].ip == g.ip && groups[k].sni == g.sni
        } by {
            if i < before.len() {
                let g = before[i];
                assert(after[i] == g);
                let k = choose|k: int|
                    0 <= k < n - 1 && #[trigger] edited_domains(groups, buffers, k) == g.domains
                        && groups[k].name == g.name && groups[k].ip == g.ip && groups[k].sni
                        == g.sni;
                assert(edited_domains(groups, buffers, k) == after[i].domains);
            } else {
                assert(edited_domains(groups, buffers, n - 1) == after[i].domains);
            }
        }
    }
}

proof fn lemma_split_nonempty(s: Seq<char>, a: char, b: char)
    ensures
        text::split(s, a, b).len() > 0,
    decreases s.len(),
{
    if s.len() > 0 {
        lemma_split_nonempty(s.drop_last(), a, b);
    }
}

proof fn lemma_split_append(s: Seq<char>, t: Seq<char>, a: char, b: char)
    requires
        forall|i: int| 0 <= i < t.len() ==> #[trigger] t[i] != a && t[i] != b,
    ensures
        text::split(s + t, a, b) == text::split(s, a, b).drop_last().push(
            text::split(s, a, b).last() + t,
        ),
    decreases t.len(),
{
    let sp = text::split(s, a, b);
    lemma_split_nonempty(s, a, b);
    if t.len() == 0 {
        assert(s + t =~= s);
        assert(sp.last() + t =~= sp.last());
        assert(sp.drop_last().push(sp.last()) =~= sp);
    } else {
        let u = t.drop_last();
        assert forall|i: int| 0 <= i < u.len() implies #[trigger] u[i] != a && u[i] != b by {
            assert(t[i] != a && t[i] != b);
        }
        lemma_split_append(s, u, a, b);
        assert((s + t).drop_last() =~= s + u);
        assert((s + t).last() == t[t.len() - 1]);
        let inner = sp.drop_last().push(sp.last() + u);
        assert(inner.drop_last() =~= sp.drop_last());
        assert((sp.last() + u).push(t.last()) =~= sp.last() + t);
    }
}

/// Texts without commas and newlines, written on lines of their own, are read
/// back as the pieces between the newlines.
pub proof fn lemma_split_joined(parts: Seq<Seq<char>>)
    requires
        parts.len() > 0,
        forall|i: int, j: int|
            0 <= i < parts.len() && 0 <= j < parts[i].len() ==> #[trigger] parts[i][j] != ','
                && parts[i][j] != '\n',
    ensures
        text::split(text::joined(parts, "\n"@), ',', '\n') == parts,
    decreases parts.len(),
{
    reveal_strlit("\n");
    let nl = "\n"@;
    assert(nl =~= seq!['\n']);
    let last = parts.last();
    assert forall|j: int| 0 <= j < last.len() implies #[trigger] last[j] != ',' && last[j] != '\n' by {
        assert(parts[parts.len() - 1][j] != ',');
    }
    if parts.len() == 1 {
        let e = Seq::<char>::empty();
        lemma_split_append(e, last, ',', '\n');
        assert(e + last =~= parts[0]);
        assert(text::split(e, ',', '\n') =~= seq![e]);
        assert(seq![e].drop_last().push(seq![e].last() + last) =~= parts);
    } else {
        let before = parts.drop_last();
        assert forall|i: int, j: int| 0 <= i < before.len() && 0 <= j < before[i].len() implies
            #[trigger] before[i][j] != ',' && before[i][j] != '\n' by {
            assert(parts[i][j] != ',');
        }
        lemma_split_joined(before);
        let head = text::joined(before, nl) + nl;
        assert(head.drop_last() =~= text::joined(before, nl));
        assert(head.last() == '\n');
        let sp = text::split(head, ',', '\n');
        assert(sp == before.push(Seq::<char>::empty()));
        lemma_split_append(head, last, ',', '\n');
        assert(sp.drop_last() =~= before);
        assert(Seq::<char>::empty() + last =~= last);
        assert(before.push(last) =~= parts);
        assert(text::joined(parts, nl) == head + last);
    }
}

/// The texts are in the form in which they are saved: trimmed, not blank,
/// without commas and newlines, and all different.
pub open spec fn is_saved_form(domains: Seq<Seq<char>>) -> bool {
    &&& domains.no_duplicates()
    &&& forall|i: int|
        0 <= i < domains.len() ==> (#[trigger] domains[i]).len() > 0 && text::trimmed(domains[i])
            == domains[i]
    &&& forall|i: int, j: int|
        0 <= i < domains.len() && 0 <= j < domains[i].len() ==> #[trigger] domains[i][j] != ','
            && domains[i][j] != '\n'
}

/// Texts in saved form need no cleaning.
pub proof fn lemma_saved_form_stable(domains: Seq<Seq<char>>)
    requires
        is_saved_form(domains),
    ensures
        text::cleaned(domains) == domains,
        text::distinct(domains) == domains,
    decreases domains.len(),
{
    if domains.len() > 0 {
        let before = domains.drop_last();
        assert(is_saved_form(before)) by {
            assert forall|i: int| 0 <= i < before.len() implies (#[trigger] before[i]).len() > 0
                && text::trimmed(before[i]) == before[i] by {
                assert(domains[i].len() > 0);
            }
            assert forall|i: int, j: int| 0 <= i < before.len() && 0 <= j < before[i].len() implies
                #[trigger] before[i][j] != ',' && before[i][j] != '\n' by {
                assert(domains[i][j] != ',');
            }
            assert forall|i: int, j: int| 0 <= i < before.len() && 0 <= j < before.len() && i
                != j implies before[i] != before[j] by {
                assert(domains[i] != domains[j]);
            }
        }
        lemma_saved_form_stable(before);
        assert(domains[domains.len() - 1].len() > 0);
        assert(before.push(domains.last()) =~= domains);
        if before.contains(domains.last()) {
            let i = choose|i: int| 0 <= i < before.len() && before[i] == domains.last();
            assert(domains[i] == domains[domains.len() - 1]);
        }
    } else {
        assert(text::cleaned(domains) =~= domains);
        assert(text::distinct(domains) =~= domains);
    }
}

/// A loaded group whose domains nobody edited is saved with the same domains.
pub proof fn law_untouched_group_keeps_domains(g: GroupView)
    requires
        is_saved_form(g.domains),
    ensures
        listed_domains(initial_buffer(g)) == g.domains,
{
    lemma_saved_form_stable(g.domains);
    if g.domains.len() > 0 {
        lemma_split_joined(g.domains);
    } else {
        let e = Seq::<char>::empty();
        assert(text::split(e, ',', '\n') =~= seq![e]);
        assert(text::cleaned(seq![e]) =~= Seq::empty()) by {
            reveal_with_fuel(text::cleaned, 2);
            assert(seq![e].drop_last() =~= Seq::empty());
        }
        assert(text::distinct(Seq::empty()) =~= g.domains);
    }
}

/// Groups without a complaint are complete: each has a name, an address, an SNI
/// and a domain.
pub proof fn law_accepted_groups_are_complete(groups: Seq<GroupView>, from: int)
    requires
        0 <= from <= groups.len(),
        first_complaint(groups, from) is None,
    ensures
        forall|i: int|
            from <= i < groups.len() ==> (#[trigger] groups[i]).name.len() > 0 && groups[i].ip.len()
                > 0 && groups[i].sni.len() > 0 && groups[i].domains.len() > 0,
    decreases groups.len() - from,
{
    if from < groups.len() {
        law_accepted_groups_are_complete(groups, from + 1);
    }
}

/// A typed list of domains is cut at commas and line breaks; each domain is
/// kept once, without the blanks around it, in the order of its first mention.
pub proof fn law_typed_domains(s: Seq<char>, c: char, t: Seq<char>, d: Seq<char>)
    requires
        c == ',' || c == '\n',
    ensures
        listed_domains(s + seq![c] + t).contains(d) <==> listed_domains(s).contains(d)
            || listed_domains(t).contains(d),
        listed_domains(s + seq![c] + t).no_duplicates(),
        listed_domains(s + seq![c] + t).take(listed_domains(s).len() as int) == listed_domains(s),
{
    text::law_split_at_separator(s, c, t, ',', '\n');
    let a = text::split(s, ',', '\n');
    let b = text::split(t, ',', '\n');
    text::law_cleaned_piece_by_piece(a, b, d);
    let ca = text::cleaned(a);
    let cb = text::cleaned(b);
    text::law_distinct_keeps_members(ca);
    text::law_distinct_keeps_members(cb);
    text::law_distinct_keeps_members(ca + cb);
    text::law_distinct_keeps_order(ca, cb);
    if ca.contains(d) {
        let i = choose|i: int| 0 <= i < ca.len() && ca[i] == d;
        assert((ca + cb)[i] == d);
    }
    if cb.contains(d) {
        let i = choose|i: int| 0 <= i < cb.len() && cb[i] == d;
        assert((ca + cb)[ca.len() + i] == d);
    }
    if (ca + cb).contains(d) {
        let i = choose|i: int| 0 <= i < (ca + cb).len() && (ca + cb)[i] == d;
        if i < ca.len() {
            assert(ca[i] == d);
        } else {
            assert(cb[i - ca.len()] == d);
        }
    }
}

/// A typed domain without a separator in it is one domain, blank ones are none.
pub proof fn law_one_typed_domain(s: Seq<char>)
    requires
        forall|i: int| 0 <= i < s.len() ==> #[trigger] s[i] != ',' && s[i] != '\n',
    ensures
        text::trimmed(s).len() > 0 ==> listed_domains(s) == seq![text::trimmed(s)],
        text::trimmed(s).len() == 0 ==> listed_domains(s).len() == 0,
{
    text::law_split_of_one_piece(s, ',', '\n');
    text::law_cleaned_piece_by_piece(Seq::empty(), Seq::empty(), s);
    reveal_with_fuel(text::distinct, 2);
    if text::trimmed(s).len() > 0 {
        let one = seq![text::trimmed(s)];
        assert(one.drop_last() =~= Seq::empty());
        assert(!Seq::<Seq<char>>::empty().contains(text::trimmed(s)));
        assert(text::distinct(one) =~= one);
    }
}

/// Every group that has domains is saved, with its own name, address and SNI
/// and with the domains that its text lists; a group without domains is not.
pub proof fn law_groups_with_domains_are_saved(
    groups: Seq<GroupView>,
    buffers: Seq<Seq<char>>,
    n: int,
    k: int,
)
    requires
        0 <= k < n <= groups.len(),
        buffers.len() == groups.len(),
    ensures
        listed_domains(buffers[k]).len() > 0 ==> saved_groups(groups, buffers, n).contains(
            (GroupView {
                name: groups[k].name,
                ip: groups[k].ip,
                sni: groups[k].sni,
                domains: listed_domains(buffers[k]),
            }),
        ),
        saved_groups(groups, buffers, n).len() == saved_groups(groups, buffers, n - 1).len() + (
        if listed_domains(buffers[n - 1]).len() > 0 {
            1int
        } else {
            0int
        }),
        saved_groups(groups, buffers, n).take(saved_groups(groups, buffers, n - 1).len() as int)
            == saved_groups(groups, buffers, n - 1),
    decreases n,
{
    let before = saved_groups(groups, buffers, n - 1);
    let all = saved_groups(groups, buffers, n);
    assert(all.take(before.len() as int) =~= before);
    let g = GroupView {
        name: groups[k].name,
        ip: groups[k].ip,
        sni: groups[k].sni,
        domains: listed_domains(buffers[k]),
    };
    if listed_domains(buffers[k]).len() > 0 {
        if k < n - 1 {
            law_groups_with_domains_are_saved(groups, buffers, n - 1, k);
            let i = choose|i: int| 0 <= i < before.len() && before[i] == g;
            assert(all[i] == g);
        } else {
            assert(all[before.len() as int] == g);
        }
    }
}

/// The texts of the editor follow the groups: one for each, what was typed
/// stays, and a group that has none yet gets its domains, one to a line.
pub proof fn law_texts_follow_groups(groups: Seq<GroupView>, buffers: Seq<Seq<char>>, i: int)
    requires
        0 <= i < groups.len(),
    ensures
        synced(groups, buffers).len() == groups.len(),
        i < buffers.len() ==> synced(groups, buffers)[i] == buffers[i],
        i >= buffers.len() ==> synced(groups, buffers)[i] == text::joined(groups[i].domains, "\n"@),
        synced(groups, synced(groups, buffers)) == synced(groups, buffers),
{
    assert(synced(groups, synced(groups, buffers)) =~= synced(groups, buffers));
}

/// Groups are cleaned one by one: every text is trimmed, blank domains go, and
/// a group with nothing in it goes.
pub proof fn law_cleaned_group_by_group(a: Seq<GroupView>, b: Seq<GroupView>, g: GroupView)
    ensures
        cleaned_groups(a + b) == cleaned_groups(a) + cleaned_groups(b),
        ({
            let nothing = text::trimmed(g.name).len() == 0 && text::trimmed(g.ip).len() == 0
                && text::trimmed(g.sni).len() == 0 && text::cleaned(g.domains).len() == 0;
            &&& nothing ==> cleaned_groups(seq![g]).len() == 0
            &&& !nothing ==> cleaned_groups(seq![g]) == seq![
                GroupView {
                    name: text::trimmed(g.name),
                    ip: text::trimmed(g.ip),
                    sni: text::trimmed(g.sni),
                    domains: text::cleaned(g.domains),
                },
            ]
        }),
    decreases b.len(),
{
    reveal_with_fuel(cleaned_groups, 2);
    assert(seq![g].drop_last() =~= Seq::empty());
    if !is_blank(trimmed_group(g)) {
        assert(cleaned_groups(seq![g]) =~= seq![trimmed_group(g)]);
    }
    if b.len() > 0 {
        law_cleaned_group_by_group(a, b.drop_last(), g);
        assert((a + b).drop_last() =~= a + b.drop_last());
        assert((a + b).last() == b.last());
        assert(cleaned_groups(a + b) =~= cleaned_groups(a) + cleaned_groups(b));
    } else {
        assert(a + b =~= a);
        assert(cleaned_groups(a + b) =~= cleaned_groups(a) + cleaned_groups(b));
    }
}

/// A group is complained about if and only if a name, an address, an SNI or
/// domains are missing, and the first of these that is missing is named.
pub proof fn law_incomplete_group_is_named(g: GroupView, i: nat)
    ensures
        group_complaint(g, i as int) is None <==> g.name.len() > 0 && g.ip.len() > 0 && g.sni.len()
            > 0 && g.domains.len() > 0,
        g.name.len() == 0 ==> group_complaint(g, i as int) == Some(
            "Group #"@ + numeral::decimal(i + 1) + ": name is required"@,
        ),
        g.name.len() > 0 && g.ip.len() == 0 ==> group_complaint(g, i as int) == Some(
            "Group '"@ + g.name + "': IP is required"@,
        ),
        g.name.len() > 0 && g.ip.len() > 0 && g.sni.len() == 0 ==> group_complaint(g, i as int)
            == Some("Group '"@ + g.name + "': SNI is required"@),
        g.name.len() > 0 && g.ip.len() > 0 && g.sni.len() > 0 && g.domains.len() == 0
            ==> group_complaint(g, i as int) == Some(
            "Group '"@ + g.name + "': at least one domain is required"@,
        ),
{
}

/// Of several groups the first that is incomplete is complained about.
pub proof fn law_first_incomplete_group(groups: Seq<GroupView>, from: int, k: int)
    requires
        0 <= from <= k < groups.len(),
        group_complaint(groups[k], k) is Some,
        forall|i: int| from <= i < k ==> group_complaint(#[trigger] groups[i], i) is None,
    ensures
        first_complaint(groups, from) == group_complaint(groups[k], k),
    decreases k - from,
{
    if from < k {
        assert(group_complaint(groups[from], from) is None);
        law_first_incomplete_group(groups, from + 1, k);
    }
}

} // verus!
