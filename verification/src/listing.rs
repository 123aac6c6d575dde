//! Folder listings: which files are frames, and in which order each session's
//! frames are taken.
use vstd::prelude::*;

use crate::filename;
use crate::filename::{DriveFilename, FilenameKind};
use crate::frame::SessionId;

verus! {

/// A file of the shared folder.
#[derive(Debug)]
pub struct DriveFile {
    pub id: String,
    pub name: String,
    pub size: Option<u64>,
}

/// A file with the parts of its name.
#[derive(Debug)]
pub struct ListedFile {
    pub file: DriveFile,
    pub name: DriveFilename,
}

/// Which sessions' files count.
pub enum Sessions {
    All,
    Only(Vec<SessionId>),
}

impl View for Sessions {
    type V = Set<SessionId>;

    open spec fn view(&self) -> Set<SessionId> {
        match self {
            Sessions::All => Set::full(),
            Sessions::Only(sids) => sids@.to_set(),
        }
    }
}

/// The file is of the given kind and belongs to one of the sessions.
pub open spec fn is_selected(f: DriveFile, kind: FilenameKind, sessions: Set<SessionId>) -> bool {
    match filename::parsed_name(f.name@) {
        Some(n) => n.kind == kind && sessions.contains(n.sid),
        None => false,
    }
}

/// The files of a kind that belong to one of the sessions, in listing order,
/// with their names' parts.
pub open spec fn selected(files: Seq<DriveFile>, kind: FilenameKind, sessions: Set<SessionId>) -> Seq<
    ListedFile,
>
    decreases files.len(),
{
    if files.len() == 0 {
        Seq::empty()
    } else {
        let before = selected(files.drop_last(), kind, sessions);
        if is_selected(files.last(), kind, sessions) {
            before.push(
                ListedFile {
                    file: files.last(),
                    name: filename::parsed_name(files.last().name@)->0,
                },
            )
        } else {
            before
        }
    }
}

/// `g` with `x` after all files whose sequence number is not greater.
pub open spec fn insert_by_seq(g: Seq<ListedFile>, x: ListedFile) -> Seq<ListedFile>
    decreases g.len(),
{
    if g.len() == 0 || g.last().name.seq <= x.name.seq {
        g.push(x)
    } else {
        insert_by_seq(g.drop_last(), x).push(g.last())
    }
}

/// The files of one session by sequence number; equal numbers stay in listing
/// order.
pub open spec fn session_files(listed: Seq<ListedFile>, sid: SessionId) -> Seq<ListedFile>
    decreases listed.len(),
{
    if listed.len() == 0 {
        Seq::empty()
    } else {
        let before = session_files(listed.drop_last(), sid);
        if listed.last().name.sid == sid {
            insert_by_seq(before, listed.last())
        } else {
            before
        }
    }
}

/// The groups are the files session by session: each group is all files of
/// one session, and every listed file's session has exactly one group.
pub open spec fn is_grouping(groups: Seq<Seq<ListedFile>>, listed: Seq<ListedFile>) -> bool {
    &&& forall|i: int|
        0 <= i < groups.len() ==> (#[trigger] groups[i]).len() > 0 && groups[i] == session_files(
            listed,
            groups[i][0].name.sid,
        )
    &&& forall|i: int, j: int|
        0 <= i < j < groups.len() ==> (#[trigger] groups[i])[0].name.sid != (
        #[trigger] groups[j])[0].name.sid
    &&& forall|k: int|
        0 <= k < listed.len() ==> exists|i: int|
            0 <= i < groups.len() && (#[trigger] groups[i])[0].name.sid == (
            #[trigger] listed[k]).name.sid
}

/// The views of the groups.
pub open spec fn views(groups: Seq<Vec<ListedFile>>) -> Seq<Seq<ListedFile>> {
    groups.map_values(|g: Vec<ListedFile>| g@)
}

/// Tests two session identifiers for equality.
pub fn same_sid(a: &SessionId, b: &SessionId) -> (r: bool)
    ensures
        r == (*a == *b),
{
    let mut i: usize = 0;
    while i < 16
        invariant
            i <= 16,
            forall|j: int| 0 <= j < i ==> a@[j] == b@[j],
        decreases 16 - i,
    {
        if a[i] != b[i] {
            return false;
        }
        i = i + 1;
    }
    proof {
        assert(*a =~= *b);
    }
    true
}

fn has_sid(sids: &Vec<SessionId>, sid: &SessionId) -> (r: bool)
    ensures
        r == sids@.contains(*sid),
{
    let mut i: usize = 0;
    while i < sids.len()
        invariant
            i <= sids@.len(),
            forall|j: int| 0 <= j < i ==> sids@[j] != *sid,
        decreases sids@.len() - i,
    {
        if same_sid(&sids[i], sid) {
            return true;
        }
        i = i + 1;
    }
    false
}

fn copy_file(f: &DriveFile) -> (r: DriveFile)
    ensures
        r == *f,
{
    DriveFile { id: f.id.clone(), name: f.name.clone(), size: f.size }
}

/// Picks the files of a kind that count, in listing order.
pub fn select(files: &Vec<DriveFile>, kind: FilenameKind, sessions: &Sessions) -> (r: Vec<ListedFile>)
    ensures
        r@ == selected(files@, kind, sessions@),
{
    let mut r: Vec<ListedFile> = Vec::new();
    let mut i: usize = 0;
    while i < files.len()
        invariant
            i <= files@.len(),
            r@ == selected(files@.take(i as int), kind, sessions@),
        decreases files@.len() - i,
    {
        proof {
            assert(files@.take(i + 1).drop_last() =~= files@.take(i as int));
        }
        if let Some(name) = filename::parse_filename(files[i].name.as_str()) {
            let counts = match sessions {
                Sessions::All => true,
                Sessions::Only(sids) => has_sid(sids, &name.sid),
            };
            if name.kind == kind && counts {
                r.push(ListedFile { file: copy_file(&files[i]), name });
            }
        }
        i = i + 1;
    }
    proof {
        assert(files@.take(i as int) =~= files@);
    }
    r
}

proof fn lemma_insert_by_seq(g: Seq<ListedFile>, x: ListedFile, k: int)
    requires
        0 <= k <= g.len(),
        forall|i: int| k <= i < g.len() ==> (#[trigger] g[i]).name.seq > x.name.seq,
        k == 0 || g[k - 1].name.seq <= x.name.seq,
    ensures
        insert_by_seq(g, x) == g.insert(k, x),
    decreases g.len(),
{
    if k < g.len() {
        assert(g[g.len() - 1].name.seq > x.name.seq);
        lemma_insert_by_seq(g.drop_last(), x, k);
        assert(g.drop_last().insert(k, x).push(g.last()) =~= g.insert(k, x));
    } else {
        assert(g.push(x) =~= g.insert(k, x));
    }
}

fn insert_sorted(g: &mut Vec<ListedFile>, x: ListedFile)
    ensures
        final(g)@ == insert_by_seq(old(g)@, x),
{
    let mut k: usize = g.len();
    while 0 < k && g[k - 1].name.seq > x.name.seq
        invariant
            k <= g@.len(),
            forall|i: int| k <= i < g@.len() ==> (#[trigger] g@[i]).name.seq > x.name.seq,
        ensures
            k <= g@.len(),
            forall|i: int| k <= i < g@.len() ==> (#[trigger] g@[i]).name.seq > x.name.seq,
            k == 0 || g@[k - 1].name.seq <= x.name.seq,
        decreases k,
    {
        k = k - 1;
    }
    proof {
        lemma_insert_by_seq(g@, x, k as int);
    }
    g.insert(k, x);
}

proof fn lemma_insert_by_seq_members(g: Seq<ListedFile>, x: ListedFile)
    ensures
        insert_by_seq(g, x).len() == g.len() + 1,
        insert_by_seq(g, x).to_multiset() == g.to_multiset().insert(x),
    decreases g.len(),
{
    if g.len() == 0 || g.last().name.seq <= x.name.seq {
        g.to_multiset_ensures();
    } else {
        lemma_insert_by_seq_members(g.drop_last(), x);
        let inner = insert_by_seq(g.drop_last(), x);
        inner.to_multiset_ensures();
        g.drop_last().to_multiset_ensures();
        assert(g.drop_last().push(g.last()) =~= g);
        assert(inner.push(g.last()).to_multiset() =~= g.to_multiset().insert(x));
    }
}

/// The files of the session.
pub open spec fn of_session(sid: SessionId) -> spec_fn(ListedFile) -> bool {
    |f: ListedFile| f.name.sid == sid
}

/// The files of one session are exactly the listed files of that session.
pub proof fn law_session_files_complete(listed: Seq<ListedFile>, sid: SessionId)
    ensures
        session_files(listed, sid).to_multiset() == listed.filter(of_session(sid)).to_multiset(),
    decreases listed.len(),
{
    let p = of_session(sid);
    reveal(Seq::filter);
    if listed.len() > 0 {
        law_session_files_complete(listed.drop_last(), sid);
        let before = session_files(listed.drop_last(), sid);
        lemma_insert_by_seq_members(before, listed.last());
        listed.drop_last().filter(p).to_multiset_ensures();
    } else {
        assert(session_files(listed, sid) =~= listed.filter(p));
    }
}

/// The files of one session are taken in ascending order of their sequence
/// numbers, whatever the order of the listing.
pub proof fn law_session_files_ascending(listed: Seq<ListedFile>, sid: SessionId)
    ensures
        forall|i: int, j: int|
            0 <= i <= j < session_files(listed, sid).len() ==> (#[trigger] session_files(
                listed,
                sid,
            )[i]).name.seq <= (#[trigger] session_files(listed, sid)[j]).name.seq,
        forall|i: int|
            0 <= i < session_files(listed, sid).len() ==> (#[trigger] session_files(
                listed,
                sid,
            )[i]).name.sid == sid,
    decreases listed.len(),
{
    if listed.len() > 0 {
        law_session_files_ascending(listed.drop_last(), sid);
        let before = session_files(listed.drop_last(), sid);
        if listed.last().name.sid == sid {
            lemma_insert_keeps_order(before, listed.last());
        }
    }
}

proof fn lemma_insert_keeps_order(g: Seq<ListedFile>, x: ListedFile)
    requires
        forall|i: int, j: int|
            0 <= i <= j < g.len() ==> (#[trigger] g[i]).name.seq <= (#[trigger] g[j]).name.seq,
        forall|i: int| 0 <= i < g.len() ==> (#[trigger] g[i]).name.sid == x.name.sid,
    ensures
        ({
            let r = insert_by_seq(g, x);
            &&& r.len() == g.len() + 1
            &&& forall|i: int, j: int|
                0 <= i <= j < r.len() ==> (#[trigger] r[i]).name.seq <= (#[trigger] r[j]).name.seq
            &&& forall|i: int| 0 <= i < r.len() ==> (#[trigger] r[i]).name.sid == x.name.sid
            &&& forall|i: int|
                0 <= i < r.len() ==> (#[trigger] r[i]).name.seq <= x.name.seq || exists|k: int|
                    0 <= k < g.len() && (#[trigger] g[k]).name.seq == r[i].name.seq
        }),
    decreases g.len(),
{
    let r = insert_by_seq(g, x);
    if g.len() == 0 || g.last().name.seq <= x.name.seq {
        assert forall|i: int, j: int| 0 <= i <= j < r.len() implies (#[trigger] r[i]).name.seq <= (
        #[trigger] r[j]).name.seq by {
            if j == g.len() && i < g.len() {
                assert(g[i].name.seq <= g[g.len() - 1].name.seq);
            }
        }
        assert forall|i: int| 0 <= i < r.len() implies (#[trigger] r[i]).name.seq <= x.name.seq
            || exists|k: int| 0 <= k < g.len() && (#[trigger] g[k]).name.seq == r[i].name.seq by {
            if i < g.len() {
                assert(g[i].name.seq == r[i].name.seq);
            }
        }
    } else {
        let h = g.drop_last();
        lemma_insert_keeps_order(h, x);
        let inner = insert_by_seq(h, x);
        assert forall|i: int| 0 <= i < inner.len() implies (#[trigger] inner[i]).name.seq
            <= g.last().name.seq by {
            if inner[i].name.seq > x.name.seq {
                let k = choose|k: int|
                    0 <= k < h.len() && (#[trigger] h[k]).name.seq == inner[i].name.seq;
                assert(g[k].name.seq <= g[g.len() - 1].name.seq);
            }
        }
        assert forall|i: int| 0 <= i < r.len() implies (#[trigger] r[i]).name.seq <= x.name.seq
            || exists|k: int| 0 <= k < g.len() && (#[trigger] g[k]).name.seq == r[i].name.seq by {
            if i < inner.len() {
                if inner[i].name.seq > x.name.seq {
                    let k = choose|k: int|
                        0 <= k < h.len() && (#[trigger] h[k]).name.seq == inner[i].name.seq;
                    assert(g[k].name.seq == r[i].name.seq);
                }
            } else {
                assert(g[g.len() - 1].name.seq == r[i].name.seq);
            }
        }
    }
}

proof fn lemma_session_files_first(listed: Seq<ListedFile>, sid: SessionId)
    ensures
        session_files(listed, sid).len() > 0 ==> session_files(listed, sid)[0].name.sid == sid,
        session_files(listed, sid).len() == 0 ==> forall|k: int|
            0 <= k < listed.len() ==> (#[trigger] listed[k]).name.sid != sid,
    decreases listed.len(),
{
    law_session_files_ascending(listed, sid);
    if listed.len() > 0 {
        lemma_session_files_first(listed.drop_last(), sid);
        let before = session_files(listed.drop_last(), sid);
        if listed.last().name.sid == sid {
            lemma_insert_by_seq_members(before, listed.last());
        } else if session_files(listed, sid).len() == 0 {
            assert forall|k: int| 0 <= k < listed.len() implies (#[trigger] listed[k]).name.sid
                != sid by {
                if k < listed.len() - 1 {
                    assert(listed.drop_last()[k].name.sid != sid);
                }
            }
        }
    }
}

/// Groups files by session, each group in ascending order of sequence number.
pub fn group_by_session(listed: Vec<ListedFile>) -> (groups: Vec<Vec<ListedFile>>)
    ensures
        is_grouping(views(groups@), listed@),
        (groups@.len() == 0) == (listed@.len() == 0),
{
    let mut groups: Vec<Vec<ListedFile>> = Vec::new();
    let mut i: usize = 0;
    while i < listed.len()
        invariant
            i <= listed@.len(),
            is_grouping(views(groups@), listed@.take(i as int)),
            i > 0 ==> groups@.len() > 0,
            i == 0 ==> groups@.len() == 0,
        decreases listed@.len() - i,
    {
        let ghost done = listed@.take(i as int);
        let ghost next = listed@.take(i + 1);
        let ghost before = views(groups@);
        let x = ListedFile { file: copy_file(&listed[i].file), name: listed[i].name };
        proof {
            assert(next.drop_last() =~= done);
            assert(next.last() == x);
        }
        let mut k: usize = 0;
        while k < groups.len() && !same_sid(&groups[k][0].name.sid, &x.name.sid)
            invariant
                k <= groups@.len(),
                before == views(groups@),
                is_grouping(before, done),
                forall|j: int| 0 <= j < k ==> (#[trigger] before[j])[0].name.sid != x.name.sid,
            ensures
                k <= groups@.len(),
                forall|j: int| 0 <= j < k ==> (#[trigger] before[j])[0].name.sid != x.name.sid,
                k < groups@.len() ==> before[k as int][0].name.sid == x.name.sid,
            decreases groups@.len() - k,
        {
            proof {
                assert(before[k as int] == groups@[k as int]@);
            }
            k = k + 1;
        }
        let ghost sid = x.name.sid;
        let ghost target = insert_by_seq(session_files(done, sid), x);
        proof {
            lemma_session_files_first(next, sid);
            lemma_insert_by_seq_members(session_files(done, sid), x);
        }
        if k < groups.len() {
            proof {
                assert(before[k as int] == groups@[k as int]@);
            }
            let mut g = groups.remove(k);
            insert_sorted(&mut g, x);
            groups.insert(k, g);
            proof {
                assert(views(groups@) =~= before.update(k as int, target));
                lemma_regroup(before, done, next, x, k as int);
            }
        } else {
            let mut g: Vec<ListedFile> = Vec::new();
            g.push(x);
            groups.push(g);
            proof {
                if session_files(done, sid).len() > 0 {
                    lemma_session_files_first(done, sid);
                    lemma_grouping_covers(before, done, sid);
                }
                assert(session_files(done, sid) =~= Seq::empty());
                assert(target =~= seq![x]);
                assert(views(groups@) =~= before.push(target));
                lemma_new_group(before, done, next, x);
            }
        }
        i = i + 1;
    }
    proof {
        assert(listed@.take(i as int) =~= listed@);
    }
    groups
}

proof fn lemma_grouping_covers(groups: Seq<Seq<ListedFile>>, listed: Seq<ListedFile>, sid: SessionId)
    requires
        is_grouping(groups, listed),
        session_files(listed, sid).len() > 0,
    ensures
        exists|i: int| 0 <= i < groups.len() && (#[trigger] groups[i])[0].name.sid == sid,
{
    if forall|k: int| 0 <= k < listed.len() ==> (#[trigger] listed[k]).name.sid != sid {
        lemma_no_session_files(listed, sid);
    } else {
        let k = choose|k: int| 0 <= k < listed.len() && (#[trigger] listed[k]).name.sid == sid;
        assert(listed[k].name.sid == sid);
    }
}

proof fn lemma_no_session_files(listed: Seq<ListedFile>, sid: SessionId)
    requires
        forall|k: int| 0 <= k < listed.len() ==> (#[trigger] listed[k]).name.sid != sid,
    ensures
        session_files(listed, sid).len() == 0,
    decreases listed.len(),
{
    if listed.len() > 0 {
        assert(listed[listed.len() - 1].name.sid != sid);
        assert forall|k: int| 0 <= k < listed.drop_last().len() implies (
        #[trigger] listed.drop_last()[k]).name.sid != sid by {
            assert(listed[k].name.sid != sid);
        }
        lemma_no_session_files(listed.drop_last(), sid);
    }
}

proof fn lemma_regroup(
    before: Seq<Seq<ListedFile>>,
    done: Seq<ListedFile>,
    next: Seq<ListedFile>,
    x: ListedFile,
    k: int,
)
    requires
        is_grouping(before, done),
        next.len() == done.len() + 1,
        next.drop_last() == done,
        next.last() == x,
        0 <= k < before.len(),
        before[k][0].name.sid == x.name.sid,
    ensures
        is_grouping(before.update(k, insert_by_seq(session_files(done, x.name.sid), x)), next),
{
    let target = insert_by_seq(session_files(done, x.name.sid), x);
    let after = before.update(k, target);
    lemma_session_files_first(next, x.name.sid);
    lemma_insert_by_seq_members(session_files(done, x.name.sid), x);
    assert forall|i: int| 0 <= i < after.len() implies (#[trigger] after[i]).len() > 0 && after[i]
        == session_files(next, after[i][0].name.sid) by {
        if i != k {
            assert(after[i] == before[i]);
            if i < k {
                assert(before[i][0].name.sid != before[k][0].name.sid);
            } else {
                assert(before[k][0].name.sid != before[i][0].name.sid);
            }
        }
    }
    assert forall|i: int, j: int| 0 <= i < j < after.len() implies (#[trigger] after[i])[0].name.sid
        != (#[trigger] after[j])[0].name.sid by {
        assert(before[i][0].name.sid != before[j][0].name.sid);
    }
    assert forall|n: int| 0 <= n < next.len() implies exists|i: int|
        0 <= i < after.len() && (#[trigger] after[i])[0].name.sid == (
        #[trigger] next[n]).name.sid by {
        if n < done.len() {
            assert(next.drop_last()[n] == done[n]);
            let i = choose|i: int|
                0 <= i < before.len() && (#[trigger] before[i])[0].name.sid == done[n].name.sid;
            assert(after[i][0].name.sid == next[n].name.sid);
        } else {
            assert(after[k][0].name.sid == next[n].name.sid);
        }
    }
}

proof fn lemma_new_group(
    before: Seq<Seq<ListedFile>>,
    done: Seq<ListedFile>,
    next: Seq<ListedFile>,
    x: ListedFile,
)
    requires
        is_grouping(before, done),
        next.len() == done.len() + 1,
        next.drop_last() == done,
        next.last() == x,
        forall|j: int| 0 <= j < before.len() ==> (#[trigger] before[j])[0].name.sid != x.name.sid,
    ensures
        is_grouping(before.push(insert_by_seq(session_files(done, x.name.sid), x)), next),
{
    let target = insert_by_seq(session_files(done, x.name.sid), x);
    let after = before.push(target);
    lemma_session_files_first(next, x.name.sid);
    lemma_insert_by_seq_members(session_files(done, x.name.sid), x);
    assert forall|i: int| 0 <= i < after.len() implies (#[trigger] after[i]).len() > 0 && after[i]
        == session_files(next, after[i][0].name.sid) by {
        if i < before.len() {
            assert(after[i] == before[i]);
        }
    }
    assert forall|i: int, j: int| 0 <= i < j < after.len() implies (#[trigger] after[i])[0].name.sid
        != (#[trigger] after[j])[0].name.sid by {
        if j < before.len() {
            assert(before[i][0].name.sid != before[j][0].name.sid);
        } else {
            assert(before[i][0].name.sid != x.name.sid);
        }
    }
    assert forall|n: int| 0 <= n < next.len() implies exists|i: int|
        0 <= i < after.len() && (#[trigger] after[i])[0].name.sid == (
        #[trigger] next[n]).name.sid by {
        if n < done.len() {
            assert(next.drop_last()[n] == done[n]);
            let i = choose|i: int|
                0 <= i < before.len() && (#[trigger] before[i])[0].name.sid == done[n].name.sid;
            assert(after[i][0].name.sid == next[n].name.sid);
        } else {
            assert(after[before.len() as int][0].name.sid == next[n].name.sid);
        }
    }
}

/// Which files of a listing are taken up: those whose name is that of a file of
/// the wanted kind of one of the wanted sessions, in the order of the listing,
/// each with what its name says.
pub proof fn law_selected_by_name(
    files: Seq<DriveFile>,
    more: Seq<DriveFile>,
    file: DriveFile,
    name: DriveFilename,
    kind: FilenameKind,
    sessions: Set<SessionId>,
)
    ensures
        selected(files + more, kind, sessions) == selected(files, kind, sessions) + selected(
            more,
            kind,
            sessions,
        ),
        file.name@ == name.text() && name.kind == kind && sessions.contains(name.sid) ==> selected(
            seq![file],
            kind,
            sessions,
        ) == seq![ListedFile { file, name }],
        file.name@ == name.text() && !(name.kind == kind && sessions.contains(name.sid))
            ==> selected(seq![file], kind, sessions).len() == 0,
        (forall|n: DriveFilename| file.name@ != #[trigger] n.text()) ==> selected(
            seq![file],
            kind,
            sessions,
        ).len() == 0,
    decreases more.len(),
{
    filename::law_parsed_name(name);
    reveal_with_fuel(selected, 2);
    assert(seq![file].drop_last() =~= Seq::empty());
    if more.len() > 0 {
        law_selected_by_name(files, more.drop_last(), file, name, kind, sessions);
        assert((files + more).drop_last() =~= files + more.drop_last());
        assert((files + more).last() == more.last());
        assert(selected(files + more, kind, sessions) =~= selected(files, kind, sessions)
            + selected(more, kind, sessions));
    } else {
        assert(files + more =~= files);
        assert(selected(files + more, kind, sessions) =~= selected(files, kind, sessions)
            + selected(more, kind, sessions));
    }
    assert(selected(seq![file], kind, sessions) =~= (if is_selected(file, kind, sessions) {
        seq![ListedFile { file, name: filename::parsed_name(file.name@)->0 }]
    } else {
        Seq::empty()
    }));
}

proof fn lemma_selected_members(files: Seq<DriveFile>, kind: FilenameKind, sessions: Set<SessionId>)
    ensures
        forall|k: int|
            0 <= k < selected(files, kind, sessions).len() ==> {
                let f = #[trigger] selected(files, kind, sessions)[k];
                is_selected(f.file, kind, sessions) && filename::parsed_name(f.file.name@) == Some(
                    f.name,
                )
            },
    decreases files.len(),
{
    if files.len() > 0 {
        lemma_selected_members(files.drop_last(), kind, sessions);
    }
}

/// A file of a listing is taken up if and only if its name is that of a file of
/// the wanted kind of one of the wanted sessions.
pub proof fn law_selected_exactly(
    files: Seq<DriveFile>,
    i: int,
    name: DriveFilename,
    kind: FilenameKind,
    sessions: Set<SessionId>,
)
    requires
        0 <= i < files.len(),
        files[i].name@ == name.text(),
    ensures
        selected(files, kind, sessions).contains((ListedFile { file: files[i], name })) <==> name.kind
            == kind && sessions.contains(name.sid),
    decreases files.len(),
{
    filename::law_parsed_name(name);
    let f = ListedFile { file: files[i], name };
    let all = selected(files, kind, sessions);
    lemma_selected_members(files, kind, sessions);
    if name.kind == kind && sessions.contains(name.sid) {
        let before = selected(files.drop_last(), kind, sessions);
        if i < files.len() - 1 {
            assert(files.drop_last()[i] == files[i]);
            law_selected_exactly(files.drop_last(), i, name, kind, sessions);
            let k = choose|k: int| 0 <= k < before.len() && before[k] == f;
            assert(all[k] == f);
        } else {
            assert(all[before.len() as int] == f);
        }
    } else if all.contains(f) {
        let k = choose|k: int| 0 <= k < all.len() && all[k] == f;
        assert(is_selected(all[k].file, kind, sessions));
    }
}

} // verus!
