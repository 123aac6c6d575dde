//! The table of live sessions with the sequence number each expects next.
use vstd::prelude::*;

use crate::frame::SessionId;
use crate::listing;

verus! {

/// How a sequence number stands to the one that is expected.
#[derive(Debug, Clone, Copy, PartialEq, Eq, Structural)]
pub enum SeqCheck {
    Next,
    /// Already delivered.
    Replay,
    /// Ahead of a frame that is not there yet.
    Future { expected: u64 },
}

/// The sessions with one more open: a new one expects sequence number 0, one
/// that is open already keeps its place.
pub open spec fn with_session(sessions: Map<SessionId, u64>, sid: SessionId) -> Map<SessionId, u64> {
    if sessions.contains_key(sid) {
        sessions
    } else {
        sessions.insert(sid, 0)
    }
}

/// The sessions after a frame of one of them was delivered.
pub open spec fn committed(sessions: Map<SessionId, u64>, sid: SessionId, seq: u64) -> Map<
    SessionId,
    u64,
> {
    if sessions.contains_key(sid) && sessions[sid] == seq {
        sessions.insert(sid, (seq + 1) as u64)
    } else {
        sessions
    }
}

/// The standing of `seq` where `expected` is next.
pub open spec fn check(expected: u64, seq: u64) -> SeqCheck {
    if seq == expected {
        SeqCheck::Next
    } else if seq < expected {
        SeqCheck::Replay
    } else {
        SeqCheck::Future { expected }
    }
}

struct Entry {
    sid: SessionId,
    next: u64,
}

/// The live sessions. No session is held twice.
pub struct SessionTable {
    entries: Vec<Entry>,
}

spec fn next_of(entries: Seq<Entry>, sid: SessionId) -> Option<u64>
    decreases entries.len(),
{
    if entries.len() == 0 {
        None
    } else if entries.last().sid == sid {
        Some(entries.last().next)
    } else {
        next_of(entries.drop_last(), sid)
    }
}

spec fn table(entries: Seq<Entry>) -> Map<SessionId, u64> {
    Map::new(|sid: SessionId| next_of(entries, sid) is Some, |sid: SessionId| next_of(entries, sid)->0)
}

spec fn one_each(entries: Seq<Entry>) -> bool {
    forall|i: int, j: int|
        0 <= i < j < entries.len() ==> (#[trigger] entries[i]).sid != (#[trigger] entries[j]).sid
}

proof fn lemma_entry(entries: Seq<Entry>, k: int)
    requires
        one_each(entries),
        0 <= k < entries.len(),
    ensures
        next_of(entries, entries[k].sid) == Some(entries[k].next),
    decreases entries.len(),
{
    if k < entries.len() - 1 {
        assert(entries[k].sid != entries[entries.len() - 1].sid);
        assert forall|i: int, j: int| 0 <= i < j < entries.drop_last().len() implies (
        #[trigger] entries.drop_last()[i]).sid != (#[trigger] entries.drop_last()[j]).sid by {
            assert(entries[i].sid != entries[j].sid);
        }
        lemma_entry(entries.drop_last(), k);
    }
}

proof fn lemma_no_entry(entries: Seq<Entry>, sid: SessionId)
    requires
        forall|i: int| 0 <= i < entries.len() ==> (#[trigger] entries[i]).sid != sid,
    ensures
        next_of(entries, sid) is None,
    decreases entries.len(),
{
    if entries.len() > 0 {
        assert(entries[entries.len() - 1].sid != sid);
        assert forall|i: int| 0 <= i < entries.drop_last().len() implies (
        #[trigger] entries.drop_last()[i]).sid != sid by {
            assert(entries[i].sid != sid);
        }
        lemma_no_entry(entries.drop_last(), sid);
    }
}

/// Either the session has an entry, or the table does not know it.
proof fn lemma_next_of(entries: Seq<Entry>, sid: SessionId)
    requires
        one_each(entries),
    ensures
        match next_of(entries, sid) {
            Some(n) => exists|i: int|
                0 <= i < entries.len() && (#[trigger] entries[i]).sid == sid && entries[i].next == n,
            None => forall|i: int| 0 <= i < entries.len() ==> (#[trigger] entries[i]).sid != sid,
        },
{
    if exists|i: int| 0 <= i < entries.len() && (#[trigger] entries[i]).sid == sid {
        let i = choose|i: int| 0 <= i < entries.len() && (#[trigger] entries[i]).sid == sid;
        lemma_entry(entries, i);
        assert(entries[i].sid == sid && entries[i].next == next_of(entries, sid)->0);
    } else {
        lemma_no_entry(entries, sid);
    }
}

impl View for SessionTable {
    type V = Map<SessionId, u64>;

    closed spec fn view(&self) -> Map<SessionId, u64> {
        table(self.entries@)
    }
}

impl SessionTable {
    #[verifier::type_invariant]
    spec fn inv(self) -> bool {
        one_each(self.entries@)
    }

    /// No sessions.
    pub fn new() -> (t: SessionTable)
        ensures
            t@ == Map::<SessionId, u64>::empty(),
    {
        let t = SessionTable { entries: Vec::new() };
        proof {
            assert(t@ =~= Map::<SessionId, u64>::empty());
        }
        t
    }

    fn find(&self, sid: &SessionId) -> (r: Option<usize>)
        ensures
            match r {
                Some(k) => k < self.entries@.len() && self.entries@[k as int].sid == *sid
                    && self@.contains_key(*sid) && self@[*sid] == self.entries@[k as int].next,
                None => !self@.contains_key(*sid) && forall|i: int|
                    0 <= i < self.entries@.len() ==> (#[trigger] self.entries@[i]).sid != *sid,
            },
    {
        proof {
            use_type_invariant(self);
        }
        let mut k: usize = 0;
        while k < self.entries.len()
            invariant
                k <= self.entries@.len(),
                one_each(self.entries@),
                forall|i: int| 0 <= i < k ==> (#[trigger] self.entries@[i]).sid != *sid,
            decreases self.entries@.len() - k,
        {
            if listing::same_sid(&self.entries[k].sid, sid) {
                proof {
                    lemma_entry(self.entries@, k as int);
                }
                return Some(k);
            }
            k = k + 1;
        }
        proof {
            lemma_no_entry(self.entries@, *sid);
        }
        None
    }

    /// Opens a session that expects sequence number 0. A session that is
    /// already open is left as it is.
    pub fn open(&mut self, sid: SessionId) -> (r: bool)
        ensures
            r == !old(self)@.contains_key(sid),
            final(self)@ == with_session(old(self)@, sid),
    {
        if self.find(&sid).is_some() {
            return false;
        }
        let ghost before = self.entries@;
        proof {
            use_type_invariant(&*self);
        }
        let mut entries: Vec<Entry> = Vec::new();
        std::mem::swap(&mut entries, &mut self.entries);
        entries.push(Entry { sid, next: 0 });
        proof {
            let after = entries@;
            assert(after.drop_last() =~= before);
            assert(one_each(after));
            assert(table(after) =~= table(before).insert(sid, 0));
        }
        self.entries = entries;
        true
    }

    /// Closes a session.
    pub fn close(&mut self, sid: &SessionId)
        ensures
            final(self)@ == old(self)@.remove(*sid),
    {
        proof {
            use_type_invariant(&*self);
        }
        let ghost before = self.entries@;
        match self.find(sid) {
            Some(k) => {
                let mut entries: Vec<Entry> = Vec::new();
                std::mem::swap(&mut entries, &mut self.entries);
                let _removed = entries.remove(k);
                proof {
                    let after = entries@;
                    assert(after =~= before.remove(k as int));
                    assert forall|i: int, j: int| 0 <= i < j < after.len() implies (
                    #[trigger] after[i]).sid != (#[trigger] after[j]).sid by {
                        let a = if i < k { i } else { i + 1 };
                        let b = if j < k { j } else { j + 1 };
                        assert(before[a].sid != before[b].sid);
                    }
                    assert forall|s: SessionId| #[trigger] next_of(after, s) == (if s == *sid {
                        None
                    } else {
                        next_of(before, s)
                    }) by {
                        lemma_next_of(after, s);
                        lemma_next_of(before, s);
                        if next_of(after, s) is Some {
                            let i = choose|i: int|
                                0 <= i < after.len() && (#[trigger] after[i]).sid == s
                                    && after[i].next == next_of(after, s)->0;
                            let a = if i < k { i } else { i + 1 };
                            assert(before[a].sid == s);
                            lemma_entry(before, a);
                            assert(before[k as int].sid != before[a].sid);
                        } else if next_of(before, s) is Some && s != *sid {
                            let a = choose|a: int|
                                0 <= a < before.len() && (#[trigger] before[a]).sid == s
                                    && before[a].next == next_of(before, s)->0;
                            let i = if a < k { a } else { a - 1 };
                            assert(after[i].sid == s);
                        }
                    }
                    assert(table(after) =~= table(before).remove(*sid));
                }
                self.entries = entries;
            },
            None => {
                proof {
                    assert(self@ =~= self@.remove(*sid));
                }
            },
        }
    }

    /// The standing of a sequence number, if the session is open.
    pub fn check(&self, sid: &SessionId, seq: u64) -> (r: Option<SeqCheck>)
        ensures
            r == (if self@.contains_key(*sid) {
                Some(check(self@[*sid], seq))
            } else {
                None
            }),
    {
        match self.find(sid) {
            Some(k) => {
                let expected = self.entries[k].next;
                Some(
                    if seq == expected {
                        SeqCheck::Next
                    } else if seq < expected {
                        SeqCheck::Replay
                    } else {
                        SeqCheck::Future { expected }
                    },
                )
            },
            None => None,
        }
    }

    /// Moves a session past a sequence number that was delivered.
    pub fn commit(&mut self, sid: &SessionId, seq: u64)
        requires
            seq < u64::MAX,
        ensures
            final(self)@ == committed(old(self)@, *sid, seq),
    {
        proof {
            use_type_invariant(&*self);
        }
        let ghost before = self.entries@;
        if let Some(k) = self.find(sid) {
            if self.entries[k].next == seq {
                let mut entries: Vec<Entry> = Vec::new();
                std::mem::swap(&mut entries, &mut self.entries);
                entries.set(k, Entry { sid: *sid, next: seq + 1 });
                proof {
                    let after = entries@;
                    assert forall|i: int, j: int| 0 <= i < j < after.len() implies (
                    #[trigger] after[i]).sid != (#[trigger] after[j]).sid by {
                        assert(before[i].sid != before[j].sid);
                    }
                    assert forall|s: SessionId| #[trigger] next_of(after, s) == (if s == *sid {
                        Some((seq + 1) as u64)
                    } else {
                        next_of(before, s)
                    }) by {
                        lemma_next_of(after, s);
                        lemma_next_of(before, s);
                        lemma_entry(after, k as int);
                        if next_of(after, s) is Some && s != *sid {
                            let i = choose|i: int|
                                0 <= i < after.len() && (#[trigger] after[i]).sid == s
                                    && after[i].next == next_of(after, s)->0;
                            assert(before[i].sid == s);
                            lemma_entry(before, i);
                        } else if next_of(before, s) is Some && s != *sid {
                            let a = choose|a: int|
                                0 <= a < before.len() && (#[trigger] before[a]).sid == s
                                    && before[a].next == next_of(before, s)->0;
                            assert(after[a].sid == s);
                        }
                    }
                    assert(table(after) =~= table(before).insert(*sid, (seq + 1) as u64));
                }
                self.entries = entries;
            }
        }
    }

    /// The open sessions.
    pub fn sids(&self) -> (r: Vec<SessionId>)
        ensures
            forall|s: SessionId| #[trigger] r@.contains(s) <==> self@.contains_key(s),
    {
        proof {
            use_type_invariant(self);
        }
        let mut r: Vec<SessionId> = Vec::new();
        let mut k: usize = 0;
        while k < self.entries.len()
            invariant
                k <= self.entries@.len(),
                r@.len() == k,
                forall|i: int| 0 <= i < k ==> #[trigger] r@[i] == self.entries@[i].sid,
            decreases self.entries@.len() - k,
        {
            r.push(self.entries[k].sid);
            k = k + 1;
        }
        proof {
            assert forall|s: SessionId| #[trigger] r@.contains(s) <==> self@.contains_key(s) by {
                lemma_next_of(self.entries@, s);
                if self@.contains_key(s) {
                    let i = choose|i: int|
                        0 <= i < self.entries@.len() && (#[trigger] self.entries@[i]).sid == s
                            && self.entries@[i].next == next_of(self.entries@, s)->0;
                    assert(r@[i] == s);
                }
                if r@.contains(s) {
                    let i = choose|i: int| 0 <= i < r@.len() && r@[i] == s;
                    assert(self.entries@[i].sid == s);
                }
            }
        }
        r
    }
}

/// The number expected after arrivals, one after the other. Each arrival is a
/// sequence number and whether its body proves good; a good arrival of the
/// expected number is delivered and committed, any other is not.
pub open spec fn expected_after(next: int, arrivals: Seq<(u64, bool)>) -> int
    decreases arrivals.len(),
{
    if arrivals.len() == 0 {
        next
    } else {
        let e = expected_after(next, arrivals.drop_last());
        if arrivals.last().1 && arrivals.last().0 == e {
            e + 1
        } else {
            e
        }
    }
}

/// The sequence numbers that arrivals deliver, in order.
pub open spec fn delivered(next: int, arrivals: Seq<(u64, bool)>) -> Seq<u64>
    decreases arrivals.len(),
{
    if arrivals.len() == 0 {
        Seq::empty()
    } else {
        let before = delivered(next, arrivals.drop_last());
        if arrivals.last().1 && arrivals.last().0 == expected_after(next, arrivals.drop_last()) {
            before.push(arrivals.last().0)
        } else {
            before
        }
    }
}

/// However often and in whatever order frames arrive, and whichever bodies are
/// bad, what is delivered is the expected number and its successors, each once
/// and in order.
pub proof fn law_delivered_once_in_order(next: int, arrivals: Seq<(u64, bool)>)
    ensures
        delivered(next, arrivals).len() == expected_after(next, arrivals) - next,
        forall|i: int|
            0 <= i < delivered(next, arrivals).len() ==> #[trigger] delivered(next, arrivals)[i]
                == next + i,
    decreases arrivals.len(),
{
    if arrivals.len() > 0 {
        law_delivered_once_in_order(next, arrivals.drop_last());
    }
}

/// A failed delivery uses up nothing: the same sequence number is expected
/// again.
pub proof fn law_failure_keeps_expectation(next: int, arrivals: Seq<(u64, bool)>, seq: u64)
    ensures
        expected_after(next, arrivals.push((seq, false))) == expected_after(next, arrivals),
{
    assert(arrivals.push((seq, false)).drop_last() =~= arrivals);
}

/// A frame's sequence number stands to the expected one as next, past or
/// future by plain comparison, and a future one reports what is awaited.
pub proof fn law_check_compares_numbers(expected: u64, seq: u64)
    ensures
        check(expected, seq) is Next <==> seq == expected,
        check(expected, seq) is Replay <==> seq < expected,
        check(expected, seq) is Future <==> seq > expected,
        check(expected, seq) matches SeqCheck::Future { expected: e } ==> e == expected,
{
}

/// Opening a session makes it known and expects its frame 0; opening it again
/// changes nothing, and no other session is touched.
pub proof fn law_open_starts_at_zero(sessions: Map<SessionId, u64>, sid: SessionId, other: SessionId)
    requires
        other != sid,
    ensures
        with_session(sessions, sid).contains_key(sid),
        !sessions.contains_key(sid) ==> with_session(sessions, sid)[sid] == 0,
        sessions.contains_key(sid) ==> with_session(sessions, sid)[sid] == sessions[sid],
        with_session(with_session(sessions, sid), sid) == with_session(sessions, sid),
        with_session(sessions, sid).contains_key(other) == sessions.contains_key(other),
        sessions.contains_key(other) ==> with_session(sessions, sid)[other] == sessions[other],
{
}

/// Delivering the frame that was expected moves its session on by one, so that
/// the same frame is a replay from then on and the one after it is next.
/// Delivering any other frame, or one of an unknown session, changes nothing,
/// and no delivery touches another session.
pub proof fn law_delivery_moves_on_by_one(
    sessions: Map<SessionId, u64>,
    sid: SessionId,
    seq: u64,
    other: SessionId,
)
    requires
        seq < u64::MAX,
        other != sid,
    ensures
        committed(sessions, sid, seq).dom() == sessions.dom(),
        sessions.contains_key(sid) && check(sessions[sid], seq) is Next ==> {
            &&& committed(sessions, sid, seq)[sid] == sessions[sid] + 1
            &&& check(committed(sessions, sid, seq)[sid], seq) is Replay
            &&& check(committed(sessions, sid, seq)[sid], (seq + 1) as u64) is Next
        },
        sessions.contains_key(sid) && !(check(sessions[sid], seq) is Next) ==> committed(
            sessions,
            sid,
            seq,
        ) == sessions,
        !sessions.contains_key(sid) ==> committed(sessions, sid, seq) == sessions,
        sessions.contains_key(other) ==> committed(sessions, sid, seq)[other] == sessions[other],
{
    if sessions.contains_key(sid) {
        assert(sessions.dom().insert(sid) =~= sessions.dom());
    }
}

} // verus!
