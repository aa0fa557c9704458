//! The per-thread "last error" context: for each execution thread at most
//! one live record, holding the most recent failure's message and optional
//! backtrace.
//!
//! Threads are fully isolated: a failure recorded under one thread identity
//! is never visible to a query under another. Reading a record does not
//! consume it; it stays until the next failure on the same thread
//! overwrites it. A thread that never failed has no record, and querying it
//! yields an empty payload, not an error.

use vstd::prelude::*;

verus! {

/// One failure's diagnostics, as bytes of UTF-8 text the way they cross the
/// boundary. `backtrace` is `None` whenever capture is disabled; it is never
/// a misleading empty string.
pub struct ErrorRecord {
    pub message: Vec<u8>,
    pub backtrace: Option<Vec<u8>>,
}

/// The mathematical image of a record.
pub struct ErrorRecordView {
    pub message: Seq<u8>,
    pub backtrace: Option<Seq<u8>>,
}

impl View for ErrorRecord {
    type V = ErrorRecordView;

    open spec fn view(&self) -> ErrorRecordView {
        ErrorRecordView {
            message: self.message@,
            backtrace: match self.backtrace {
                Some(bt) => Some(bt@),
                None => None,
            },
        }
    }
}

/// The record a thread without failures observes: empty message, no
/// backtrace.
pub open spec fn empty_record_view() -> ErrorRecordView {
    ErrorRecordView { message: Seq::empty(), backtrace: None }
}

/// The first record stored under `tid`, if any.
pub open spec fn lookup(s: Seq<(u64, ErrorRecord)>, tid: u64) -> Option<ErrorRecordView>
    decreases s.len(),
{
    if s.len() == 0 {
        None
    } else if s[0].0 == tid {
        Some(s[0].1@)
    } else {
        lookup(s.drop_first(), tid)
    }
}

/// Context records keyed by the identity of the thread that wrote them.
/// The caller of every operation passes the identity of the executing
/// thread; the store itself never inspects or shares records across keys.
pub struct ErrorContextStore {
    entries: Vec<(u64, ErrorRecord)>,
}

impl ErrorContextStore {
    /// The record currently held for thread `tid`, if that thread has
    /// failed before.
    pub closed spec fn spec_record_for(&self, tid: u64) -> Option<ErrorRecordView> {
        lookup(self.entries@, tid)
    }

    /// The whole store as a map from thread identity to record.
    pub open spec fn view_map(&self) -> Map<u64, ErrorRecordView> {
        Map::new(
            |t: u64| self.spec_record_for(t) is Some,
            |t: u64| self.spec_record_for(t)->Some_0,
        )
    }

    /// A store in which no thread has a record yet.
    pub fn new() -> (r: ErrorContextStore)
        ensures
            forall|t: u64| r.spec_record_for(t) is None,
    {
        ErrorContextStore { entries: Vec::new() }
    }

    /// Overwrite (or create) the record for `tid`, leaving every other
    /// thread's record untouched.
    pub fn set_error(&mut self, tid: u64, record: ErrorRecord)
        ensures
            final(self).spec_record_for(tid) == Some(record@),
            forall|t: u64|
                t != tid ==> final(self).spec_record_for(t) == old(self).spec_record_for(t),
            final(self).view_map() == old(self).view_map().insert(tid, record@),
    {
        let ghost pre = self.entries@;
        let ghost grec = record;
        let mut i: usize = 0;
        while i < self.entries.len()
            invariant
                old(self) == self,
                pre == self.entries@,
                grec == record,
                0 <= i <= self.entries@.len(),
                forall|k: int| 0 <= k < i ==> (#[trigger] self.entries@[k]).0 != tid,
            decreases self.entries@.len() - i,
        {
            if self.entries[i].0 == tid {
                self.entries.set(i, (tid, record));
                proof {
                    lemma_lookup_update(pre, i as int, tid, grec);
                    assert(self.entries@ == pre.update(i as int, (tid, grec)));
                    lemma_view_map_insert(*old(self), *self, tid);
                }
                return ;
            }
            i = i + 1;
        }
        self.entries.push((tid, record));
        proof {
            lemma_lookup_push(pre, tid, grec);
            assert(self.entries@ == pre.push((tid, grec)));
            lemma_view_map_insert(*old(self), *self, tid);
        }
    }

    /// The record for `tid`, or `None` if that thread never failed.
    pub fn get(&self, tid: u64) -> (r: Option<&ErrorRecord>)
        ensures
            match r {
                Some(rec) => self.spec_record_for(tid) == Some(rec@),
                None => self.spec_record_for(tid) is None,
            },
    {
        let mut i: usize = 0;
        while i < self.entries.len()
            invariant
                0 <= i <= self.entries@.len(),
                forall|k: int| 0 <= k < i ==> (#[trigger] self.entries@[k]).0 != tid,
            decreases self.entries@.len() - i,
        {
            if self.entries[i].0 == tid {
                proof {
                    lemma_lookup_at(self.entries@, i as int, tid);
                }
                return Some(&self.entries[i].1);
            }
            i = i + 1;
        }
        proof {
            lemma_lookup_beyond(self.entries@, tid);
        }
        None
    }
}

/// If every key before `i` differs from `tid` and the key at `i` is `tid`,
/// the lookup lands on index `i`.
proof fn lemma_lookup_at(s: Seq<(u64, ErrorRecord)>, i: int, tid: u64)
    requires
        0 <= i < s.len(),
        s[i].0 == tid,
        forall|k: int| 0 <= k < i ==> (#[trigger] s[k]).0 != tid,
    ensures
        lookup(s, tid) == Some(s[i].1@),
    decreases i,
{
    if i > 0 {
        lemma_lookup_at(s.drop_first(), i - 1, tid);
    }
}

/// If no key equals `tid`, the lookup finds nothing.
proof fn lemma_lookup_beyond(s: Seq<(u64, ErrorRecord)>, tid: u64)
    requires
        forall|k: int| 0 <= k < s.len() ==> (#[trigger] s[k]).0 != tid,
    ensures
        lookup(s, tid) is None,
    decreases s.len(),
{
    if s.len() > 0 {
        lemma_lookup_beyond(s.drop_first(), tid);
    }
}

/// Replacing the first entry whose key is `tid` changes that key's lookup
/// to the new record and no other key's.
proof fn lemma_lookup_update(s: Seq<(u64, ErrorRecord)>, i: int, tid: u64, rec: ErrorRecord)
    requires
        0 <= i < s.len(),
        s[i].0 == tid,
        forall|k: int| 0 <= k < i ==> (#[trigger] s[k]).0 != tid,
    ensures
        lookup(s.update(i, (tid, rec)), tid) == Some(rec@),
        forall|t: u64| t != tid ==> lookup(s.update(i, (tid, rec)), t) == lookup(s, t),
    decreases i,
{
    let u = s.update(i, (tid, rec));
    if i == 0 {
        assert(u.drop_first() =~= s.drop_first());
        assert forall|t: u64| t != tid implies lookup(u, t) == lookup(s, t) by {
            assert(lookup(u, t) == lookup(u.drop_first(), t));
            assert(lookup(s, t) == lookup(s.drop_first(), t));
        }
    } else {
        lemma_lookup_update(s.drop_first(), i - 1, tid, rec);
        assert(u.drop_first() =~= s.drop_first().update(i - 1, (tid, rec)));
        assert(u[0] == s[0]);
        assert(lookup(u, tid) == lookup(u.drop_first(), tid));
        assert forall|t: u64| t != tid implies lookup(u, t) == lookup(s, t) by {
            if s[0].0 == t {
                assert(lookup(u, t) == Some(u[0].1@));
                assert(lookup(s, t) == Some(s[0].1@));
            } else {
                assert(lookup(u, t) == lookup(u.drop_first(), t));
                assert(lookup(s, t) == lookup(s.drop_first(), t));
            }
        }
    }
}

/// Appending an entry for a key that is absent creates that key's record
/// and changes no other key's.
proof fn lemma_lookup_push(s: Seq<(u64, ErrorRecord)>, tid: u64, rec: ErrorRecord)
    requires
        forall|k: int| 0 <= k < s.len() ==> (#[trigger] s[k]).0 != tid,
    ensures
        lookup(s.push((tid, rec)), tid) == Some(rec@),
        forall|t: u64| t != tid ==> lookup(s.push((tid, rec)), t) == lookup(s, t),
    decreases s.len(),
{
    let u = s.push((tid, rec));
    if s.len() == 0 {
        assert(u[0] == (tid, rec));
        assert forall|t: u64| t != tid implies lookup(u, t) == lookup(s, t) by {
            assert(u.drop_first() =~= Seq::<(u64, ErrorRecord)>::empty());
            assert(lookup(u, t) == lookup(u.drop_first(), t));
        }
    } else {
        lemma_lookup_push(s.drop_first(), tid, rec);
        assert(u.drop_first() =~= s.drop_first().push((tid, rec)));
        assert(u[0] == s[0]);
        assert(lookup(u, tid) == lookup(u.drop_first(), tid));
        assert forall|t: u64| t != tid implies lookup(u, t) == lookup(s, t) by {
            if s[0].0 == t {
                assert(lookup(u, t) == Some(u[0].1@));
                assert(lookup(s, t) == Some(s[0].1@));
            } else {
                assert(lookup(u, t) == lookup(u.drop_first(), t));
                assert(lookup(s, t) == lookup(s.drop_first(), t));
            }
        }
    }
}

/// How a run of failures evolves the store, at the map level: each failure
/// event (executing thread's identity, record written) is one insert, which
/// is exactly what `set_error` ensures of `view_map`.
pub open spec fn apply_failures(
    m0: Map<u64, ErrorRecordView>,
    evs: Seq<(u64, ErrorRecordView)>,
) -> Map<u64, ErrorRecordView>
    decreases evs.len(),
{
    if evs.len() == 0 {
        m0
    } else {
        apply_failures(m0, evs.drop_last()).insert(evs.last().0, evs.last().1)
    }
}

/// The most recent failure event observed on thread `t`, if any.
pub open spec fn last_failure_on(
    evs: Seq<(u64, ErrorRecordView)>,
    t: u64,
) -> Option<ErrorRecordView>
    decreases evs.len(),
{
    if evs.len() == 0 {
        None
    } else if evs.last().0 == t {
        Some(evs.last().1)
    } else {
        last_failure_on(evs.drop_last(), t)
    }
}

/// After any run of failures, a thread's record is exactly the most recent
/// failure written under its own identity; if the run wrote none, the
/// thread keeps whatever it started with. Failures on other threads never
/// interleave with or clobber it.
pub proof fn lemma_store_reflects_last_failure(
    m0: Map<u64, ErrorRecordView>,
    evs: Seq<(u64, ErrorRecordView)>,
    t: u64,
)
    ensures
        match last_failure_on(evs, t) {
            Some(r) => apply_failures(m0, evs).contains_key(t) && apply_failures(m0, evs)[t]
                == r,
            None => apply_failures(m0, evs).contains_key(t) == m0.contains_key(t) && (
            m0.contains_key(t) ==> apply_failures(m0, evs)[t] == m0[t]),
        },
    decreases evs.len(),
{
    if evs.len() > 0 {
        lemma_store_reflects_last_failure(m0, evs.drop_last(), t);
    }
}

/// A thread on which no failure has occurred, starting from a store with
/// no records, still has no record after any run of failures on other
/// threads: a query then yields the empty payload, never another thread's
/// record.
pub proof fn lemma_no_failures_no_record(evs: Seq<(u64, ErrorRecordView)>, t: u64)
    requires
        forall|k: int| 0 <= k < evs.len() ==> (#[trigger] evs[k]).0 != t,
    ensures
        last_failure_on(evs, t) is None,
        !apply_failures(Map::<u64, ErrorRecordView>::empty(), evs).contains_key(t),
    decreases evs.len(),
{
    if evs.len() > 0 {
        assert(evs.last() == evs[evs.len() - 1]);
        lemma_no_failures_no_record(evs.drop_last(), t);
    }
    lemma_store_reflects_last_failure(Map::<u64, ErrorRecordView>::empty(), evs, t);
}

/// Pointwise agreement with an insert gives the map-level insert equation.
proof fn lemma_view_map_insert(pre: ErrorContextStore, post: ErrorContextStore, tid: u64)
    requires
        post.spec_record_for(tid) is Some,
        forall|t: u64| t != tid ==> post.spec_record_for(t) == pre.spec_record_for(t),
    ensures
        post.view_map() == pre.view_map().insert(tid, post.spec_record_for(tid)->Some_0),
{
    assert(post.view_map() =~= pre.view_map().insert(tid, post.spec_record_for(tid)->Some_0));
}

} // verus!
