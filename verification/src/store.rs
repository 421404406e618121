//! The store of active turn runtimes, kept in key order, one per key.
use vstd::prelude::*;
use crate::order::{chars_lt, compare_chars, lemma_lt_irreflexive, lemma_lt_transitive, lemma_lt_trichotomy, KeyOrder};
use crate::projection::{oldest_age, ProjectionKernelDiagnostic};
use crate::runtime::{receipt_for_nonce, strings_contain, SessionTurnRuntime};
use crate::runtime_types::{SessionTurnCommandReceipt, DirtyEntryView, ProjectionCheckpoint, ProjectionDirtyEntry, RuntimeEventView, SessionTurnEvent};
use crate::seqs::{find_first, lemma_find_first, lemma_find_first_is, lemma_find_first_none};
use crate::text::{chars_of, runtime_key, runtime_key_spec};

verus! {

/// Whether `r` is the runtime with key `k`.
pub open spec fn runtime_has_key(k: Seq<char>) -> spec_fn(SessionTurnRuntime) -> bool {
    |r: SessionTurnRuntime| r.kernel() == k
}

/// Whether the key of `r` comes after `k`.
pub open spec fn runtime_after(k: Seq<char>) -> spec_fn(SessionTurnRuntime) -> bool {
    |r: SessionTurnRuntime| chars_lt(k, r.kernel())
}

/// The runtimes are in strictly increasing key order.
pub open spec fn sorted_by_key(rs: Seq<SessionTurnRuntime>) -> bool {
    forall|i: int, j: int| 0 <= i < j < rs.len() ==> chars_lt(#[trigger] rs[i].kernel(), #[trigger] rs[j].kernel())
}

/// Where a runtime with key `k` goes: before the first runtime with a
/// later key.
pub open spec fn insert_position(rs: Seq<SessionTurnRuntime>, k: Seq<char>) -> int {
    let i = find_first(rs, runtime_after(k));
    if i >= 0 { i } else { rs.len() as int }
}

/// The runtimes `rs` after storing `r` under its key: a runtime with the
/// same key is replaced, else `r` goes in at its place in key order.
pub open spec fn inserted(rs: Seq<SessionTurnRuntime>, r: SessionTurnRuntime) -> Seq<SessionTurnRuntime> {
    let i = find_first(rs, runtime_has_key(r.kernel()));
    if i >= 0 {
        rs.update(i, r)
    } else {
        rs.insert(insert_position(rs, r.kernel()), r)
    }
}

/// The runtimes `rs` after storing each of `items` in turn.
pub open spec fn inserted_all(rs: Seq<SessionTurnRuntime>, items: Seq<SessionTurnRuntime>) -> Seq<SessionTurnRuntime>
    decreases items.len(),
{
    if items.len() == 0 {
        rs
    } else {
        inserted(inserted_all(rs, items.drop_last()), items.last())
    }
}

/// The active runtimes of all sessions, by runtime key.
pub struct RuntimeStore {
    pub runtimes: Vec<SessionTurnRuntime>,
    pub last_flush: Option<ProjectionFlushDiagnostic>,
}

/// What one projection flush pass did.
pub struct ProjectionFlushOutcome {
    pub entries_processed: usize,
    pub rows_flushed: usize,
    pub queue_len_before: usize,
    pub queue_len_after: usize,
    pub truncated: bool,
    pub instruction_delta: u64,
    pub stable_pages_delta: u64,
}

/// The report kept of the last projection flush pass.
#[derive(Clone, Copy, Debug, PartialEq, Eq)]
pub struct ProjectionFlushDiagnostic {
    pub flushed_at_ms: u64,
    pub entries_processed: usize,
    pub rows_flushed: usize,
    pub queue_len_before: usize,
    pub queue_len_after: usize,
    pub flush_truncated: bool,
    pub stable_pages_delta: u64,
    pub flush_instructions: u64,
}

/// Projection lag of every active runtime.
pub struct ProjectionDiagnosticSnapshot {
    pub kernels: Vec<ProjectionKernelDiagnostic>,
    pub total_dirty_queue_len: usize,
    pub oldest_dirty_age_ms: Option<u64>,
    pub last_flush: Option<ProjectionFlushDiagnostic>,
}

/// The runtimes saved across an upgrade, in key order.
pub struct SessionTurnRuntimeSnapshot {
    pub runtimes: Vec<SessionTurnRuntime>,
}

/// Total number of dirty entries over the runtimes.
pub open spec fn total_dirty_len(rs: Seq<SessionTurnRuntime>) -> nat
    decreases rs.len(),
{
    if rs.len() == 0 {
        0
    } else {
        total_dirty_len(rs.drop_last()) + rs.last().projection_dirty_queue@.len()
    }
}

/// Largest age of an oldest pending change over the runtimes at `now_ms`.
pub open spec fn max_oldest_age(rs: Seq<SessionTurnRuntime>, now_ms: u64) -> Option<u64>
    decreases rs.len(),
{
    if rs.len() == 0 {
        None
    } else {
        let rest = max_oldest_age(rs.drop_last(), now_ms);
        match oldest_age(rs.last().queue(), now_ms) {
            Some(a) => match rest {
                Some(m) => Some(if m >= a { m } else { a }),
                None => Some(a),
            },
            None => rest,
        }
    }
}

impl RuntimeStore {
    /// Every runtime is well formed and the runtimes are in key order.
    pub open spec fn wf(&self) -> bool {
        &&& sorted_by_key(self.runtimes@)
        &&& forall|i: int| 0 <= i < self.runtimes@.len() ==> (#[trigger] self.runtimes@[i]).wf()
    }

    /// Index of the runtime with key `k`, or `-1`.
    pub open spec fn index_of(&self, k: Seq<char>) -> int {
        find_first(self.runtimes@, runtime_has_key(k))
    }

    /// The runtime with key `k`, if any.
    pub open spec fn lookup(&self, k: Seq<char>) -> Option<SessionTurnRuntime> {
        let i = self.index_of(k);
        if i >= 0 { Some(self.runtimes@[i]) } else { None }
    }

    /// An empty store.
    pub fn new() -> (store: Self)
        ensures
            store.wf(),
            store.runtimes@.len() == 0,
            store.last_flush is None,
    {
        RuntimeStore { runtimes: Vec::new(), last_flush: None }
    }

    /// Number of active runtimes.
    pub fn active_runtime_count(&self) -> (n: usize)
        ensures
            n == self.runtimes@.len(),
    {
        self.runtimes.len()
    }

    /// Index of the runtime whose key has the characters `key`.
    pub fn find_index(&self, key: &Vec<char>) -> (found: Option<usize>)
        requires
            self.wf(),
        ensures
            match found {
                Some(i) => i < self.runtimes@.len() && i as int == self.index_of(key@),
                None => self.index_of(key@) == -1,
            },
    {
        let ghost p = runtime_has_key(key@);
        let n = self.runtimes.len();
        let mut i: usize = 0;
        while i < n
            invariant
                n == self.runtimes@.len(),
                self.wf(),
                p == runtime_has_key(key@),
                i <= n,
                forall|j: int| 0 <= j < i ==> !p(#[trigger] self.runtimes@[j]),
            decreases n - i,
        {
            let rk = chars_of(self.runtimes[i].projection_checkpoint.kernel_id.as_str());
            proof {
                assert(self.runtimes@[i as int].wf());
            }
            if compare_chars(&rk, key) == KeyOrder::Same {
                proof {
                    lemma_find_first_is(self.runtimes@, p, i as int);
                }
                return Some(i);
            }
            i = i + 1;
        }
        proof {
            lemma_find_first_none(self.runtimes@, p);
        }
        None
    }

    /// Index of the runtime of turn `turn_number` of session `session_id`.
    pub fn index_of_turn(&self, session_id: &str, turn_number: u32) -> (found: Option<usize>)
        requires
            self.wf(),
        ensures
            match found {
                Some(i) => i < self.runtimes@.len() && i as int == self.index_of(
                    runtime_key_spec(session_id@, turn_number as nat),
                ),
                None => self.index_of(runtime_key_spec(session_id@, turn_number as nat)) == -1,
            },
    {
        let key = runtime_key(session_id, turn_number);
        let chars = chars_of(key.as_str());
        self.find_index(&chars)
    }

    /// Whether the runtime of a turn is active.
    pub fn contains_runtime(&self, session_id: &str, turn_number: u32) -> (found: bool)
        requires
            self.wf(),
        ensures
            found == (self.lookup(runtime_key_spec(session_id@, turn_number as nat)) is Some),
    {
        self.index_of_turn(session_id, turn_number).is_some()
    }

    /// The runtime of a turn, if it is active.
    pub fn get_runtime(&self, session_id: &str, turn_number: u32) -> (found: Option<&SessionTurnRuntime>)
        requires
            self.wf(),
        ensures
            match found {
                Some(r) => self.lookup(runtime_key_spec(session_id@, turn_number as nat)) == Some(*r),
                None => self.lookup(runtime_key_spec(session_id@, turn_number as nat)) is None,
            },
    {
        match self.index_of_turn(session_id, turn_number) {
            Some(i) => Some(&self.runtimes[i]),
            None => None,
        }
    }
}


/// Inserting at the position of a key keeps the runtimes in key order.
pub(crate) proof fn lemma_insert_sorted(rs: Seq<SessionTurnRuntime>, r: SessionTurnRuntime, i: int)
    requires
        sorted_by_key(rs),
        0 <= i <= rs.len(),
        forall|j: int| 0 <= j < i ==> chars_lt(#[trigger] rs[j].kernel(), r.kernel()),
        i < rs.len() ==> chars_lt(r.kernel(), rs[i].kernel()),
    ensures
        sorted_by_key(rs.insert(i, r)),
        find_first(rs, runtime_after(r.kernel())) == (if i < rs.len() { i } else { -1 }),
{
    let t = rs.insert(i, r);
    assert forall|a: int, b: int| 0 <= a < b < t.len() implies chars_lt(#[trigger] t[a].kernel(), #[trigger] t[b].kernel()) by {
        if b < i {
            assert(t[a] == rs[a] && t[b] == rs[b]);
        } else if b == i {
            assert(t[a] == rs[a] && t[b] == r);
        } else if a < i {
            assert(t[a] == rs[a] && t[b] == rs[b - 1]);
            if b - 1 > i {
                lemma_lt_transitive(rs[a].kernel(), r.kernel(), rs[i].kernel());
                lemma_lt_transitive(rs[a].kernel(), rs[i].kernel(), rs[b - 1].kernel());
            } else {
                lemma_lt_transitive(rs[a].kernel(), r.kernel(), rs[i].kernel());
            }
        } else if a == i {
            assert(t[a] == r && t[b] == rs[b - 1]);
            if b - 1 > i {
                lemma_lt_transitive(r.kernel(), rs[i].kernel(), rs[b - 1].kernel());
            }
        } else {
            assert(t[a] == rs[a - 1] && t[b] == rs[b - 1]);
        }
    }
    let p = runtime_after(r.kernel());
    assert forall|j: int| 0 <= j < i implies !p(#[trigger] rs[j]) by {
        lemma_lt_trichotomy(rs[j].kernel(), r.kernel());
    }
    if i < rs.len() {
        lemma_find_first_is(rs, p, i);
    } else {
        lemma_find_first_none(rs, p);
    }
}

impl RuntimeStore {
    /// Inserts a runtime under its key; a runtime already stored under that
    /// key is replaced and handed back.
    pub fn insert_runtime(&mut self, runtime: SessionTurnRuntime) -> (replaced: Option<SessionTurnRuntime>)
        requires
            old(self).wf(),
            runtime.wf(),
        ensures
            final(self).wf(),
            final(self).last_flush == old(self).last_flush,
            ({
                let i = old(self).index_of(runtime.kernel());
                if i >= 0 {
                    &&& replaced == Some(old(self).runtimes@[i])
                    &&& final(self).runtimes@ == old(self).runtimes@.update(i, runtime)
                } else {
                    &&& replaced is None
                    &&& final(self).runtimes@ == old(self).runtimes@.insert(
                        insert_position(old(self).runtimes@, runtime.kernel()),
                        runtime,
                    )
                }
            }),
    {
        let ghost rs = self.runtimes@;
        let ghost k = runtime.kernel();
        let key = chars_of(runtime.projection_checkpoint.kernel_id.as_str());
        let n = self.runtimes.len();
        let mut i: usize = 0;
        while i < n
            invariant
                n == self.runtimes@.len(),
                rs == self.runtimes@,
                old(self).runtimes@ == rs,
                self.last_flush == old(self).last_flush,
                self.wf(),
                runtime.wf(),
                k == runtime.kernel(),
                key@ == k,
                i <= n,
                forall|j: int| 0 <= j < i ==> chars_lt(#[trigger] rs[j].kernel(), k),
            decreases n - i,
        {
            let rk = chars_of(self.runtimes[i].projection_checkpoint.kernel_id.as_str());
            proof {
                assert(self.runtimes@[i as int].wf());
            }
            let order = compare_chars(&key, &rk);
            if order == KeyOrder::Same {
                proof {
                    assert forall|j: int| 0 <= j < i implies !runtime_has_key(k)(#[trigger] rs[j]) by {
                        lemma_lt_irreflexive(k);
                    }
                    lemma_find_first_is(rs, runtime_has_key(k), i as int);
                }
                let previous = self.runtimes.remove(i);
                self.runtimes.insert(i, runtime);
                proof {
                    assert(self.runtimes@ =~= rs.update(i as int, runtime));
                    assert forall|a: int, b: int| 0 <= a < b < self.runtimes@.len() implies chars_lt(
                        #[trigger] self.runtimes@[a].kernel(),
                        #[trigger] self.runtimes@[b].kernel(),
                    ) by {
                        assert(rs[a].kernel() == self.runtimes@[a].kernel());
                        assert(rs[b].kernel() == self.runtimes@[b].kernel());
                    }
                    assert forall|j: int| 0 <= j < self.runtimes@.len() implies (#[trigger] self.runtimes@[j]).wf() by {
                        if j != i {
                            assert(self.runtimes@[j] == rs[j]);
                            assert(old(self).runtimes@[j].wf());
                        }
                    }
                }
                return Some(previous);
            }
            if order == KeyOrder::Before {
                proof {
                    lemma_insert_sorted(rs, runtime, i as int);
                    assert forall|j: int| 0 <= j < rs.len() implies !runtime_has_key(k)(#[trigger] rs[j]) by {
                        if j < i {
                            lemma_lt_irreflexive(k);
                        } else if j > i {
                            lemma_lt_transitive(k, rs[i as int].kernel(), rs[j].kernel());
                            lemma_lt_irreflexive(k);
                        } else {
                            lemma_lt_irreflexive(k);
                        }
                    }
                    lemma_find_first_none(rs, runtime_has_key(k));
                }
                self.runtimes.insert(i, runtime);
                proof {
                    assert forall|j: int| 0 <= j < self.runtimes@.len() implies (#[trigger] self.runtimes@[j]).wf() by {
                        if j < i {
                            assert(self.runtimes@[j] == rs[j]);
                            assert(old(self).runtimes@[j].wf());
                        } else if j > i {
                            assert(self.runtimes@[j] == rs[j - 1]);
                            assert(old(self).runtimes@[j - 1].wf());
                        }
                    }
                }
                return None;
            }
            i = i + 1;
        }
        proof {
            lemma_insert_sorted(rs, runtime, n as int);
            assert forall|j: int| 0 <= j < rs.len() implies !runtime_has_key(k)(#[trigger] rs[j]) by {
                lemma_lt_irreflexive(k);
            }
            lemma_find_first_none(rs, runtime_has_key(k));
            assert(rs.insert(n as int, runtime) =~= rs.push(runtime));
        }
        self.runtimes.push(runtime);
        proof {
            assert forall|j: int| 0 <= j < self.runtimes@.len() implies (#[trigger] self.runtimes@[j]).wf() by {
                if j < n {
                    assert(self.runtimes@[j] == rs[j]);
                    assert(old(self).runtimes@[j].wf());
                }
            }
        }
        None
    }

    /// Removes and hands back the runtime of a turn, if it is active.
    pub fn remove_runtime(&mut self, session_id: &str, turn_number: u32) -> (removed: Option<SessionTurnRuntime>)
        requires
            old(self).wf(),
        ensures
            final(self).wf(),
            final(self).last_flush == old(self).last_flush,
            ({
                let i = old(self).index_of(runtime_key_spec(session_id@, turn_number as nat));
                if i >= 0 {
                    &&& removed == Some(old(self).runtimes@[i])
                    &&& final(self).runtimes@ == old(self).runtimes@.remove(i)
                } else {
                    &&& removed is None
                    &&& final(self).runtimes@ == old(self).runtimes@
                }
            }),
    {
        match self.index_of_turn(session_id, turn_number) {
            Some(i) => {
                let ghost rs = self.runtimes@;
                let r = self.runtimes.remove(i);
                proof {
                    let t = self.runtimes@;
                    assert forall|a: int, b: int| 0 <= a < b < t.len() implies chars_lt(#[trigger] t[a].kernel(), #[trigger] t[b].kernel()) by {
                        if b < i {
                            assert(t[a] == rs[a] && t[b] == rs[b]);
                        } else if a < i {
                            assert(t[a] == rs[a] && t[b] == rs[b + 1]);
                        } else {
                            assert(t[a] == rs[a + 1] && t[b] == rs[b + 1]);
                        }
                    }
                    assert forall|j: int| 0 <= j < t.len() implies (#[trigger] t[j]).wf() by {
                        if j < i {
                            assert(t[j] == rs[j]);
                        } else {
                            assert(t[j] == rs[j + 1]);
                        }
                    }
                }
                Some(r)
            },
            None => None,
        }
    }
}

/// Replacing a runtime by one with the same key keeps the runtimes in order.
pub(crate) proof fn lemma_update_same_key(rs: Seq<SessionTurnRuntime>, i: int, r: SessionTurnRuntime)
    requires
        sorted_by_key(rs),
        0 <= i < rs.len(),
        r.kernel() == rs[i].kernel(),
    ensures
        sorted_by_key(rs.update(i, r)),
        forall|k: Seq<char>| find_first(rs.update(i, r), runtime_has_key(k)) == #[trigger] find_first(rs, runtime_has_key(k)),
{
    let t = rs.update(i, r);
    assert forall|a: int, b: int| 0 <= a < b < t.len() implies chars_lt(#[trigger] t[a].kernel(), #[trigger] t[b].kernel()) by {
        assert(t[a].kernel() == rs[a].kernel());
        assert(t[b].kernel() == rs[b].kernel());
    }
    assert forall|k: Seq<char>| find_first(t, runtime_has_key(k)) == #[trigger] find_first(rs, runtime_has_key(k)) by {
        let p = runtime_has_key(k);
        lemma_find_first(rs, p);
        assert forall|j: int| 0 <= j < t.len() implies p(#[trigger] t[j]) == p(rs[j]) by {
            assert(t[j].kernel() == rs[j].kernel());
        }
        let f = find_first(rs, p);
        if f >= 0 {
            assert forall|j: int| 0 <= j < f implies !p(#[trigger] t[j]) by {
                assert(!p(rs[j]));
                assert(t[j].kernel() == rs[j].kernel());
            }
            assert(t[f].kernel() == rs[f].kernel());
            lemma_find_first_is(t, p, f);
        } else {
            assert forall|j: int| 0 <= j < t.len() implies !p(#[trigger] t[j]) by {
                assert(!p(rs[j]));
                assert(t[j].kernel() == rs[j].kernel());
            }
            lemma_find_first_none(t, p);
        }
    }
}

impl RuntimeStore {
    /// The store after the runtime at `i` was replaced by `r` of the same key.
    pub open spec fn updated_at(a: &Self, b: &Self, i: int, r: SessionTurnRuntime) -> bool {
        &&& 0 <= i < a.runtimes@.len()
        &&& b.runtimes@ == a.runtimes@.update(i, r)
    }

    /// Takes the next reserved event sequence number of an active turn.
    pub fn take_reserved_session_event_seq(&mut self, session_id: &str, turn_number: u32) -> (taken: Option<u64>)
        requires
            old(self).wf(),
        ensures
            final(self).wf(),
            final(self).last_flush == old(self).last_flush,
            ({
                let i = old(self).index_of(runtime_key_spec(session_id@, turn_number as nat));
                if i >= 0 {
                    exists|r: SessionTurnRuntime|
                        Self::updated_at(old(self), final(self), i, r) && #[trigger] SessionTurnRuntime::took_event_seq(
                            &old(self).runtimes@[i],
                            &r,
                            taken,
                        )
                } else {
                    taken is None && final(self).runtimes@ == old(self).runtimes@
                }
            }),
    {
        match self.index_of_turn(session_id, turn_number) {
            Some(i) => {
                let ghost rs = self.runtimes@;
                let mut r = self.runtimes.remove(i);
                proof { assert(r.wf()); }
                let taken = r.take_reserved_event_seq();
                let ghost r2 = r;
                self.runtimes.insert(i, r);
                proof {
                    assert(self.runtimes@ =~= rs.update(i as int, r2));
                    lemma_update_same_key(rs, i as int, r2);
                    assert forall|j: int| 0 <= j < self.runtimes@.len() implies (#[trigger] self.runtimes@[j]).wf() by {
                        if j != i {
                            assert(self.runtimes@[j] == rs[j]);
                        }
                    }
                    assert(Self::updated_at(old(self), self, i as int, r2));
                }
                taken
            },
            None => None,
        }
    }

    /// `b` is `a` after recording a change of `delta` units of
    /// `resource_key` for `participant_id` (with an optional ledger line) in
    /// the turn's runtime; nothing changes for a turn that is not active.
    pub open spec fn resource_recorded(
        a: &Self,
        b: &Self,
        session_id: Seq<char>,
        turn_number: u32,
        participant_id: Seq<char>,
        resource_key: Seq<char>,
        delta: i64,
        ledger: Option<crate::runtime_types::ResourceLedgerDelta>,
        now_ms: u64,
    ) -> bool {
        let i = a.index_of(runtime_key_spec(session_id, turn_number as nat));
        &&& b.last_flush == a.last_flush
        &&& if i >= 0 {
            exists|r: SessionTurnRuntime|
                Self::updated_at(a, b, i, r) && #[trigger] SessionTurnRuntime::recorded_resource(
                    &a.runtimes@[i],
                    &r,
                    participant_id,
                    resource_key,
                    delta,
                    ledger,
                    now_ms,
                )
        } else {
            b.runtimes@ == a.runtimes@
        }
    }

    /// Records a change of one resource, with an optional ledger line.
    fn record_resource_change(
        &mut self,
        session_id: &str,
        turn_number: u32,
        participant_id: &str,
        resource_key: &str,
        delta: i64,
        ledger: Option<crate::runtime_types::ResourceLedgerDelta>,
        now_ms: u64,
    )
        requires
            old(self).wf(),
        ensures
            final(self).wf(),
            Self::resource_recorded(old(self), final(self), session_id@, turn_number, participant_id@, resource_key@, delta, ledger, now_ms),
    {
        match self.index_of_turn(session_id, turn_number) {
            Some(i) => {
                let ghost rs = self.runtimes@;
                let mut r = self.runtimes.remove(i);
                proof { assert(r.wf()); }
                r.record_resource(participant_id, resource_key, delta, ledger, now_ms);
                let ghost r2 = r;
                self.runtimes.insert(i, r);
                proof {
                    assert(self.runtimes@ =~= rs.update(i as int, r2));
                    lemma_update_same_key(rs, i as int, r2);
                    assert forall|j: int| 0 <= j < self.runtimes@.len() implies (#[trigger] self.runtimes@[j]).wf() by {
                        if j != i {
                            assert(self.runtimes@[j] == rs[j]);
                        }
                    }
                    assert(Self::updated_at(old(self), self, i as int, r2));
                }
            },
            None => {},
        }
    }

    /// Records a change of one resource in an active turn; nothing happens
    /// for a turn that is not active or an unknown resource name.
    pub fn record_resource_delta(
        &mut self,
        session_id: &str,
        turn_number: u32,
        participant_id: &str,
        resource_key: &str,
        delta: i64,
        now_ms: u64,
    )
        requires
            old(self).wf(),
        ensures
            final(self).wf(),
            Self::resource_recorded(old(self), final(self), session_id@, turn_number, participant_id@, resource_key@, delta, None, now_ms),
    {
        self.record_resource_change(session_id, turn_number, participant_id, resource_key, delta, None, now_ms);
    }

    /// Records a change of one resource in an active turn together with the
    /// ledger line behind it; nothing happens for a turn that is not active
    /// or an unknown resource name.
    pub fn record_resource_ledger_delta(
        &mut self,
        session_id: &str,
        turn_number: u32,
        participant_id: &str,
        command_id: &str,
        ledger_key: String,
        resource_key: &str,
        delta: i64,
        balance_after: u64,
        reason: &str,
        now_ms: u64,
    )
        requires
            old(self).wf(),
        ensures
            final(self).wf(),
            exists|ledger: crate::runtime_types::ResourceLedgerDelta|
                ledger.command_id@ == command_id@ && ledger.ledger_key == ledger_key
                    && ledger.resource_key@ == resource_key@ && ledger.delta == delta
                    && ledger.balance_after == balance_after && ledger.reason@ == reason@
                    && #[trigger] Self::resource_recorded(
                    old(self),
                    final(self),
                    session_id@,
                    turn_number,
                    participant_id@,
                    resource_key@,
                    delta,
                    Some(ledger),
                    now_ms,
                ),
    {
        let ledger = crate::runtime_types::ResourceLedgerDelta {
            command_id: command_id.to_owned(),
            ledger_key,
            resource_key: resource_key.to_owned(),
            delta,
            balance_after,
            reason: reason.to_owned(),
        };
        let ghost l = ledger;
        self.record_resource_change(session_id, turn_number, participant_id, resource_key, delta, Some(ledger), now_ms);
        proof {
            assert(Self::resource_recorded(old(self), self, session_id@, turn_number, participant_id@, resource_key@, delta, Some(l), now_ms));
        }
    }

    /// Marks a participant ready in an active turn; `None` when the turn is
    /// not active, else whether the participant was not ready before.
    pub fn mark_participant_ready(
        &mut self,
        session_id: &str,
        turn_number: u32,
        participant_id: String,
        now_ms: u64,
    ) -> (inserted: Option<bool>)
        requires
            old(self).wf(),
        ensures
            final(self).wf(),
            final(self).last_flush == old(self).last_flush,
            ({
                let i = old(self).index_of(runtime_key_spec(session_id@, turn_number as nat));
                if i >= 0 {
                    &&& inserted is Some
                    &&& exists|r: SessionTurnRuntime|
                        Self::updated_at(old(self), final(self), i, r) && #[trigger] SessionTurnRuntime::marked_ready(
                            &old(self).runtimes@[i],
                            &r,
                            participant_id@,
                            inserted->0,
                            now_ms,
                        )
                } else {
                    inserted is None && final(self).runtimes@ == old(self).runtimes@
                }
            }),
    {
        match self.index_of_turn(session_id, turn_number) {
            Some(i) => {
                let ghost rs = self.runtimes@;
                let mut r = self.runtimes.remove(i);
                proof { assert(r.wf()); }
                let ghost r1 = r;
                let ghost pid = participant_id@;
                let inserted = r.mark_ready(participant_id, now_ms);
                let ghost r2 = r;
                proof {
                    assert(r1 == rs[i as int]);
                    assert(SessionTurnRuntime::marked_ready(&r1, &r2, pid, inserted, now_ms));
                }
                self.runtimes.insert(i, r);
                proof {
                    assert(self.runtimes@ =~= rs.update(i as int, r2));
                    lemma_update_same_key(rs, i as int, r2);
                    assert forall|j: int| 0 <= j < self.runtimes@.len() implies (#[trigger] self.runtimes@[j]).wf() by {
                        if j != i {
                            assert(self.runtimes@[j] == rs[j]);
                        }
                    }
                    assert(Self::updated_at(old(self), self, i as int, r2));
                    let res = Some(inserted);
                    assert(res->0 == inserted);
                    assert(Self::updated_at(old(self), self, i as int, r2) && SessionTurnRuntime::marked_ready(
                        &old(self).runtimes@[i as int], &r2, pid, res->0, now_ms));
                }
                Some(inserted)
            },
            None => None,
        }
    }

    /// Completes the projection of one dirty entry: the runtime it belongs
    /// to drops the entry's record from its queue (marking a matching event
    /// written out) and refreshes its checkpoint at `now_ms`. An entry of a
    /// runtime that is no longer active changes nothing.
    pub fn complete_projection_dirty_entry(&mut self, entry: &crate::runtime_types::ProjectionDirtyEntry, now_ms: u64)
        requires
            old(self).wf(),
        ensures
            final(self).wf(),
            final(self).last_flush == old(self).last_flush,
            ({
                let i = old(self).index_of(entry.kernel_id@);
                if i >= 0 {
                    exists|r: SessionTurnRuntime|
                        Self::updated_at(old(self), final(self), i, r) && #[trigger] SessionTurnRuntime::completed_entry(
                            &old(self).runtimes@[i],
                            &r,
                            entry.entity,
                            entry.key@,
                            now_ms,
                        )
                } else {
                    final(self).runtimes@ == old(self).runtimes@
                }
            }),
    {
        let key = chars_of(entry.kernel_id.as_str());
        match self.find_index(&key) {
            Some(i) => {
                let ghost rs = self.runtimes@;
                let mut r = self.runtimes.remove(i);
                proof { assert(r.wf()); }
                r.complete_projection_entry(entry.entity, entry.key.as_str(), now_ms);
                let ghost r2 = r;
                self.runtimes.insert(i, r);
                proof {
                    assert(self.runtimes@ =~= rs.update(i as int, r2));
                    lemma_update_same_key(rs, i as int, r2);
                    assert forall|j: int| 0 <= j < self.runtimes@.len() implies (#[trigger] self.runtimes@[j]).wf() by {
                        if j != i {
                            assert(self.runtimes@[j] == rs[j]);
                        }
                    }
                    assert(Self::updated_at(old(self), self, i as int, r2));
                }
            },
            None => {},
        }
    }
}

/// Largest turn number among the runtimes of session `session_id`.
pub open spec fn latest_turn(rs: Seq<SessionTurnRuntime>, session_id: Seq<char>) -> Option<u32>
    decreases rs.len(),
{
    if rs.len() == 0 {
        None
    } else {
        let rest = latest_turn(rs.drop_last(), session_id);
        let r = rs.last();
        if r.session_id@ == session_id {
            match rest {
                Some(t) => Some(if t >= r.turn_number { t } else { r.turn_number }),
                None => Some(r.turn_number),
            }
        } else {
            rest
        }
    }
}

/// The events of `events` not yet written out, for `audience_key`, with a
/// sequence number above `after_event_seq`, in order.
pub open spec fn visible_events(events: Seq<SessionTurnEvent>, audience_key: Seq<char>, after_event_seq: u64) -> Seq<RuntimeEventView>
    decreases events.len(),
{
    if events.len() == 0 {
        Seq::empty()
    } else {
        let rest = visible_events(events.drop_last(), audience_key, after_event_seq);
        let e = events.last();
        if !e.flushed && e.event.audience_key@ == audience_key && e.event.event_seq > after_event_seq {
            rest.push(e.event)
        } else {
            rest
        }
    }
}

/// The events of `visible_events` over all runtimes of a session, in key order.
pub open spec fn session_events(rs: Seq<SessionTurnRuntime>, session_id: Seq<char>, audience_key: Seq<char>, after_event_seq: u64) -> Seq<RuntimeEventView>
    decreases rs.len(),
{
    if rs.len() == 0 {
        Seq::empty()
    } else {
        let rest = session_events(rs.drop_last(), session_id, audience_key, after_event_seq);
        let r = rs.last();
        if r.session_id@ == session_id {
            rest + visible_events(r.active_events@, audience_key, after_event_seq)
        } else {
            rest
        }
    }
}

/// Every dirty entry of every runtime, in key order.
pub open spec fn all_dirty(rs: Seq<SessionTurnRuntime>) -> Seq<DirtyEntryView>
    decreases rs.len(),
{
    if rs.len() == 0 {
        Seq::empty()
    } else {
        all_dirty(rs.drop_last()) + rs.last().queue()
    }
}

impl RuntimeEventView {
    /// A copy of the event.
    pub fn copy_view(&self) -> (copy: Self)
        ensures
            copy == *self,
    {
        RuntimeEventView {
            session_id: self.session_id.clone(),
            event_seq: self.event_seq,
            event_key: self.event_key.clone(),
            audience_key: self.audience_key.clone(),
            turn_number: self.turn_number,
            event_type: self.event_type.clone(),
            subject_kind: copy_opt(&self.subject_kind),
            subject_id_text: copy_opt(&self.subject_id_text),
            payload: copy_opt(&self.payload),
            redacted: self.redacted,
        }
    }
}

/// A copy of an optional string.
pub fn copy_opt(s: &Option<String>) -> (copy: Option<String>)
    ensures
        copy == *s,
{
    match s {
        Some(t) => Some(t.clone()),
        None => None,
    }
}

/// Whether a string equals a string slice.
fn string_is(s: &String, t: &str) -> (eq: bool)
    ensures
        eq == (s@ == t@),
{
    crate::text::str_eq(s.as_str(), t)
}

/// Appends the visible events of one runtime to `out`.
fn push_visible_events(out: &mut Vec<RuntimeEventView>, events: &Vec<SessionTurnEvent>, audience_key: &str, after_event_seq: u64)
    ensures
        final(out)@ == old(out)@ + visible_events(events@, audience_key@, after_event_seq),
{
    let n = events.len();
    let mut i: usize = 0;
    while i < n
        invariant
            n == events@.len(),
            i <= n,
            out@ == old(out)@ + visible_events(events@.take(i as int), audience_key@, after_event_seq),
        decreases n - i,
    {
        let e = &events[i];
        if !e.flushed && string_is(&e.event.audience_key, audience_key) && e.event.event_seq > after_event_seq {
            out.push(e.event.copy_view());
        }
        proof {
            let t = events@.take(i as int + 1);
            assert(t.drop_last() =~= events@.take(i as int));
            assert(t.last() == events@[i as int]);
        }
        i = i + 1;
        proof {
            assert(out@ =~= old(out)@ + visible_events(events@.take(i as int), audience_key@, after_event_seq));
        }
    }
    assert(events@.take(n as int) =~= events@);
}

/// Whether some string of `v` has the characters of `t`.
pub fn contains_str(v: &Vec<String>, t: &str) -> (found: bool)
    ensures
        found == strings_contain(v@, t@),
{
    let n = v.len();
    let mut i: usize = 0;
    while i < n
        invariant
            n == v@.len(),
            i <= n,
            forall|j: int| 0 <= j < i ==> (#[trigger] v@[j])@ != t@,
        decreases n - i,
    {
        if string_is(&v[i], t) {
            proof {
                assert(v@[i as int]@ == t@);
            }
            return true;
        }
        i = i + 1;
    }
    proof {
        if strings_contain(v@, t@) {
            let k = choose|k: int| 0 <= k < v@.len() && #[trigger] v@[k]@ == t@;
            assert(v@[k]@ != t@);
        }
    }
    false
}

impl RuntimeStore {
    /// Whether an active turn exists and has recorded no object change.
    pub fn runtime_object_deltas_empty(&self, session_id: &str, turn_number: u32) -> (empty: bool)
        requires
            self.wf(),
        ensures
            empty == match self.lookup(runtime_key_spec(session_id@, turn_number as nat)) {
                Some(r) => r.object_deltas@.len() == 0,
                None => false,
            },
    {
        match self.get_runtime(session_id, turn_number) {
            Some(r) => r.object_deltas.len() == 0,
            None => false,
        }
    }

    /// Whether an active turn exists and `participant_id` is ready in it.
    pub fn participant_ready(&self, session_id: &str, turn_number: u32, participant_id: &str) -> (ready: bool)
        requires
            self.wf(),
        ensures
            ready == match self.lookup(runtime_key_spec(session_id@, turn_number as nat)) {
                Some(r) => strings_contain(r.ready_participants@, participant_id@),
                None => false,
            },
    {
        match self.get_runtime(session_id, turn_number) {
            Some(r) => contains_str(&r.ready_participants, participant_id),
            None => false,
        }
    }

    /// The latest active turn number of a session.
    pub fn latest_turn_number_for_session(&self, session_id: &str) -> (latest: Option<u32>)
        ensures
            latest == latest_turn(self.runtimes@, session_id@),
    {
        let n = self.runtimes.len();
        let mut latest: Option<u32> = None;
        let mut i: usize = 0;
        while i < n
            invariant
                n == self.runtimes@.len(),
                i <= n,
                latest == latest_turn(self.runtimes@.take(i as int), session_id@),
            decreases n - i,
        {
            let r = &self.runtimes[i];
            if string_is(&r.session_id, session_id) {
                latest = match latest {
                    Some(t) => Some(if t >= r.turn_number { t } else { r.turn_number }),
                    None => Some(r.turn_number),
                };
            }
            proof {
                let t = self.runtimes@.take(i as int + 1);
                assert(t.drop_last() =~= self.runtimes@.take(i as int));
                assert(t.last() == self.runtimes@[i as int]);
            }
            i = i + 1;
        }
        assert(self.runtimes@.take(n as int) =~= self.runtimes@);
        latest
    }

    /// Events of a session not yet written out, for one audience, after a
    /// sequence number, over all its active turns in key order.
    pub fn active_events_after(&self, session_id: &str, audience_key: &str, after_event_seq: u64) -> (events: Vec<RuntimeEventView>)
        ensures
            events@ == session_events(self.runtimes@, session_id@, audience_key@, after_event_seq),
    {
        let n = self.runtimes.len();
        let mut out: Vec<RuntimeEventView> = Vec::new();
        let mut i: usize = 0;
        while i < n
            invariant
                n == self.runtimes@.len(),
                i <= n,
                out@ == session_events(self.runtimes@.take(i as int), session_id@, audience_key@, after_event_seq),
            decreases n - i,
        {
            let r = &self.runtimes[i];
            if string_is(&r.session_id, session_id) {
                push_visible_events(&mut out, &r.active_events, audience_key, after_event_seq);
            }
            proof {
                let t = self.runtimes@.take(i as int + 1);
                assert(t.drop_last() =~= self.runtimes@.take(i as int));
                assert(t.last() == self.runtimes@[i as int]);
            }
            i = i + 1;
        }
        assert(self.runtimes@.take(n as int) =~= self.runtimes@);
        out
    }

    /// Copies of every dirty entry of every runtime, in key order.
    pub fn projection_dirty_queue_snapshot(&self) -> (entries: Vec<ProjectionDirtyEntry>)
        ensures
            entries@.map_values(|e: ProjectionDirtyEntry| e@) == all_dirty(self.runtimes@),
    {
        let n = self.runtimes.len();
        let mut out: Vec<ProjectionDirtyEntry> = Vec::new();
        let mut i: usize = 0;
        while i < n
            invariant
                n == self.runtimes@.len(),
                i <= n,
                out@.map_values(|e: ProjectionDirtyEntry| e@) == all_dirty(self.runtimes@.take(i as int)),
            decreases n - i,
        {
            let q = &self.runtimes[i].projection_dirty_queue;
            let ghost before = out@.map_values(|e: ProjectionDirtyEntry| e@);
            let m = q.len();
            let mut j: usize = 0;
            while j < m
                invariant
                    m == q@.len(),
                    j <= m,
                    out@.map_values(|e: ProjectionDirtyEntry| e@) == before + q@.take(j as int).map_values(|e: ProjectionDirtyEntry| e@),
                decreases m - j,
            {
                let ghost out0 = out@;
                let c = q[j].copy_entry();
                out.push(c);
                proof {
                    assert(out@.map_values(|e: ProjectionDirtyEntry| e@) =~= out0.map_values(|e: ProjectionDirtyEntry| e@).push(c@));
                    assert(q@.take(j as int + 1).map_values(|e: ProjectionDirtyEntry| e@) =~= q@.take(j as int).map_values(|e: ProjectionDirtyEntry| e@).push(q@[j as int]@));
                    assert(out@.map_values(|e: ProjectionDirtyEntry| e@) =~= before + q@.take(j as int + 1).map_values(|e: ProjectionDirtyEntry| e@));
                }
                j = j + 1;
            }
            proof {
                assert(q@.take(m as int) =~= q@);
                let t = self.runtimes@.take(i as int + 1);
                assert(t.drop_last() =~= self.runtimes@.take(i as int));
                assert(t.last() == self.runtimes@[i as int]);
            }
            i = i + 1;
        }
        assert(self.runtimes@.take(n as int) =~= self.runtimes@);
        out
    }

    /// Copies of the checkpoints of every runtime, in key order.
    pub fn projection_checkpoints_snapshot(&self) -> (checkpoints: Vec<ProjectionCheckpoint>)
        ensures
            checkpoints@.len() == self.runtimes@.len(),
            forall|i: int| 0 <= i < checkpoints@.len() ==> (#[trigger] checkpoints@[i])@ == self.runtimes@[i].projection_checkpoint@,
    {
        let n = self.runtimes.len();
        let mut out: Vec<ProjectionCheckpoint> = Vec::new();
        let mut i: usize = 0;
        while i < n
            invariant
                n == self.runtimes@.len(),
                i <= n,
                out@.len() == i,
                forall|j: int| 0 <= j < i ==> (#[trigger] out@[j])@ == self.runtimes@[j].projection_checkpoint@,
            decreases n - i,
        {
            out.push(self.runtimes[i].projection_checkpoint.copy_checkpoint());
            i = i + 1;
        }
        out
    }
}

/// Whether `r` holds the receipt of command `command_id`.
pub open spec fn has_receipt_id(command_id: Seq<char>) -> spec_fn(SessionTurnCommandReceipt) -> bool {
    |r: SessionTurnCommandReceipt| r.command_id@ == command_id
}

/// First receipt of a runtime sequence, over the runtimes of a session in
/// key order, that satisfies `p`: the runtime index and receipt index.
pub open spec fn first_receipt(rs: Seq<SessionTurnRuntime>, session_id: Seq<char>, p: spec_fn(SessionTurnCommandReceipt) -> bool) -> Option<(int, int)>
    decreases rs.len(),
{
    if rs.len() == 0 {
        None
    } else {
        match first_receipt(rs.drop_last(), session_id, p) {
            Some(found) => Some(found),
            None => {
                let r = rs.last();
                let j = find_first(r.command_receipts@, p);
                if r.session_id@ == session_id && j >= 0 {
                    Some((rs.len() - 1, j))
                } else {
                    None
                }
            },
        }
    }
}

/// Index of the first receipt of `v` with id `command_id`.
fn receipt_index_by_id(v: &Vec<SessionTurnCommandReceipt>, command_id: &str) -> (found: Option<usize>)
    ensures
        match found {
            Some(j) => j < v@.len() && j as int == find_first(v@, has_receipt_id(command_id@)),
            None => find_first(v@, has_receipt_id(command_id@)) == -1,
        },
{
    let ghost p = has_receipt_id(command_id@);
    let n = v.len();
    let mut i: usize = 0;
    while i < n
        invariant
            n == v@.len(),
            i <= n,
            p == has_receipt_id(command_id@),
            forall|j: int| 0 <= j < i ==> !p(#[trigger] v@[j]),
        decreases n - i,
    {
        if string_is(&v[i].command_id, command_id) {
            proof { lemma_find_first_is(v@, p, i as int); }
            return Some(i);
        }
        i = i + 1;
    }
    proof { lemma_find_first_none(v@, p); }
    None
}

impl RuntimeStore {
    /// The receipt of command `command_id` in an active turn of a session:
    /// the first one found, over the session's runtimes in key order.
    pub fn command_receipt_by_id(&self, session_id: &str, command_id: &str) -> (found: Option<&SessionTurnCommandReceipt>)
        ensures
            match first_receipt(self.runtimes@, session_id@, has_receipt_id(command_id@)) {
                Some((i, j)) => found == Some(&self.runtimes@[i].command_receipts@[j]),
                None => found is None,
            },
    {
        let n = self.runtimes.len();
        let mut i: usize = 0;
        while i < n
            invariant
                n == self.runtimes@.len(),
                i <= n,
                first_receipt(self.runtimes@.take(i as int), session_id@, has_receipt_id(command_id@)) is None,
            decreases n - i,
        {
            let r = &self.runtimes[i];
            proof {
                let t = self.runtimes@.take(i as int + 1);
                assert(t.drop_last() =~= self.runtimes@.take(i as int));
                assert(t.last() == self.runtimes@[i as int]);
            }
            if string_is(&r.session_id, session_id) {
                match receipt_index_by_id(&r.command_receipts, command_id) {
                    Some(j) => {
                        proof {
                            lemma_first_receipt_prefix(self.runtimes@, session_id@, has_receipt_id(command_id@), i as int + 1);
                        }
                        return Some(&r.command_receipts[j]);
                    },
                    None => {},
                }
            }
            i = i + 1;
        }
        assert(self.runtimes@.take(n as int) =~= self.runtimes@);
        None
    }

    /// The receipt of `actor_participant_id`'s command with nonce
    /// `client_nonce` in an active turn of a session: the first one found,
    /// over the session's runtimes in key order.
    pub fn command_receipt_by_nonce(&self, session_id: &str, actor_participant_id: &str, client_nonce: u64) -> (found: Option<&SessionTurnCommandReceipt>)
        ensures
            match first_receipt(self.runtimes@, session_id@, receipt_for_nonce(actor_participant_id@, client_nonce)) {
                Some((i, j)) => found == Some(&self.runtimes@[i].command_receipts@[j]),
                None => found is None,
            },
    {
        let n = self.runtimes.len();
        let mut i: usize = 0;
        while i < n
            invariant
                n == self.runtimes@.len(),
                i <= n,
                first_receipt(self.runtimes@.take(i as int), session_id@, receipt_for_nonce(actor_participant_id@, client_nonce)) is None,
            decreases n - i,
        {
            let r = &self.runtimes[i];
            proof {
                let t = self.runtimes@.take(i as int + 1);
                assert(t.drop_last() =~= self.runtimes@.take(i as int));
                assert(t.last() == self.runtimes@[i as int]);
            }
            if string_is(&r.session_id, session_id) {
                match r.command_receipt_by_nonce(actor_participant_id, client_nonce) {
                    Some(found) => {
                        proof {
                            lemma_first_receipt_prefix(self.runtimes@, session_id@, receipt_for_nonce(actor_participant_id@, client_nonce), i as int + 1);
                        }
                        return Some(found);
                    },
                    None => {},
                }
            }
            i = i + 1;
        }
        assert(self.runtimes@.take(n as int) =~= self.runtimes@);
        None
    }
}

/// A receipt found in a prefix is the one found in the whole sequence.
proof fn lemma_first_receipt_prefix(rs: Seq<SessionTurnRuntime>, session_id: Seq<char>, p: spec_fn(SessionTurnCommandReceipt) -> bool, k: int)
    requires
        0 <= k <= rs.len(),
        first_receipt(rs.take(k), session_id, p) is Some,
    ensures
        first_receipt(rs, session_id, p) == first_receipt(rs.take(k), session_id, p),
    decreases rs.len() - k,
{
    if k < rs.len() {
        assert(rs.take(k + 1).drop_last() =~= rs.take(k));
        lemma_first_receipt_prefix(rs, session_id, p, k + 1);
    } else {
        assert(rs.take(k) =~= rs);
    }
}

impl RuntimeStore {
    /// Projection lag of every active runtime at `now_ms`, in key order (so
    /// in order of kernel id), with the total queue length, the largest age
    /// of an oldest pending change, and the report of the last flush.
    pub fn projection_diagnostic_snapshot(&self, now_ms: u64) -> (snapshot: ProjectionDiagnosticSnapshot)
        requires
            self.wf(),
            total_dirty_len(self.runtimes@) <= usize::MAX,
        ensures
            snapshot.kernels@.len() == self.runtimes@.len(),
            forall|i: int| 0 <= i < snapshot.kernels@.len() ==> {
                let d = #[trigger] snapshot.kernels@[i];
                let r = self.runtimes@[i];
                &&& d.kernel_id@ == r.kernel()
                &&& d.session_id@ == r.session_id@
                &&& d.turn_number == r.turn_number
                &&& d.dirty_queue_len == r.projection_dirty_queue@.len()
                &&& d.oldest_dirty_age_ms == oldest_age(r.queue(), now_ms)
                &&& d.kernel_generation == r.generation
                &&& d.flushed_generation == r.projection_checkpoint.flushed_generation
                &&& d.lag_generations == crate::projection::sat_sub(r.generation, r.projection_checkpoint.flushed_generation)
                &&& d.lag_ms == match oldest_age(r.queue(), now_ms) {
                    Some(a) => a,
                    None => 0,
                }
                &&& d.flushed_at_ms == r.projection_checkpoint.flushed_at_ms
                &&& d.pending_entries == r.projection_checkpoint.pending_entries
            },
            forall|i: int, j: int| 0 <= i < j < snapshot.kernels@.len() ==> chars_lt(
                (#[trigger] snapshot.kernels@[i]).kernel_id@,
                (#[trigger] snapshot.kernels@[j]).kernel_id@,
            ),
            snapshot.total_dirty_queue_len == total_dirty_len(self.runtimes@),
            snapshot.oldest_dirty_age_ms == max_oldest_age(self.runtimes@, now_ms),
            snapshot.last_flush == self.last_flush,
    {
        let n = self.runtimes.len();
        let mut kernels: Vec<ProjectionKernelDiagnostic> = Vec::new();
        let mut total: usize = 0;
        let mut oldest: Option<u64> = None;
        let mut i: usize = 0;
        while i < n
            invariant
                n == self.runtimes@.len(),
                i <= n,
                total_dirty_len(self.runtimes@) <= usize::MAX,
                kernels@.len() == i,
                forall|k: int| 0 <= k < i ==> {
                    let d = #[trigger] kernels@[k];
                    let r = self.runtimes@[k];
                    &&& d.kernel_id@ == r.kernel()
                    &&& d.session_id@ == r.session_id@
                    &&& d.turn_number == r.turn_number
                    &&& d.dirty_queue_len == r.projection_dirty_queue@.len()
                    &&& d.oldest_dirty_age_ms == oldest_age(r.queue(), now_ms)
                    &&& d.kernel_generation == r.generation
                    &&& d.flushed_generation == r.projection_checkpoint.flushed_generation
                    &&& d.lag_generations == crate::projection::sat_sub(r.generation, r.projection_checkpoint.flushed_generation)
                    &&& d.lag_ms == match oldest_age(r.queue(), now_ms) {
                        Some(a) => a,
                        None => 0,
                    }
                    &&& d.flushed_at_ms == r.projection_checkpoint.flushed_at_ms
                    &&& d.pending_entries == r.projection_checkpoint.pending_entries
                },
                total == total_dirty_len(self.runtimes@.take(i as int)),
                oldest == max_oldest_age(self.runtimes@.take(i as int), now_ms),
            decreases n - i,
        {
            let d = self.runtimes[i].projection_kernel_diagnostic(now_ms);
            proof {
                let t = self.runtimes@.take(i as int + 1);
                assert(t.drop_last() =~= self.runtimes@.take(i as int));
                assert(t.last() == self.runtimes@[i as int]);
                lemma_total_dirty_prefix(self.runtimes@, i as int + 1);
            }
            total = total + d.dirty_queue_len;
            oldest = match d.oldest_dirty_age_ms {
                Some(a) => match oldest {
                    Some(m) => Some(if m >= a { m } else { a }),
                    None => Some(a),
                },
                None => oldest,
            };
            kernels.push(d);
            i = i + 1;
        }
        proof {
            assert(self.runtimes@.take(n as int) =~= self.runtimes@);
        }
        ProjectionDiagnosticSnapshot {
            kernels,
            total_dirty_queue_len: total,
            oldest_dirty_age_ms: oldest,
            last_flush: self.last_flush,
        }
    }

    /// Keeps the report of a flush pass that ended at `now_ms`.
    pub fn record_projection_flush_diagnostic(&mut self, outcome: &ProjectionFlushOutcome, now_ms: u64)
        ensures
            final(self).runtimes@ == old(self).runtimes@,
            final(self).last_flush == Some(ProjectionFlushDiagnostic {
                flushed_at_ms: now_ms,
                entries_processed: outcome.entries_processed,
                rows_flushed: outcome.rows_flushed,
                queue_len_before: outcome.queue_len_before,
                queue_len_after: outcome.queue_len_after,
                flush_truncated: outcome.truncated,
                stable_pages_delta: outcome.stable_pages_delta,
                flush_instructions: outcome.instruction_delta,
            }),
    {
        self.last_flush = Some(ProjectionFlushDiagnostic {
            flushed_at_ms: now_ms,
            entries_processed: outcome.entries_processed,
            rows_flushed: outcome.rows_flushed,
            queue_len_before: outcome.queue_len_before,
            queue_len_after: outcome.queue_len_after,
            flush_truncated: outcome.truncated,
            stable_pages_delta: outcome.stable_pages_delta,
            flush_instructions: outcome.instruction_delta,
        });
    }

    /// Drops every runtime and the last flush report.
    pub fn clear_all_for_tests(&mut self)
        ensures
            final(self).wf(),
            final(self).runtimes@.len() == 0,
            final(self).last_flush is None,
    {
        self.runtimes = Vec::new();
        self.last_flush = None;
    }

    /// Hands over every runtime, in key order, for saving across an upgrade.
    pub fn into_snapshot(self) -> (snapshot: SessionTurnRuntimeSnapshot)
        ensures
            snapshot.runtimes@ == self.runtimes@,
    {
        SessionTurnRuntimeSnapshot { runtimes: self.runtimes }
    }

    /// Rebuilds the store from saved runtimes, each inserted under its key
    /// (a later runtime with the same key replaces an earlier one). Saved
    /// runtimes in key order, as `into_snapshot` hands them over, come back
    /// exactly.
    pub fn restore_from_upgrade(snapshot: SessionTurnRuntimeSnapshot) -> (store: Self)
        requires
            forall|i: int| 0 <= i < snapshot.runtimes@.len() ==> (#[trigger] snapshot.runtimes@[i]).wf(),
        ensures
            store.wf(),
            store.last_flush is None,
            store.runtimes@ == inserted_all(Seq::<SessionTurnRuntime>::empty(), snapshot.runtimes@),
            forall|i: int| 0 <= i < snapshot.runtimes@.len() ==> (#[trigger] store.index_of(snapshot.runtimes@[i].kernel())) >= 0,
            sorted_by_key(snapshot.runtimes@) ==> store.runtimes@ == snapshot.runtimes@,
    {
        let ghost input = snapshot.runtimes@;
        let mut store = RuntimeStore::new();
        let mut runtimes = snapshot.runtimes;
        let mut rest: Vec<SessionTurnRuntime> = Vec::new();
        // Reverse so that popping yields the saved order.
        while runtimes.len() > 0
            invariant
                forall|i: int| 0 <= i < runtimes@.len() ==> (#[trigger] runtimes@[i]).wf(),
                forall|i: int| 0 <= i < rest@.len() ==> (#[trigger] rest@[i]).wf(),
                runtimes@ + rest@.reverse() == input,
            decreases runtimes@.len(),
        {
            let r = runtimes.pop().unwrap();
            proof {
                assert(runtimes@.push(r) + rest@.reverse() == input);
            }
            let ghost rest0 = rest@;
            rest.push(r);
            proof {
                assert(rest@.reverse() =~= seq![r] + rest0.reverse());
                assert(runtimes@ + rest@.reverse() =~= runtimes@.push(r) + rest0.reverse());
            }
        }
        proof {
            assert(rest@.reverse() =~= input);
            assert(input.take(0) =~= Seq::<SessionTurnRuntime>::empty());
        }
        let ghost mut done: int = 0;
        while rest.len() > 0
            invariant
                store.wf(),
                store.last_flush is None,
                forall|i: int| 0 <= i < rest@.len() ==> (#[trigger] rest@[i]).wf(),
                0 <= done <= input.len(),
                rest@.reverse() == input.skip(done),
                forall|i: int| 0 <= i < done ==> (#[trigger] store.index_of(input[i].kernel())) >= 0,
                store.runtimes@ == inserted_all(Seq::<SessionTurnRuntime>::empty(), input.take(done)),
                sorted_by_key(input) ==> store.runtimes@ == input.take(done),
            decreases rest@.len(),
        {
            let ghost rest_before = rest@;
            let r = rest.pop().unwrap();
            let ghost before = store;
            proof {
                assert(rest_before == rest@.push(r));
                assert(rest_before.reverse().len() == rest_before.len());
                assert(input.skip(done).len() > 0);
                assert(done < input.len());
                assert(rest_before.reverse()[0] == rest_before[rest_before.len() - 1]);
                assert(input.skip(done)[0] == input[done]);
                assert(input[done] == r);
            }
            store.insert_runtime(r);
            proof {
                assert(input.take(done + 1).drop_last() =~= input.take(done));
                assert(input.take(done + 1).last() == r);
                lemma_present_after_insert(before, store, r);
                assert forall|i: int| 0 <= i < done + 1 implies (#[trigger] store.index_of(input[i].kernel())) >= 0 by {
                    if i < done {
                        lemma_present_kept(before, store, r, input[i].kernel());
                    } else {
                        assert(input[i] == r);
                    }
                }
                if sorted_by_key(input) {
                    lemma_append_in_order(before, r, input, done);
                    assert(store.runtimes@ =~= input.take(done + 1));
                }
                assert(rest@.reverse() =~= input.skip(done + 1)) by {
                    assert(rest@.push(r).reverse() =~= input.skip(done));
                    assert(input.skip(done + 1) =~= input.skip(done).drop_first());
                    assert(rest@.push(r).reverse().drop_first() =~= rest@.reverse());
                }
                done = done + 1;
            }
        }
        proof {
            assert(input.skip(done).len() == 0);
            assert(done == input.len());
            assert(input.take(done) =~= input);
        }
        store
    }
}

/// Prefix sums of queue lengths are bounded by the total.
proof fn lemma_total_dirty_prefix(rs: Seq<SessionTurnRuntime>, k: int)
    requires
        0 <= k <= rs.len(),
    ensures
        total_dirty_len(rs.take(k)) <= total_dirty_len(rs),
    decreases rs.len() - k,
{
    if k < rs.len() {
        lemma_total_dirty_prefix(rs, k + 1);
        assert(rs.take(k + 1).drop_last() =~= rs.take(k));
    } else {
        assert(rs.take(k) =~= rs);
    }
}

/// After inserting `r`, the store has a runtime with its key.
proof fn lemma_present_after_insert(before: RuntimeStore, after: RuntimeStore, r: SessionTurnRuntime)
    requires
        before.wf(),
        ({
            let i = before.index_of(r.kernel());
            if i >= 0 {
                after.runtimes@ == before.runtimes@.update(i, r)
            } else {
                after.runtimes@ == before.runtimes@.insert(insert_position(before.runtimes@, r.kernel()), r)
            }
        }),
    ensures
        after.index_of(r.kernel()) >= 0,
{
    let p = runtime_has_key(r.kernel());
    lemma_find_first(before.runtimes@, p);
    lemma_find_first(after.runtimes@, p);
    let i = before.index_of(r.kernel());
    if i >= 0 {
        assert(p(after.runtimes@[i]));
    } else {
        let pos = insert_position(before.runtimes@, r.kernel());
        lemma_find_first(before.runtimes@, runtime_after(r.kernel()));
        assert(after.runtimes@[pos] == r);
        assert(p(after.runtimes@[pos]));
    }
}

/// A key present before an insert stays present.
proof fn lemma_present_kept(before: RuntimeStore, after: RuntimeStore, r: SessionTurnRuntime, k: Seq<char>)
    requires
        before.wf(),
        before.index_of(k) >= 0,
        ({
            let i = before.index_of(r.kernel());
            if i >= 0 {
                after.runtimes@ == before.runtimes@.update(i, r)
            } else {
                after.runtimes@ == before.runtimes@.insert(insert_position(before.runtimes@, r.kernel()), r)
            }
        }),
    ensures
        after.index_of(k) >= 0,
{
    let p = runtime_has_key(k);
    lemma_find_first(before.runtimes@, p);
    lemma_find_first(after.runtimes@, p);
    let j = before.index_of(k);
    let i = before.index_of(r.kernel());
    lemma_find_first(before.runtimes@, runtime_has_key(r.kernel()));
    if i >= 0 {
        if j == i {
            assert(before.runtimes@[i].kernel() == r.kernel());
            assert(p(after.runtimes@[i]));
        } else {
            assert(p(after.runtimes@[j]));
        }
    } else {
        let pos = insert_position(before.runtimes@, r.kernel());
        lemma_find_first(before.runtimes@, runtime_after(r.kernel()));
        if j < pos {
            assert(after.runtimes@[j] == before.runtimes@[j]);
            assert(p(after.runtimes@[j]));
        } else {
            assert(after.runtimes@[j + 1] == before.runtimes@[j]);
            assert(p(after.runtimes@[j + 1]));
        }
    }
}

/// Inserting the next runtime of a key-ordered sequence appends it.
proof fn lemma_append_in_order(before: RuntimeStore, r: SessionTurnRuntime, input: Seq<SessionTurnRuntime>, done: int)
    requires
        sorted_by_key(input),
        0 <= done < input.len(),
        input[done] == r,
        before.runtimes@ == input.take(done),
    ensures
        before.index_of(r.kernel()) == -1,
        insert_position(before.runtimes@, r.kernel()) == before.runtimes@.len(),
{
    let rs = before.runtimes@;
    assert forall|j: int| 0 <= j < rs.len() implies !runtime_has_key(r.kernel())(#[trigger] rs[j]) && !runtime_after(r.kernel())(rs[j]) by {
        assert(rs[j] == input[j]);
        assert(chars_lt(input[j].kernel(), input[done].kernel()));
        lemma_lt_irreflexive(r.kernel());
        lemma_lt_trichotomy(r.kernel(), input[j].kernel());
    }
    lemma_find_first_none(rs, runtime_has_key(r.kernel()));
    lemma_find_first_none(rs, runtime_after(r.kernel()));
}
} // verus!
