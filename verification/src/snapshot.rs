//! Saving the active turn runtimes across an upgrade: the bytes kept in
//! stable memory, the size bound on them, and the checks made before saved
//! runtimes are taken back.
use vstd::prelude::*;
use crate::dup::Duplicate;
use crate::runtime::{strings_unique, SessionTurnRuntime};
use crate::seqs::{keys_unique_check, Keyed};
use crate::order::{chars_lt, lemma_lt_irreflexive, lemma_lt_trichotomy};
use crate::seqs::{find_first, lemma_find_first_none};
use crate::store::{inserted, inserted_all, insert_position, runtime_after, runtime_has_key, sorted_by_key, RuntimeStore, SessionTurnRuntimeSnapshot};
use crate::text::{dec, push_decimal, push_str};

verus! {

/// Largest encoded snapshot that stable memory keeps, in bytes.
pub const MAX_SESSION_TURN_RUNTIME_SNAPSHOT_BYTES: u32 = 64 * 1024 * 1024;

/// The encoded snapshot kept in stable memory; empty when nothing is saved.
pub struct RawSessionTurnRuntimeSnapshot(pub Vec<u8>);

impl View for RawSessionTurnRuntimeSnapshot {
    type V = Seq<u8>;

    open spec fn view(&self) -> Seq<u8> {
        self.0@
    }
}

impl RawSessionTurnRuntimeSnapshot {
    /// Nothing saved.
    pub fn empty() -> (raw: Self)
        ensures
            raw@ == Seq::<u8>::empty(),
    {
        RawSessionTurnRuntimeSnapshot(Vec::new())
    }

    /// The saved bytes.
    pub fn as_bytes(&self) -> (bytes: &[u8])
        ensures
            bytes@ == self@,
    {
        self.0.as_slice()
    }
}

/// Whether no two strings of `v` are equal.
pub fn strings_unique_check(v: &Vec<String>) -> (ok: bool)
    ensures
        ok == strings_unique(v@),
{
    let n = v.len();
    let mut i: usize = 0;
    while i < n
        invariant
            n == v@.len(),
            i <= n,
            forall|a: int, b: int| 0 <= a < i && 0 <= b < n && a != b ==> #[trigger] v@[a]@ != #[trigger] v@[b]@,
        decreases n - i,
    {
        let mut j: usize = 0;
        while j < n
            invariant
                n == v@.len(),
                i < n,
                j <= n,
                forall|a: int, b: int| 0 <= a < i && 0 <= b < n && a != b ==> #[trigger] v@[a]@ != #[trigger] v@[b]@,
                forall|b: int| 0 <= b < j && b != i ==> v@[i as int]@ != #[trigger] v@[b]@,
            decreases n - j,
        {
            if j != i && v[i] == v[j] {
                proof {
                    assert(v@[i as int]@ == v@[j as int]@);
                }
                return false;
            }
            j = j + 1;
        }
        i = i + 1;
    }
    true
}

impl SessionTurnRuntime {
    /// Whether the runtime is well formed (see `wf`).
    pub fn check_wf(&self) -> (ok: bool)
        ensures
            ok == self.wf(),
    {
        let key = self.key();
        let n = self.projection_dirty_queue.len();
        if self.projection_checkpoint.kernel_id != key || self.projection_checkpoint.pending_entries != n
            || self.projection_checkpoint.flushed_generation > self.generation {
            return false;
        }
        let mut i: usize = 0;
        while i < n
            invariant
                n == self.projection_dirty_queue@.len(),
                i <= n,
                key@ == self.kernel(),
                forall|j: int| 0 <= j < i ==> (#[trigger] self.queue()[j]).kernel_id == self.kernel()
                    && self.queue()[j].generation <= self.generation,
            decreases n - i,
        {
            let e = &self.projection_dirty_queue[i];
            if e.kernel_id != key || e.generation > self.generation {
                proof {
                    assert(self.queue()[i as int] == e@);
                }
                return false;
            }
            proof {
                assert(self.queue()[i as int] == e@);
            }
            i = i + 1;
        }
        let queue_unique = keys_unique_check(&self.projection_dirty_queue);
        proof {
            let q = self.queue();
            let v = self.projection_dirty_queue@;
            assert(forall|j: int| 0 <= j < q.len() ==> #[trigger] q[j] == v[j]@);
            if queue_unique {
                assert forall|a: int, b: int|
                    0 <= a < q.len() && 0 <= b < q.len() && a != b implies !(#[trigger] q[a].entity
                        == #[trigger] q[b].entity && q[a].key == q[b].key) by {
                    assert(v[a].key_view() != v[b].key_view());
                }
            } else {
                let (a, b) = choose|a: int, b: int|
                    0 <= a < v.len() && 0 <= b < v.len() && a != b && #[trigger] v[a].key_view() == #[trigger] v[b].key_view();
                assert(q[a].entity == q[b].entity && q[a].key == q[b].key);
            }
        }
        queue_unique
            && keys_unique_check(&self.participants)
            && strings_unique_check(&self.ready_participants)
            && keys_unique_check(&self.champion_snapshots)
            && keys_unique_check(&self.champion_spell_snapshots)
            && strings_unique_check(&self.complete_champion_spellbooks)
            && keys_unique_check(&self.world_object_snapshots)
            && keys_unique_check(&self.occupancy_index)
            && keys_unique_check(&self.contact_index)
            && keys_unique_check(&self.quest_snapshots)
            && keys_unique_check(&self.scenario_rule_snapshots)
            && keys_unique_check(&self.intents)
            && keys_unique_check(&self.command_receipts)
    }
}


/// Whether every runtime of `rs` is well formed.
pub open spec fn all_wf(rs: Seq<SessionTurnRuntime>) -> bool {
    forall|i: int| 0 <= i < rs.len() ==> (#[trigger] rs[i]).wf()
}

/// What persisting answers when the encoded snapshot is too large.
pub open spec fn oversize_message(len: nat) -> Seq<char> {
    "session turn runtime snapshot exceeds "@ + dec(MAX_SESSION_TURN_RUNTIME_SNAPSHOT_BYTES as nat) + " bytes: "@ + dec(len)
}

/// Keeps an encoded snapshot in `cell` for the upgrade. An encoding error
/// is passed on; an encoding longer than
/// `MAX_SESSION_TURN_RUNTIME_SNAPSHOT_BYTES` is refused. Either way the cell
/// keeps what it held.
pub fn persist_snapshot_for_upgrade(
    cell: &mut RawSessionTurnRuntimeSnapshot,
    encoded: Result<Vec<u8>, String>,
) -> (res: Result<(), String>)
    ensures
        match encoded {
            Err(e) => res == Err::<(), String>(e) && final(cell)@ == old(cell)@,
            Ok(bytes) => if bytes@.len() > MAX_SESSION_TURN_RUNTIME_SNAPSHOT_BYTES {
                &&& res is Err
                &&& res->Err_0@ == oversize_message(bytes@.len())
                &&& final(cell)@ == old(cell)@
            } else {
                &&& res is Ok
                &&& final(cell)@ == bytes@
            },
        },
{
    match encoded {
        Err(e) => Err(e),
        Ok(bytes) => {
            let len = bytes.len();
            if len > MAX_SESSION_TURN_RUNTIME_SNAPSHOT_BYTES as usize {
                let mut message = String::new();
                push_str(&mut message, "session turn runtime snapshot exceeds ");
                push_decimal(&mut message, MAX_SESSION_TURN_RUNTIME_SNAPSHOT_BYTES as u64);
                push_str(&mut message, " bytes: ");
                push_decimal(&mut message, len as u64);
                return Err(message);
            }
            *cell = RawSessionTurnRuntimeSnapshot(bytes);
            Ok(())
        },
    }
}

impl RuntimeStore {
    /// A copy of every runtime, in key order, for saving across an upgrade.
    pub fn snapshot_for_upgrade(&self) -> (snapshot: SessionTurnRuntimeSnapshot)
        ensures
            snapshot.runtimes@.len() == self.runtimes@.len(),
            forall|i: int| 0 <= i < self.runtimes@.len() ==> SessionTurnRuntime::unchanged(
                &self.runtimes@[i],
                &#[trigger] snapshot.runtimes@[i],
            ),
            forall|i: int| 0 <= i < self.runtimes@.len() ==> (#[trigger] snapshot.runtimes@[i]).wf() == self.runtimes@[i].wf(),
    {
        let n = self.runtimes.len();
        let mut out: Vec<SessionTurnRuntime> = Vec::new();
        let mut i: usize = 0;
        while i < n
            invariant
                n == self.runtimes@.len(),
                i <= n,
                out@.len() == i,
                forall|j: int| 0 <= j < i ==> SessionTurnRuntime::unchanged(&self.runtimes@[j], &#[trigger] out@[j]),
                forall|j: int| 0 <= j < i ==> (#[trigger] out@[j]).wf() == self.runtimes@[j].wf(),
            decreases n - i,
        {
            let copy = self.runtimes[i].duplicate();
            out.push(copy);
            i = i + 1;
        }
        SessionTurnRuntimeSnapshot { runtimes: out }
    }

    /// Takes back the runtimes saved in `cell` before an upgrade, given
    /// the decoding of its bytes. An empty cell restores nothing, and a
    /// decoding error is passed on; both leave the store and the cell as
    /// they were. Otherwise every saved runtime is stored, as it was saved,
    /// under its key (see `restore_from_upgrade`) in place of the runtimes
    /// held before, and the cell is emptied, so that a second call changes
    /// nothing.
    ///
    /// The cell only ever holds what `persist_snapshot_for_upgrade` wrote:
    /// the encoding of `snapshot_for_upgrade` of the store, whose runtimes
    /// are all well formed (`RuntimeStore::wf`, and see
    /// `lemma_saved_snapshot_well_formed`). A decoded snapshot therefore
    /// holds well-formed runtimes only, which is what this function asks of
    /// its caller.
    pub fn restore_snapshot_after_upgrade(
        &mut self,
        cell: &mut RawSessionTurnRuntimeSnapshot,
        decoded: Result<SessionTurnRuntimeSnapshot, String>,
    ) -> (res: Result<(), String>)
        requires
            old(self).wf(),
            decoded matches Ok(s) ==> all_wf(s.runtimes@),
        ensures
            final(self).wf(),
            final(self).last_flush == old(self).last_flush,
            old(cell)@.len() == 0 ==> {
                &&& res is Ok
                &&& final(self).runtimes@ == old(self).runtimes@
                &&& final(cell)@ == old(cell)@
            },
            old(cell)@.len() > 0 ==> match decoded {
                Err(e) => {
                    &&& res == Err::<(), String>(e)
                    &&& final(self).runtimes@ == old(self).runtimes@
                    &&& final(cell)@ == old(cell)@
                },
                Ok(snapshot) => {
                    &&& res is Ok
                    &&& final(cell)@ == Seq::<u8>::empty()
                    &&& final(self).runtimes@ == inserted_all(Seq::<SessionTurnRuntime>::empty(), snapshot.runtimes@)
                    &&& sorted_by_key(snapshot.runtimes@) ==> final(self).runtimes@ == snapshot.runtimes@
                },
            },
    {
        if cell.0.len() == 0 {
            return Ok(());
        }
        let snapshot = match decoded {
            Err(e) => return Err(e),
            Ok(s) => s,
        };
        let restored = RuntimeStore::restore_from_upgrade(snapshot);
        self.runtimes = restored.runtimes;
        *cell = RawSessionTurnRuntimeSnapshot::empty();
        Ok(())
    }
}

/// Law: what a well-formed store hands out for saving across an upgrade
/// holds well-formed runtimes in key order, so restoring it meets the
/// requirement of `restore_snapshot_after_upgrade` and gives back exactly
/// the saved runtimes.
pub proof fn lemma_saved_snapshot_well_formed(store: RuntimeStore, saved: Seq<SessionTurnRuntime>)
    requires
        store.wf(),
        saved.len() == store.runtimes@.len(),
        forall|i: int| 0 <= i < saved.len() ==> SessionTurnRuntime::unchanged(&store.runtimes@[i], &#[trigger] saved[i]),
    ensures
        all_wf(saved),
        sorted_by_key(saved),
        inserted_all(Seq::<SessionTurnRuntime>::empty(), saved) == saved,
{
    lemma_upgrade_round_trip(store, saved);
    assert forall|i: int, j: int| 0 <= i < j < saved.len() implies chars_lt(#[trigger] saved[i].kernel(), #[trigger] saved[j].kernel()) by {
        assert(SessionTurnRuntime::unchanged(&store.runtimes@[i], &saved[i]));
        assert(SessionTurnRuntime::unchanged(&store.runtimes@[j], &saved[j]));
    }
}

/// Storing the runtimes of a key-ordered sequence one by one into an empty
/// store gives back the same sequence.
pub proof fn lemma_inserted_all_sorted(s: Seq<SessionTurnRuntime>)
    requires
        sorted_by_key(s),
    ensures
        inserted_all(Seq::<SessionTurnRuntime>::empty(), s) == s,
    decreases s.len(),
{
    if s.len() > 0 {
        let t = s.drop_last();
        let r = s.last();
        assert(sorted_by_key(t)) by {
            assert forall|i: int, j: int| 0 <= i < j < t.len() implies chars_lt(#[trigger] t[i].kernel(), #[trigger] t[j].kernel()) by {
                assert(t[i] == s[i] && t[j] == s[j]);
            }
        }
        lemma_inserted_all_sorted(t);
        assert forall|j: int| 0 <= j < t.len() implies !runtime_has_key(r.kernel())(#[trigger] t[j]) && !runtime_after(r.kernel())(t[j]) by {
            assert(t[j] == s[j]);
            assert(chars_lt(s[j].kernel(), s[s.len() - 1].kernel()));
            lemma_lt_irreflexive(r.kernel());
            lemma_lt_trichotomy(r.kernel(), t[j].kernel());
        }
        lemma_find_first_none(t, runtime_has_key(r.kernel()));
        lemma_find_first_none(t, runtime_after(r.kernel()));
        assert(insert_position(t, r.kernel()) == t.len());
        assert(inserted(t, r) =~= s);
    }
}

/// Law: the runtimes saved for an upgrade come back exactly, in the same
/// order and each holding the same state, when restored into an empty store.
pub proof fn lemma_upgrade_round_trip(store: RuntimeStore, saved: Seq<SessionTurnRuntime>)
    requires
        store.wf(),
        saved.len() == store.runtimes@.len(),
        forall|i: int| 0 <= i < saved.len() ==> SessionTurnRuntime::unchanged(&store.runtimes@[i], &#[trigger] saved[i]),
    ensures
        forall|i: int| 0 <= i < saved.len() ==> (#[trigger] saved[i]).wf(),
        inserted_all(Seq::<SessionTurnRuntime>::empty(), saved) == saved,
{
    assert forall|i: int| 0 <= i < saved.len() implies (#[trigger] saved[i]).wf() by {
        let a = store.runtimes@[i];
        let b = saved[i];
        assert(SessionTurnRuntime::unchanged(&a, &b));
        assert(a.wf());
        assert(a.queue() =~= b.queue());
    }
    assert forall|i: int, j: int| 0 <= i < j < saved.len() implies chars_lt(#[trigger] saved[i].kernel(), #[trigger] saved[j].kernel()) by {
        assert(SessionTurnRuntime::unchanged(&store.runtimes@[i], &saved[i]));
        assert(SessionTurnRuntime::unchanged(&store.runtimes@[j], &saved[j]));
        assert(chars_lt(store.runtimes@[i].kernel(), store.runtimes@[j].kernel()));
    }
    lemma_inserted_all_sorted(saved);
}

} // verus!
