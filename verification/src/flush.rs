//! One pass of projection flushing: the order in which queued records are
//! written out and the limits that end a pass early.
use vstd::prelude::*;
use crate::order::{chars_lt, compare_chars, lemma_lt_irreflexive, lemma_lt_transitive, lemma_lt_trichotomy, KeyOrder};
use crate::runtime_types::{DirtyEntryView, ProjectionDirtyEntry, ProjectionFlushLimits};
use crate::store::ProjectionFlushOutcome;
use crate::text::chars_of;

verus! {

broadcast use vstd::seq_lib::to_multiset_insert;

/// `a` is flushed strictly before `b`: lower priority value first, then
/// the record dirty the longest, then by runtime key, then by record key.
pub open spec fn flush_before(a: DirtyEntryView, b: DirtyEntryView) -> bool {
    if a.priority != b.priority {
        a.priority < b.priority
    } else if a.first_dirty_at_ms != b.first_dirty_at_ms {
        a.first_dirty_at_ms < b.first_dirty_at_ms
    } else if a.kernel_id != b.kernel_id {
        chars_lt(a.kernel_id, b.kernel_id)
    } else {
        chars_lt(a.key, b.key)
    }
}

/// No entry of `s` is flushed strictly before an entry ahead of it.
pub open spec fn in_flush_order(s: Seq<DirtyEntryView>) -> bool {
    forall|i: int, j: int| 0 <= i < j < s.len() ==> !flush_before(#[trigger] s[j], #[trigger] s[i])
}

/// The views of a sequence of entries.
pub open spec fn entry_views(s: Seq<ProjectionDirtyEntry>) -> Seq<DirtyEntryView> {
    s.map_values(|e: ProjectionDirtyEntry| e@)
}

/// The flush order is a strict order: never both ways, and transitive.
pub proof fn lemma_flush_before_order(a: DirtyEntryView, b: DirtyEntryView, c: DirtyEntryView)
    ensures
        !(flush_before(a, b) && flush_before(b, a)),
        flush_before(a, b) && flush_before(b, c) ==> flush_before(a, c),
        flush_before(a, b) && !flush_before(c, b) ==> flush_before(a, c),
{
    lemma_lt_trichotomy(a.kernel_id, b.kernel_id);
    lemma_lt_trichotomy(a.key, b.key);
    lemma_lt_trichotomy(b.kernel_id, c.kernel_id);
    lemma_lt_trichotomy(b.key, c.key);
    lemma_lt_trichotomy(c.kernel_id, b.kernel_id);
    lemma_lt_trichotomy(c.key, b.key);
    if flush_before(a, b) && flush_before(b, c) {
        if a.priority == b.priority && b.priority == c.priority && a.first_dirty_at_ms == b.first_dirty_at_ms
            && b.first_dirty_at_ms == c.first_dirty_at_ms {
            if a.kernel_id != b.kernel_id && b.kernel_id != c.kernel_id {
                lemma_lt_transitive(a.kernel_id, b.kernel_id, c.kernel_id);
                lemma_lt_trichotomy(a.kernel_id, c.kernel_id);
            } else if a.kernel_id == b.kernel_id && b.kernel_id == c.kernel_id {
                lemma_lt_transitive(a.key, b.key, c.key);
            }
        }
    }
    if flush_before(a, b) && !flush_before(c, b) {
        if a.priority == b.priority && b.priority == c.priority && a.first_dirty_at_ms == b.first_dirty_at_ms
            && b.first_dirty_at_ms == c.first_dirty_at_ms {
            if a.kernel_id != b.kernel_id && b.kernel_id != c.kernel_id {
                lemma_lt_transitive(a.kernel_id, b.kernel_id, c.kernel_id);
                lemma_lt_trichotomy(a.kernel_id, c.kernel_id);
            } else if a.kernel_id == b.kernel_id && b.kernel_id == c.kernel_id {
                if b.key != c.key {
                    lemma_lt_transitive(a.key, b.key, c.key);
                }
            }
        }
    }
}

/// Whether `a` is flushed strictly before `b`.
fn entry_flushes_before(a: &ProjectionDirtyEntry, b: &ProjectionDirtyEntry) -> (before: bool)
    ensures
        before == flush_before(a@, b@),
{
    if a.priority != b.priority {
        return a.priority < b.priority;
    }
    if a.first_dirty_at_ms != b.first_dirty_at_ms {
        return a.first_dirty_at_ms < b.first_dirty_at_ms;
    }
    let ka = chars_of(a.kernel_id.as_str());
    let kb = chars_of(b.kernel_id.as_str());
    match compare_chars(&ka, &kb) {
        KeyOrder::Before => true,
        KeyOrder::After => false,
        KeyOrder::Same => {
            let ea = chars_of(a.key.as_str());
            let eb = chars_of(b.key.as_str());
            match compare_chars(&ea, &eb) {
                KeyOrder::Before => true,
                _ => false,
            }
        },
    }
}

/// The queued records in the order a flush pass writes them out: by
/// priority, then the longest dirty first, then by runtime key and record
/// key; records that tie keep their order.
pub fn projection_flush_order(entries: Vec<ProjectionDirtyEntry>) -> (ordered: Vec<ProjectionDirtyEntry>)
    ensures
        in_flush_order(entry_views(ordered@)),
        entry_views(ordered@).to_multiset() == entry_views(entries@).to_multiset(),
        ordered@.len() == entries@.len(),
{
    let ghost input = entries@;
    let mut rest = entries;
    let mut ordered: Vec<ProjectionDirtyEntry> = Vec::new();
    let ghost mut taken: int = 0;
    // Walk the entries from the back so that each one can be moved out.
    let mut reversed: Vec<ProjectionDirtyEntry> = Vec::new();
    while rest.len() > 0
        invariant
            rest@ + reversed@.reverse() == input,
        decreases rest@.len(),
    {
        let e = rest.pop().unwrap();
        let ghost r0 = reversed@;
        proof {
            assert(rest@.push(e) + r0.reverse() == input);
        }
        reversed.push(e);
        proof {
            assert(reversed@.reverse() =~= seq![e] + r0.reverse());
            assert(rest@ + reversed@.reverse() =~= rest@.push(e) + r0.reverse());
        }
    }
    proof {
        assert(reversed@.reverse() =~= input);
        assert(input.take(0) =~= Seq::<ProjectionDirtyEntry>::empty());
        assert(entry_views(ordered@) =~= entry_views(input.take(0)));
    }
    while reversed.len() > 0
        invariant
            0 <= taken <= input.len(),
            reversed@.reverse() == input.skip(taken),
            in_flush_order(entry_views(ordered@)),
            entry_views(ordered@).to_multiset() == entry_views(input.take(taken)).to_multiset(),
            ordered@.len() == taken,
        decreases reversed@.len(),
    {
        let ghost before = reversed@;
        let e = reversed.pop().unwrap();
        proof {
            assert(before == reversed@.push(e));
            assert(before.reverse()[0] == before[before.len() - 1]);
            assert(input.skip(taken).len() > 0);
            assert(input.skip(taken)[0] == input[taken]);
            assert(e == input[taken]);
        }
        // Position after every entry that `e` does not come strictly before.
        let n = ordered.len();
        let mut pos: usize = 0;
        while pos < n && !entry_flushes_before(&e, &ordered[pos])
            invariant
                n == ordered@.len(),
                pos <= n,
                forall|j: int| 0 <= j < pos ==> !flush_before(e@, #[trigger] entry_views(ordered@)[j]),
            decreases n - pos,
        {
            pos = pos + 1;
        }
        let ghost v0 = entry_views(ordered@);
        ordered.insert(pos, e);
        proof {
            let v1 = entry_views(ordered@);
            assert(v1 =~= v0.insert(pos as int, e@));
            assert forall|i: int, j: int| 0 <= i < j < v1.len() implies !flush_before(#[trigger] v1[j], #[trigger] v1[i]) by {
                if j < pos {
                    assert(v1[i] == v0[i] && v1[j] == v0[j]);
                } else if j == pos {
                    assert(v1[i] == v0[i]);
                    lemma_flush_before_order(e@, v0[i], e@);
                } else if i < pos {
                    assert(v1[i] == v0[i] && v1[j] == v0[j - 1]);
                    // v0[i] <= e < v0[pos] <= v0[j - 1]
                    if pos < n {
                        assert(flush_before(e@, v0[pos as int]));
                        if j - 1 > pos {
                            assert(!flush_before(v0[j - 1], v0[pos as int]));
                        }
                        lemma_flush_before_order(e@, v0[pos as int], v0[j - 1]);
                        lemma_flush_before_order(v0[j - 1], e@, v0[i]);
                        lemma_flush_before_order(v0[j - 1], v0[i], e@);
                        lemma_flush_before_order(e@, v0[j - 1], v0[i]);
                        assert(!flush_before(e@, v0[i]));
                        assert(!flush_before(v0[j - 1], v0[i]));
                    }
                } else if i == pos {
                    assert(v1[i] == e@ && v1[j] == v0[j - 1]);
                    assert(flush_before(e@, v0[pos as int]));
                    if j - 1 > pos {
                        assert(!flush_before(v0[j - 1], v0[pos as int]));
                    }
                    lemma_flush_before_order(e@, v0[pos as int], v0[j - 1]);
                    lemma_flush_before_order(e@, v0[j - 1], e@);
                } else {
                    assert(v1[i] == v0[i - 1] && v1[j] == v0[j - 1]);
                }
            }
            assert(input.take(taken + 1) =~= input.take(taken).push(e));
            assert(entry_views(input.take(taken + 1)) =~= entry_views(input.take(taken)).push(e@));
            vstd::seq_lib::to_multiset_build(entry_views(input.take(taken)), e@);
            assert(reversed@.reverse() =~= input.skip(taken + 1)) by {
                assert(reversed@.push(e).reverse() =~= input.skip(taken));
                assert(input.skip(taken + 1) =~= input.skip(taken).drop_first());
                assert(reversed@.push(e).reverse().drop_first() =~= reversed@.reverse());
            }
            taken = taken + 1;
        }
    }
    proof {
        assert(input.skip(taken).len() == 0);
        assert(input.take(taken) =~= input);
    }
    ordered
}

/// Whether a flush pass must stop: it handled `limits.max_rows` records,
/// or used up its instruction or stable-memory allowance.
pub fn projection_flush_limit_reached(
    limits: &ProjectionFlushLimits,
    outcome: &ProjectionFlushOutcome,
    instructions_used: u64,
    stable_pages_used: u64,
) -> (reached: bool)
    ensures
        reached == (outcome.entries_processed >= limits.max_rows || instructions_used >= limits.max_instructions
            || stable_pages_used >= limits.max_stable_pages_delta),
{
    outcome.entries_processed >= limits.max_rows || instructions_used >= limits.max_instructions
        || stable_pages_used >= limits.max_stable_pages_delta
}

impl ProjectionFlushOutcome {
    /// The outcome of a pass that has not flushed anything yet, over a queue
    /// of `queue_len_before` records.
    pub fn start(queue_len_before: usize) -> (outcome: Self)
        ensures
            outcome.entries_processed == 0,
            outcome.rows_flushed == 0,
            outcome.queue_len_before == queue_len_before,
            outcome.queue_len_after == 0,
            !outcome.truncated,
            outcome.instruction_delta == 0,
            outcome.stable_pages_delta == 0,
    {
        ProjectionFlushOutcome {
            entries_processed: 0,
            rows_flushed: 0,
            queue_len_before,
            queue_len_after: 0,
            truncated: false,
            instruction_delta: 0,
            stable_pages_delta: 0,
        }
    }

    /// Counts one more record handled, which wrote `rows_flushed` rows
    /// (both counts saturating).
    pub fn record_flushed_entry(&mut self, rows_flushed: usize)
        ensures
            final(self).entries_processed == (if old(self).entries_processed < usize::MAX {
                (old(self).entries_processed + 1) as usize
            } else {
                usize::MAX
            }),
            final(self).rows_flushed == (if old(self).rows_flushed + rows_flushed <= usize::MAX {
                (old(self).rows_flushed + rows_flushed) as usize
            } else {
                usize::MAX
            }),
            final(self).queue_len_before == old(self).queue_len_before,
            final(self).queue_len_after == old(self).queue_len_after,
            final(self).truncated == old(self).truncated,
            final(self).instruction_delta == old(self).instruction_delta,
            final(self).stable_pages_delta == old(self).stable_pages_delta,
    {
        self.entries_processed = self.entries_processed.saturating_add(1);
        self.rows_flushed = self.rows_flushed.saturating_add(rows_flushed);
    }

    /// Closes the pass: records what it used and the queue left behind; a
    /// pass that left records queued after reaching a limit counts as
    /// truncated.
    pub fn close(&mut self, instruction_delta: u64, stable_pages_delta: u64, queue_len_after: usize, limit_reached: bool)
        ensures
            final(self).entries_processed == old(self).entries_processed,
            final(self).rows_flushed == old(self).rows_flushed,
            final(self).queue_len_before == old(self).queue_len_before,
            final(self).queue_len_after == queue_len_after,
            final(self).instruction_delta == instruction_delta,
            final(self).stable_pages_delta == stable_pages_delta,
            final(self).truncated == (old(self).truncated || (queue_len_after != 0 && limit_reached)),
    {
        self.instruction_delta = instruction_delta;
        self.stable_pages_delta = stable_pages_delta;
        self.queue_len_after = queue_len_after;
        if queue_len_after != 0 && limit_reached {
            self.truncated = true;
        }
    }
}

} // verus!
