//! Reserved blocks of session event sequence numbers.
use vstd::prelude::*;

verus! {

/// Number of event sequence numbers reserved for one active turn at a time.
pub const SESSION_TURN_RUNTIME_EVENT_SEQ_BLOCK_SIZE: u64 = 4096;

/// A half-open range `[next_event_seq, exclusive_end_event_seq)` of event
/// sequence numbers that this turn may still hand out.
pub struct SessionTurnEventSeqBlock {
    pub next_event_seq: u64,
    pub exclusive_end_event_seq: u64,
}

impl SessionTurnEventSeqBlock {
    /// Number of sequence numbers still available in the block.
    pub open spec fn remaining(&self) -> nat {
        if self.next_event_seq < self.exclusive_end_event_seq {
            (self.exclusive_end_event_seq - self.next_event_seq) as nat
        } else {
            0
        }
    }

    /// Hands out the next reserved sequence number, or `None` once the block
    /// is exhausted; the end of the block never moves.
    pub fn take_event_seq(&mut self) -> (taken: Option<u64>)
        ensures
            final(self).exclusive_end_event_seq == old(self).exclusive_end_event_seq,
            old(self).next_event_seq >= old(self).exclusive_end_event_seq ==> {
                &&& taken is None
                &&& *final(self) == *old(self)
            },
            old(self).next_event_seq < old(self).exclusive_end_event_seq ==> {
                &&& taken == Some(old(self).next_event_seq)
                &&& final(self).next_event_seq == old(self).next_event_seq + 1
            },
    {
        if self.next_event_seq >= self.exclusive_end_event_seq {
            return None;
        }
        let event_seq = self.next_event_seq;
        self.next_event_seq = self.next_event_seq + 1;
        Some(event_seq)
    }
}

/// Why a new block of event sequence numbers could not be reserved.
#[derive(Debug, Clone, Copy, PartialEq, Eq)]
pub enum EventSeqError {
    /// The session's next event sequence is too close to `u64::MAX`.
    EventSequenceExhausted,
}

/// Reserves the next block of the session's event sequence: the block starts
/// at `*next_event_seq` and the session counter moves past its end. Fails,
/// leaving the counter unchanged, when the end would overflow `u64`.
pub fn reserve_event_seq_block(next_event_seq: &mut u64) -> (res: Result<
    SessionTurnEventSeqBlock,
    EventSeqError,
>)
    ensures
        *old(next_event_seq) + SESSION_TURN_RUNTIME_EVENT_SEQ_BLOCK_SIZE <= u64::MAX <==> res is Ok,
        res matches Ok(block) ==> {
            &&& block.next_event_seq == *old(next_event_seq)
            &&& block.exclusive_end_event_seq == *old(next_event_seq)
                + SESSION_TURN_RUNTIME_EVENT_SEQ_BLOCK_SIZE
            &&& *final(next_event_seq) == block.exclusive_end_event_seq
        },
        res is Err ==> *final(next_event_seq) == *old(next_event_seq),
{
    let start = *next_event_seq;
    match start.checked_add(SESSION_TURN_RUNTIME_EVENT_SEQ_BLOCK_SIZE) {
        Some(end) => {
            *next_event_seq = end;
            Ok(SessionTurnEventSeqBlock { next_event_seq: start, exclusive_end_event_seq: end })
        },
        None => Err(EventSeqError::EventSequenceExhausted),
    }
}

/// Law: a block hands out exactly `remaining()` numbers, each one above the
/// previous and below the block's end; taking never widens the block.
pub proof fn lemma_take_shrinks_block(before: SessionTurnEventSeqBlock, after: SessionTurnEventSeqBlock, taken: Option<u64>)
    requires
        after.exclusive_end_event_seq == before.exclusive_end_event_seq,
        before.next_event_seq >= before.exclusive_end_event_seq ==> taken is None && after == before,
        before.next_event_seq < before.exclusive_end_event_seq ==> taken == Some(before.next_event_seq)
            && after.next_event_seq == before.next_event_seq + 1,
    ensures
        taken is Some <==> before.remaining() > 0,
        taken is Some ==> after.remaining() + 1 == before.remaining(),
        taken is None ==> after.remaining() == 0,
        taken matches Some(seq) ==> seq < before.exclusive_end_event_seq && seq < after.next_event_seq,
{
}

} // verus!
