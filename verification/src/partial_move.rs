//! Parking movement that did not finish in one sync: which intents are
//! parked, the path they keep, and the cursor recorded for the sync.
use vstd::prelude::*;
use crate::path_text::{path_text, path_text_spec, MoveCoord};
use crate::text::{dec, push_char, push_decimal, push_str};

verus! {

/// An unresolved movement is parked when some steps were consumed and its
/// path goes on past them.
pub fn parks_partial(consumed_steps: u16, path_len: usize) -> (parks: bool)
    ensures
        parks == (consumed_steps != 0 && path_len > consumed_steps),
{
    consumed_steps != 0 && path_len > consumed_steps as usize
}

/// The steps of `path` after the first `consumed`.
pub fn remaining_path(path: &Vec<MoveCoord>, consumed: usize) -> (rest: Vec<MoveCoord>)
    requires
        consumed <= path@.len(),
    ensures
        rest@ == path@.skip(consumed as int),
{
    let n = path.len();
    let mut rest: Vec<MoveCoord> = Vec::new();
    let mut i: usize = consumed;
    while i < n
        invariant
            n == path@.len(),
            consumed <= i <= n,
            rest@ == path@.subrange(consumed as int, i as int),
        decreases n - i,
    {
        rest.push(path[i]);
        proof {
            assert(path@.subrange(consumed as int, i + 1) =~= path@.subrange(consumed as int, i as int).push(path@[i as int]));
        }
        i = i + 1;
    }
    proof {
        assert(path@.subrange(consumed as int, n as int) =~= path@.skip(consumed as int));
    }
    rest
}

/// The text of the path a parked movement keeps.
pub fn remaining_path_text(path: &Vec<MoveCoord>, consumed: usize) -> (text: String)
    requires
        consumed <= path@.len(),
    ensures
        text@ == path_text_spec(path@.skip(consumed as int)),
{
    let rest = remaining_path(path, consumed);
    path_text(&rest)
}

/// The cursor of a sync that consumed `consumed_steps` steps and parked
/// `parked_intents` movements.
pub open spec fn movement_cursor_payload_spec(consumed_steps: u16, parked_intents: u32) -> Seq<char> {
    "{\"consumed_steps\":"@ + dec(consumed_steps as nat) + ",\"parked_intents\":"@ + dec(parked_intents as nat) + "}"@
}

/// Builds the cursor payload of a partial sync.
pub fn movement_cursor_payload(consumed_steps: u16, parked_intents: u32) -> (payload: String)
    ensures
        payload@ == movement_cursor_payload_spec(consumed_steps, parked_intents),
{
    let mut out = String::new();
    push_str(&mut out, "{\"consumed_steps\":");
    push_decimal(&mut out, consumed_steps as u64);
    push_str(&mut out, ",\"parked_intents\":");
    push_decimal(&mut out, parked_intents as u64);
    push_str(&mut out, "}");
    proof {
        assert(out@ =~= movement_cursor_payload_spec(consumed_steps, parked_intents));
    }
    out
}

/// `"movement_cursor:{turn}:{consumed_steps}"`, the key of the cursor
/// effect of a partial sync.
pub fn movement_cursor_key(turn_number: u32, consumed_steps: u16) -> (key: String)
    ensures
        key@ == "movement_cursor:"@ + dec(turn_number as nat) + seq![':'] + dec(consumed_steps as nat),
{
    let mut out = String::new();
    push_str(&mut out, "movement_cursor:");
    push_decimal(&mut out, turn_number as u64);
    push_char(&mut out, ':');
    push_decimal(&mut out, consumed_steps as u64);
    proof {
        assert(out@ =~= "movement_cursor:"@ + dec(turn_number as nat) + seq![':'] + dec(consumed_steps as nat));
    }
    out
}

/// `"movement_sync_incomplete:{session_id}:{turn}:{tail}"`, the key of the
/// event that reports a sync did not finish (`tail` is the number of
/// consumed steps, or `fast` for a single long movement).
pub fn movement_sync_incomplete_key(session_id: &str, turn_number: u32, tail: &str) -> (key: String)
    ensures
        key@ == "movement_sync_incomplete:"@ + session_id@ + seq![':'] + dec(turn_number as nat) + seq![':'] + tail@,
{
    let mut out = String::new();
    push_str(&mut out, "movement_sync_incomplete:");
    push_str(&mut out, session_id);
    push_char(&mut out, ':');
    push_decimal(&mut out, turn_number as u64);
    push_char(&mut out, ':');
    push_str(&mut out, tail);
    proof {
        assert(out@ =~= "movement_sync_incomplete:"@ + session_id@ + seq![':'] + dec(turn_number as nat) + seq![':'] + tail@);
    }
    out
}

/// A single pending movement resolves on the fast path when its path is
/// longer than four steps or ends at a contact.
pub fn fast_path_applies(pending_count: usize, path_len: usize, final_contact_exists: bool) -> (applies: bool)
    ensures
        applies == (pending_count == 1 && (path_len > 4 || final_contact_exists)),
{
    pending_count == 1 && (path_len > 4 || final_contact_exists)
}

} // verus!
