//! The two-slot cache of active session callers, and the small views of a
//! session's participants.
use vstd::prelude::*;
use crate::dup::Duplicate;
use crate::listing::{grid_sort, grid_sorted, GridEntry, GridKey};
use crate::text::str_eq;

verus! {

/// A caller's context in a session, remembered while the session is active.
pub struct CallerCacheEntry<T> {
    pub caller_text: String,
    pub session_id: String,
    /// The state of the session when the context was taken.
    pub session_state: String,
    pub context: T,
}

/// Whether `e` is the entry of `caller` in `session` and its session is
/// active.
pub open spec fn serves<T>(e: CallerCacheEntry<T>, caller: Seq<char>, session: Seq<char>) -> bool {
    e.caller_text@ == caller && e.session_id@ == session && e.session_state@ == "active"@
}

/// Two slots of remembered caller contexts.
pub struct CallerCache<T> {
    pub a: Option<CallerCacheEntry<T>>,
    pub b: Option<CallerCacheEntry<T>>,
}

/// What a lookup finds: the first slot's entry when it serves the caller in
/// the session, else the second's.
pub open spec fn lookup_spec<T>(c: CallerCache<T>, caller: Seq<char>, session: Seq<char>) -> Option<T> {
    if c.a matches Some(e) && serves(e, caller, session) {
        Some(c.a->0.context)
    } else if c.b matches Some(e) && serves(e, caller, session) {
        Some(c.b->0.context)
    } else {
        None
    }
}

/// The cache after remembering `e`: nothing changes for a session that is
/// not active; otherwise `e` takes the first slot when that is empty or
/// holds the same caller and session, else the second slot.
pub open spec fn remembered<T>(c: CallerCache<T>, e: CallerCacheEntry<T>) -> CallerCache<T> {
    if e.session_state@ != "active"@ {
        c
    } else if c.a matches Some(x) && !(x.caller_text@ == e.caller_text@ && x.session_id@ == e.session_id@) {
        CallerCache { a: c.a, b: Some(e) }
    } else {
        CallerCache { a: Some(e), b: c.b }
    }
}

impl<T: Duplicate> CallerCache<T> {
    /// An empty cache.
    pub fn new() -> (c: Self)
        ensures
            c.a is None,
            c.b is None,
    {
        CallerCache { a: None, b: None }
    }

    /// The remembered context of `caller` in `session`, if one serves.
    pub fn lookup(&self, caller: &str, session: &str) -> (found: Option<T>)
        ensures
            found == lookup_spec(*self, caller@, session@),
    {
        match &self.a {
            Some(e) => {
                if str_eq(e.caller_text.as_str(), caller) && str_eq(e.session_id.as_str(), session)
                    && str_eq(e.session_state.as_str(), "active") {
                    return Some(e.context.duplicate());
                }
            },
            None => {},
        }
        match &self.b {
            Some(e) => {
                if str_eq(e.caller_text.as_str(), caller) && str_eq(e.session_id.as_str(), session)
                    && str_eq(e.session_state.as_str(), "active") {
                    Some(e.context.duplicate())
                } else {
                    None
                }
            },
            None => None,
        }
    }

    /// Remembers a caller's context (only while its session is active).
    pub fn remember(&mut self, e: CallerCacheEntry<T>)
        ensures
            *final(self) == remembered(*old(self), e),
    {
        if !str_eq(e.session_state.as_str(), "active") {
            return;
        }
        let first_free = match &self.a {
            None => true,
            Some(x) => str_eq(x.caller_text.as_str(), e.caller_text.as_str()) && str_eq(x.session_id.as_str(), e.session_id.as_str()),
        };
        if first_free {
            self.a = Some(e);
        } else {
            self.b = Some(e);
        }
    }
}

/// A context remembered for an active session is what the same caller in
/// the same session finds next.
pub proof fn lemma_remembered_is_found<T>(c: CallerCache<T>, e: CallerCacheEntry<T>)
    requires
        e.session_state@ == "active"@,
    ensures
        lookup_spec(remembered(c, e), e.caller_text@, e.session_id@) == Some(e.context),
{
}

/// Remembering the context of an active session never hides the one of the
/// first slot from its own caller, except by replacing it.
pub proof fn lemma_first_slot_kept<T>(c: CallerCache<T>, e: CallerCacheEntry<T>, caller: Seq<char>, session: Seq<char>)
    requires
        c.a matches Some(x) && serves(x, caller, session),
        !(e.caller_text@ == caller && e.session_id@ == session),
    ensures
        lookup_spec(remembered(c, e), caller, session) == lookup_spec(c, caller, session),
{
}

/// The resources shown of a participant: gold capped at `u32::MAX`.
pub fn shown_gold(gold: u64) -> (shown: u32)
    ensures
        shown == if gold <= u32::MAX { gold as u32 } else { u32::MAX },
{
    if gold <= 4294967295 { gold as u32 } else { u32::MAX }
}

/// Whether a participant counts as ready: it has marked a turn ready.
pub fn participant_shown_ready(ready_turn: u32) -> (ready: bool)
    ensures
        ready == (ready_turn > 0),
{
    ready_turn > 0
}

/// A participant of a session view: its seat and id.
pub struct SeatedParticipant {
    pub slot_index: u8,
    pub participant_id: String,
}

impl Duplicate for SeatedParticipant {
    fn duplicate(&self) -> (copy: Self) {
        SeatedParticipant { slot_index: self.slot_index, participant_id: self.participant_id.clone() }
    }
}

/// Participants are shown by seat; participants of one seat keep their
/// order.
impl GridEntry for SeatedParticipant {
    open spec fn grid_key(&self) -> GridKey {
        GridKey { y: self.slot_index as u16, x: 0, kind: Seq::empty(), id: Seq::empty() }
    }

    fn grid_position(&self) -> (pos: (u16, u16)) {
        (self.slot_index as u16, 0)
    }

    fn grid_kind(&self) -> (kind: &str) {
        proof {
            reveal_strlit("");
        }
        ""
    }

    fn grid_id(&self) -> (id: &str) {
        proof {
            reveal_strlit("");
        }
        ""
    }
}

/// The participants of a session in the order its view lists them: by
/// seat, in a stable order.
pub fn participants_by_seat(participants: &Vec<SeatedParticipant>) -> (ordered: Vec<SeatedParticipant>)
    ensures
        ordered@ == grid_sorted(participants@),
{
    grid_sort(participants)
}

} // verus!
