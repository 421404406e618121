use degens::caller_cache::{
    participant_shown_ready, participants_by_seat, shown_gold, CallerCache, CallerCacheEntry,
    SeatedParticipant,
};

fn entry(caller: &str, session: &str, state: &str, context: &str) -> CallerCacheEntry<String> {
    CallerCacheEntry {
        caller_text: caller.to_string(),
        session_id: session.to_string(),
        session_state: state.to_string(),
        context: context.to_string(),
    }
}

#[test]
fn remembered_callers_are_found_in_two_slots() {
    let mut cache: CallerCache<String> = CallerCache::new();
    assert_eq!(cache.lookup("alice", "s-1"), None);
    cache.remember(entry("alice", "s-1", "active", "ctx-a"));
    assert_eq!(cache.lookup("alice", "s-1").as_deref(), Some("ctx-a"));
    cache.remember(entry("bob", "s-1", "active", "ctx-b"));
    assert_eq!(cache.lookup("bob", "s-1").as_deref(), Some("ctx-b"));
    assert_eq!(cache.lookup("alice", "s-1").as_deref(), Some("ctx-a"));
    // A third caller takes the second slot over.
    cache.remember(entry("carol", "s-1", "active", "ctx-c"));
    assert_eq!(cache.lookup("bob", "s-1"), None);
    assert_eq!(cache.lookup("carol", "s-1").as_deref(), Some("ctx-c"));
    // Refreshing the first slot's caller replaces it in place.
    cache.remember(entry("alice", "s-1", "active", "ctx-a2"));
    assert_eq!(cache.lookup("alice", "s-1").as_deref(), Some("ctx-a2"));
    // Contexts of sessions that are not active are not remembered.
    cache.remember(entry("dave", "s-2", "finished", "ctx-d"));
    assert_eq!(cache.lookup("dave", "s-2"), None);
    assert_eq!(cache.lookup("carol", "s-1").as_deref(), Some("ctx-c"));
}

#[test]
fn participant_view_values() {
    assert_eq!(shown_gold(12), 12);
    assert_eq!(shown_gold(u64::MAX), u32::MAX);
    assert!(participant_shown_ready(3));
    assert!(!participant_shown_ready(0));
    let seated = vec![
        SeatedParticipant { slot_index: 2, participant_id: "p-c".to_string() },
        SeatedParticipant { slot_index: 0, participant_id: "p-a".to_string() },
        SeatedParticipant { slot_index: 2, participant_id: "p-b".to_string() },
    ];
    let ids: Vec<String> = participants_by_seat(&seated).into_iter().map(|p| p.participant_id).collect();
    assert_eq!(ids, vec!["p-a".to_string(), "p-c".to_string(), "p-b".to_string()]);
}
