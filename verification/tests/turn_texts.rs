use degens::turn_rules::{
    current_turn_payload, end_turn_event_key, end_turn_result_json, next_turn,
    session_payload_json, sync_turn_event_key,
};

#[test]
fn turn_command_texts() {
    assert_eq!(session_payload_json("s\\1"), "{\"session_id\":\"s\\\\1\"}");
    assert_eq!(
        end_turn_result_json(4, 2, 3, false),
        "{\"command_kind\":\"end_turn\",\"current_turn\":4,\"ready_count\":2,\"participant_count\":3,\"all_ready\":false,\"command_count\":1,\"event_count\":1}"
    );
    assert_eq!(end_turn_event_key("s-1", 4, "p-2"), "end_turn:s-1:4:p-2");
    assert_eq!(sync_turn_event_key("s-1", 5), "sync_turn:s-1:5");
    assert_eq!(current_turn_payload(5), "{\"current_turn\":5}");
    assert_eq!(next_turn(5), 6);
    assert_eq!(next_turn(u32::MAX), u32::MAX);
}
