use degens::map_listing::{visible_map_chunks, MapChunkRow, VisibilityRow};
use degens::object_view::{ObjectView, Viewport};
use degens::view_listing::{
    check_subject_kind, known_subjects_for_viewport, require_view, subject_for_view,
    visible_objects_page, KnownObjectRow, ObjectViewError,
};

fn known(kind: &str, id: &str, x: u16, y: u16, visibility: &str) -> KnownObjectRow {
    KnownObjectRow {
        subject_kind: kind.to_string(),
        subject_id_text: id.to_string(),
        x,
        y,
        last_seen_turn: 1,
        redacted_json: None,
        visibility: visibility.to_string(),
    }
}

fn view(kind: &str, id: &str, x: u16, y: u16) -> ObjectView {
    ObjectView {
        subject_kind: kind.to_string(),
        subject_id_text: id.to_string(),
        visibility: "visible".to_string(),
        redaction_level: "none".to_string(),
        x,
        y,
        last_seen_turn: Some(3),
        display_name: None,
        asset_key: None,
        owner_participant_id: None,
        details_json: "{}".to_string(),
    }
}

#[test]
fn known_subjects_are_filtered_ordered_and_deduplicated() {
    let rows = vec![
        known("town", "t-1", 5, 2, "visible"),
        known("champion", "c-1", 1, 2, "last_known"),
        known("champion", "c-2", 1, 1, "hidden"),
        known("world_object", "w-1", 50, 50, "visible"),
        known("champion", "c-1", 1, 2, "visible"),
        known("artifact", "a-1", 1, 2, "visible"),
    ];
    let viewport = Viewport { x: 0, y: 0, width: 10, height: 10 };
    let subjects = known_subjects_for_viewport(&rows, viewport);
    let order: Vec<(&str, &str)> = subjects
        .iter()
        .map(|s| (s.subject_kind.as_str(), s.subject_id_text.as_str()))
        .collect();
    assert_eq!(order, vec![("artifact", "a-1"), ("champion", "c-1"), ("town", "t-1")]);
}

#[test]
fn object_views_are_paged_after_ordering() {
    let views = vec![
        view("town", "t-2", 3, 3),
        view("champion", "c-1", 0, 0),
        view("town", "t-1", 2, 3),
        view("champion", "c-1", 1, 0),
    ];
    let first = visible_objects_page(&views, None, 2);
    let ids: Vec<&str> = first.objects.iter().map(|v| v.subject_id_text.as_str()).collect();
    // The second view of c-1 follows the first directly and is dropped.
    assert_eq!(ids, vec!["c-1", "t-1"]);
    assert!(first.has_more);
    assert_eq!(first.next_cursor, Some(2));
    let second = visible_objects_page(&views, first.next_cursor, 2);
    let ids: Vec<&str> = second.objects.iter().map(|v| v.subject_id_text.as_str()).collect();
    assert_eq!(ids, vec!["t-2"]);
    assert!(!second.has_more);
    assert_eq!(second.next_cursor, None);
    let past = visible_objects_page(&views, Some(9), 2);
    assert!(past.objects.is_empty());
    assert!(!past.has_more);
}

fn chunk(id: &str, x: u16, y: u16) -> MapChunkRow {
    MapChunkRow {
        chunk_id: id.to_string(),
        chunk_x: x,
        chunk_y: y,
        width: 16,
        height: 16,
        terrain_blob: vec![1],
        movement_blob: vec![2],
        flags_blob: vec![3],
    }
}

fn seen(x: u16, y: u16, mark: u8) -> VisibilityRow {
    VisibilityRow { chunk_x: x, chunk_y: y, discovered_blob: vec![mark], visible_blob: vec![mark, mark] }
}

#[test]
fn map_chunks_in_view_with_their_last_visibility_record() {
    let chunks = vec![chunk("c10", 1, 0), chunk("c00", 0, 0), chunk("c01", 0, 1), chunk("c55", 5, 5)];
    let visibility = vec![seen(1, 0, 7), seen(0, 0, 8), seen(1, 0, 9), seen(5, 5, 1)];
    let viewport = Viewport { x: 0, y: 0, width: 20, height: 20 };
    let page = visible_map_chunks(&chunks, &visibility, 16, viewport, None, 10);
    let ids: Vec<&str> = page.chunks.iter().map(|c| c.chunk_id.as_str()).collect();
    // c01 has no visibility record; c55 lies outside the viewport.
    assert_eq!(ids, vec!["c00", "c10"]);
    assert_eq!(page.chunks[1].discovered_blob, vec![9]);
    assert_eq!(page.chunks[1].visible_blob, vec![9, 9]);
    assert_eq!(page.chunks[0].width, 16);
    assert!(!page.has_more);
    let first = visible_map_chunks(&chunks, &visibility, 16, viewport, None, 1);
    assert_eq!(first.chunks.len(), 1);
    assert_eq!(first.next_cursor, Some(1));
}

#[test]
fn single_object_view_refusals() {
    assert!(check_subject_kind("champion").is_ok());
    assert_eq!(check_subject_kind("artifact"), Err(ObjectViewError::UnknownSubjectKind));
    assert_eq!(ObjectViewError::UnknownSubjectKind.code(), "unknown_subject_kind");
    assert!(matches!(subject_for_view(None), Err(ObjectViewError::NotVisible)));
    assert!(matches!(
        subject_for_view(Some(known("town", "t", 1, 1, "hidden"))),
        Err(ObjectViewError::NotVisible)
    ));
    let subject = subject_for_view(Some(known("town", "t", 1, 1, "visible"))).ok().unwrap();
    assert_eq!(subject.subject_id_text, "t");
    assert!(matches!(require_view(None), Err(ObjectViewError::NoLongerVisible)));
    assert_eq!(ObjectViewError::NoLongerVisible.message(), "object is no longer visible");
    assert_eq!(ObjectViewError::NotVisible.code(), "not_visible");
}
