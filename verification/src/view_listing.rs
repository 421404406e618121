//! The listings of the world view that a participant pages through: the
//! subjects it knows of inside a viewport, and the views of them.
use vstd::prelude::*;
use crate::dup::Duplicate;
use crate::listing::{
    dedup_subjects, grid_sorted, page_end, page_items, page_of, page_window, sort_and_dedup, GridEntry,
    GridKey,
};
use crate::object_view::{in_viewport, ObjectSubject, ObjectView, Viewport};
use crate::text::str_eq;

verus! {

fn copy_text(s: &Option<String>) -> (copy: Option<String>)
    ensures
        copy == *s,
{
    match s {
        Some(t) => Some(t.clone()),
        None => None,
    }
}

impl Duplicate for ObjectSubject {
    fn duplicate(&self) -> (copy: Self) {
        ObjectSubject {
            subject_kind: self.subject_kind.clone(),
            subject_id_text: self.subject_id_text.clone(),
            x: self.x,
            y: self.y,
            last_seen_turn: self.last_seen_turn,
            redacted_json: copy_text(&self.redacted_json),
        }
    }
}

impl GridEntry for ObjectSubject {
    open spec fn grid_key(&self) -> GridKey {
        GridKey { y: self.y, x: self.x, kind: self.subject_kind@, id: self.subject_id_text@ }
    }

    fn grid_position(&self) -> (pos: (u16, u16)) {
        (self.y, self.x)
    }

    fn grid_kind(&self) -> (kind: &str) {
        self.subject_kind.as_str()
    }

    fn grid_id(&self) -> (id: &str) {
        self.subject_id_text.as_str()
    }
}

impl Duplicate for ObjectView {
    fn duplicate(&self) -> (copy: Self) {
        ObjectView {
            subject_kind: self.subject_kind.clone(),
            subject_id_text: self.subject_id_text.clone(),
            visibility: self.visibility.clone(),
            redaction_level: self.redaction_level.clone(),
            x: self.x,
            y: self.y,
            last_seen_turn: self.last_seen_turn,
            display_name: copy_text(&self.display_name),
            asset_key: copy_text(&self.asset_key),
            owner_participant_id: copy_text(&self.owner_participant_id),
            details_json: self.details_json.clone(),
        }
    }
}

impl GridEntry for ObjectView {
    open spec fn grid_key(&self) -> GridKey {
        GridKey { y: self.y, x: self.x, kind: self.subject_kind@, id: self.subject_id_text@ }
    }

    fn grid_position(&self) -> (pos: (u16, u16)) {
        (self.y, self.x)
    }

    fn grid_kind(&self) -> (kind: &str) {
        self.subject_kind.as_str()
    }

    fn grid_id(&self) -> (id: &str) {
        self.subject_id_text.as_str()
    }
}

/// A participant's record of an object it knows of.
pub struct KnownObjectRow {
    pub subject_kind: String,
    pub subject_id_text: String,
    pub x: u16,
    pub y: u16,
    pub last_seen_turn: u32,
    pub redacted_json: Option<String>,
    pub visibility: String,
}

/// The subject a known-object record describes.
pub open spec fn subject_of(row: KnownObjectRow) -> ObjectSubject {
    ObjectSubject {
        subject_kind: row.subject_kind,
        subject_id_text: row.subject_id_text,
        x: row.x,
        y: row.y,
        last_seen_turn: row.last_seen_turn,
        redacted_json: row.redacted_json,
    }
}

/// Whether a known-object record shows in the viewport: not hidden, and
/// inside it.
pub open spec fn shows_in(row: KnownObjectRow, viewport: Viewport) -> bool {
    row.visibility@ != "hidden"@ && in_viewport(viewport, row.x, row.y)
}

/// The subjects of the records that show in the viewport, in record order.
pub open spec fn shown_subjects(rows: Seq<KnownObjectRow>, viewport: Viewport) -> Seq<ObjectSubject>
    decreases rows.len(),
{
    if rows.len() == 0 {
        Seq::empty()
    } else {
        let before = shown_subjects(rows.drop_last(), viewport);
        if shows_in(rows.last(), viewport) {
            before.push(subject_of(rows.last()))
        } else {
            before
        }
    }
}

/// The subjects a participant knows of inside the viewport, in grid order,
/// each repeated subject dropped.
pub fn known_subjects_for_viewport(rows: &Vec<KnownObjectRow>, viewport: Viewport) -> (subjects: Vec<ObjectSubject>)
    ensures
        subjects@ == dedup_subjects(grid_sorted(shown_subjects(rows@, viewport))),
{
    let mut shown: Vec<ObjectSubject> = Vec::new();
    let mut i: usize = 0;
    while i < rows.len()
        invariant
            i <= rows@.len(),
            shown@ == shown_subjects(rows@.take(i as int), viewport),
        decreases rows@.len() - i,
    {
        proof {
            assert(rows@.take(i + 1).drop_last() =~= rows@.take(i as int));
            assert(rows@.take(i + 1).last() == rows@[i as int]);
        }
        let row = &rows[i];
        if !str_eq(row.visibility.as_str(), "hidden") && viewport.contains(row.x, row.y) {
            shown.push(ObjectSubject {
                subject_kind: row.subject_kind.clone(),
                subject_id_text: row.subject_id_text.clone(),
                x: row.x,
                y: row.y,
                last_seen_turn: row.last_seen_turn,
                redacted_json: copy_text(&row.redacted_json),
            });
        }
        i = i + 1;
    }
    proof {
        assert(rows@.take(rows@.len() as int) =~= rows@);
    }
    sort_and_dedup(&shown)
}

/// A page of object views.
pub struct ObjectViewPage {
    pub objects: Vec<ObjectView>,
    pub next_cursor: Option<u32>,
    pub has_more: bool,
}

/// The page of the views, put in grid order with repeated subjects dropped,
/// that starts at the cursor (0 when none) and holds at most `limit` views;
/// the next cursor is the end of the page while views remain after it.
pub fn visible_objects_page(views: &Vec<ObjectView>, cursor: Option<u32>, limit: u32) -> (page: ObjectViewPage)
    ensures
        ({
            let listed = dedup_subjects(grid_sorted(views@));
            let start: nat = match cursor {
                Some(c) => c as nat,
                None => 0nat,
            };
            let end: nat = page_end(start, limit as nat, listed.len());
            &&& page.objects@ == page_items(listed, start, end)
            &&& page.has_more == (end < listed.len())
            &&& page.next_cursor == if page.has_more { Some(end as u32) } else { None }
        }),
{
    let listed = sort_and_dedup(views);
    let w = page_window(cursor, limit, listed.len());
    let objects = page_of(&listed, &w);
    ObjectViewPage { objects, next_cursor: w.next_cursor, has_more: w.has_more }
}

/// Why a single object view is refused.
#[derive(Clone, Copy, Debug, PartialEq, Eq, Structural)]
pub enum ObjectViewError {
    /// The kind is not one the view is given for.
    UnknownSubjectKind,
    /// The participant does not know of the object, or it is hidden.
    NotVisible,
    /// The object was known but can no longer be seen.
    NoLongerVisible,
}

impl ObjectViewError {
    /// The public code of the refusal.
    pub fn code(&self) -> (code: &'static str)
        ensures
            code@ == match *self {
                ObjectViewError::UnknownSubjectKind => "unknown_subject_kind"@,
                _ => "not_visible"@,
            },
    {
        match self {
            ObjectViewError::UnknownSubjectKind => "unknown_subject_kind",
            _ => "not_visible",
        }
    }

    /// The public message of the refusal.
    pub fn message(&self) -> (message: &'static str)
        ensures
            message@ == match *self {
                ObjectViewError::UnknownSubjectKind => "subject_kind is not supported by get_object_view"@,
                ObjectViewError::NotVisible => "object is not visible or known to this participant"@,
                ObjectViewError::NoLongerVisible => "object is no longer visible"@,
            },
    {
        match self {
            ObjectViewError::UnknownSubjectKind => "subject_kind is not supported by get_object_view",
            ObjectViewError::NotVisible => "object is not visible or known to this participant",
            ObjectViewError::NoLongerVisible => "object is no longer visible",
        }
    }
}

/// The kinds a single object view is given for.
pub open spec fn viewable_kind(kind: Seq<char>) -> bool {
    kind == "world_object"@ || kind == "champion"@ || kind == "town"@ || kind == "neutral_army"@
}

/// Refuses a kind that no single object view is given for.
pub fn check_subject_kind(kind: &str) -> (r: Result<(), ObjectViewError>)
    ensures
        r is Ok <==> viewable_kind(kind@),
        r is Err ==> r == Err::<(), ObjectViewError>(ObjectViewError::UnknownSubjectKind),
{
    if str_eq(kind, "world_object") || str_eq(kind, "champion") || str_eq(kind, "town") || str_eq(kind, "neutral_army") {
        Ok(())
    } else {
        Err(ObjectViewError::UnknownSubjectKind)
    }
}

/// The subject of the participant's record of the object: refused when
/// there is none or it is hidden.
pub fn subject_for_view(known: Option<KnownObjectRow>) -> (r: Result<ObjectSubject, ObjectViewError>)
    ensures
        match known {
            None => r == Err::<ObjectSubject, ObjectViewError>(ObjectViewError::NotVisible),
            Some(row) => if row.visibility@ == "hidden"@ {
                r == Err::<ObjectSubject, ObjectViewError>(ObjectViewError::NotVisible)
            } else {
                r == Ok::<ObjectSubject, ObjectViewError>(subject_of(row))
            },
        },
{
    match known {
        None => Err(ObjectViewError::NotVisible),
        Some(row) => {
            if str_eq(row.visibility.as_str(), "hidden") {
                Err(ObjectViewError::NotVisible)
            } else {
                Ok(ObjectSubject {
                    subject_kind: row.subject_kind,
                    subject_id_text: row.subject_id_text,
                    x: row.x,
                    y: row.y,
                    last_seen_turn: row.last_seen_turn,
                    redacted_json: row.redacted_json,
                })
            }
        },
    }
}

/// The view, refused when the object can no longer be seen.
pub fn require_view(view: Option<ObjectView>) -> (r: Result<ObjectView, ObjectViewError>)
    ensures
        match view {
            Some(v) => r == Ok::<ObjectView, ObjectViewError>(v),
            None => r == Err::<ObjectView, ObjectViewError>(ObjectViewError::NoLongerVisible),
        },
{
    match view {
        Some(v) => Ok(v),
        None => Err(ObjectViewError::NoLongerVisible),
    }
}

} // verus!
