//! Plain-value records held by the heap runtime of an active session turn.
use vstd::prelude::*;
use crate::seqs::Keyed;
use crate::text::{dec, push_char, push_decimal, push_str, str_eq};

verus! {

/// One participant of the session, as the turn runtime knows it.
pub struct SessionTurnParticipant {
    pub participant_id: String,
    pub player_id: String,
    pub principal_text: Option<String>,
    pub slot_index: u8,
    pub status: String,
}

impl Keyed for SessionTurnParticipant {
    type K = Seq<char>;

    open spec fn key_view(&self) -> Seq<char> {
        self.participant_id@
    }

    fn same_key(&self, other: &Self) -> (same: bool) {
        self.participant_id == other.participant_id
    }
}

/// The participant record a caller brings into the turn runtime: the
/// principal is left for the runtime to keep.
pub fn session_turn_participant(participant_id: &str, player_id: &str, slot_index: u8, status: &str) -> (p: SessionTurnParticipant)
    ensures
        p.participant_id@ == participant_id@,
        p.player_id@ == player_id@,
        p.principal_text is None,
        p.slot_index == slot_index,
        p.status@ == status@,
{
    SessionTurnParticipant {
        participant_id: participant_id.to_owned(),
        player_id: player_id.to_owned(),
        principal_text: None,
        slot_index,
        status: status.to_owned(),
    }
}

/// The fields of a champion row that the turn runtime reads.
pub struct ChampionSnapshot {
    pub champion_id: String,
    pub participant_id: String,
    pub x: u16,
    pub y: u16,
    pub status: String,
    pub movement_turn: u32,
    pub movement_remaining: u16,
    pub movement_max: u16,
}

impl Keyed for ChampionSnapshot {
    type K = Seq<char>;

    open spec fn key_view(&self) -> Seq<char> {
        self.champion_id@
    }

    fn same_key(&self, other: &Self) -> (same: bool) {
        self.champion_id == other.champion_id
    }
}

/// A spell that a champion learned during the turn.
pub struct RuntimeChampionSpell {
    pub champion_id: String,
    pub spell_id: String,
    pub spell_slug: Option<String>,
    pub learned_turn: u32,
    pub needs_flush: bool,
}

impl Keyed for RuntimeChampionSpell {
    type K = (Seq<char>, Seq<char>);

    open spec fn key_view(&self) -> (Seq<char>, Seq<char>) {
        (self.champion_id@, self.spell_id@)
    }

    fn same_key(&self, other: &Self) -> (same: bool) {
        self.champion_id == other.champion_id && self.spell_id == other.spell_id
    }
}

/// The fields of a world object row that the turn runtime reads.
pub struct WorldObjectSnapshot {
    pub object_id: String,
    pub x: u16,
    pub y: u16,
    pub state: String,
    pub owner_participant_id: Option<String>,
    pub guarded_neutral_army_id: Option<String>,
}

impl Keyed for WorldObjectSnapshot {
    type K = Seq<char>;

    open spec fn key_view(&self) -> Seq<char> {
        self.object_id@
    }

    fn same_key(&self, other: &Self) -> (same: bool) {
        self.object_id == other.object_id
    }
}

/// One occupied map cell on one layer (`champion`, `town`, ...).
pub struct RuntimeOccupancyCell {
    pub x: u16,
    pub y: u16,
    pub layer: String,
    pub occupant_kind: String,
    pub occupant_id_text: String,
    pub owner_participant_id: Option<String>,
    pub blocking: bool,
}

impl Keyed for RuntimeOccupancyCell {
    type K = (u16, u16, Seq<char>);

    open spec fn key_view(&self) -> (u16, u16, Seq<char>) {
        (self.x, self.y, self.layer@)
    }

    fn same_key(&self, other: &Self) -> (same: bool) {
        self.x == other.x && self.y == other.y && self.layer == other.layer
    }
}

/// A subject (town, world object) that a champion can touch at a cell.
pub struct RuntimeContactCell {
    pub x: u16,
    pub y: u16,
    pub subject_kind: String,
    pub subject_id_text: String,
    pub owner_participant_id: Option<String>,
    pub guarded_neutral_army_id: Option<String>,
    pub status: String,
}

impl Keyed for RuntimeContactCell {
    type K = (u16, u16, Seq<char>, Seq<char>);

    open spec fn key_view(&self) -> (u16, u16, Seq<char>, Seq<char>) {
        (self.x, self.y, self.subject_kind@, self.subject_id_text@)
    }

    fn same_key(&self, other: &Self) -> (same: bool) {
        self.x == other.x && self.y == other.y && self.subject_kind == other.subject_kind
            && self.subject_id_text == other.subject_id_text
    }
}

/// The fields of a quest row that the turn runtime reads.
pub struct QuestSnapshot {
    pub quest_id: String,
    pub participant_id: String,
    pub quest_key: String,
    pub state: String,
}

impl Keyed for QuestSnapshot {
    type K = Seq<char>;

    open spec fn key_view(&self) -> Seq<char> {
        self.quest_id@
    }

    fn same_key(&self, other: &Self) -> (same: bool) {
        self.quest_id == other.quest_id
    }
}

/// The fields of a scenario rule row that the turn runtime reads.
pub struct ScenarioRuleSnapshot {
    pub rule_id: String,
    pub rule_key: String,
    pub state: String,
}

impl Keyed for ScenarioRuleSnapshot {
    type K = Seq<char>;

    open spec fn key_view(&self) -> Seq<char> {
        self.rule_id@
    }

    fn same_key(&self, other: &Self) -> (same: bool) {
        self.rule_id == other.rule_id
    }
}

/// A pending movement intent; a champion has at most one per turn.
pub struct RuntimeMovementIntent {
    pub intent_id: String,
    pub command_id: String,
    pub actor_participant_id: String,
    pub champion_id: String,
    pub path_json: String,
    pub path_hash: String,
    pub status: String,
}

impl Keyed for RuntimeMovementIntent {
    type K = Seq<char>;

    open spec fn key_view(&self) -> Seq<char> {
        self.champion_id@
    }

    fn same_key(&self, other: &Self) -> (same: bool) {
        self.champion_id == other.champion_id
    }
}

/// The stored answer to a command, replayed when its nonce comes again.
pub struct SessionTurnCommandReceipt {
    pub command_id: String,
    pub command_type: String,
    pub actor_participant_id: String,
    pub client_nonce_text: String,
    pub client_nonce: u64,
    pub turn_number: u32,
    pub payload_hash: String,
    pub payload_json: Option<String>,
    pub response_json: String,
}

impl Keyed for SessionTurnCommandReceipt {
    type K = Seq<char>;

    open spec fn key_view(&self) -> Seq<char> {
        self.command_id@
    }

    fn same_key(&self, other: &Self) -> (same: bool) {
        self.command_id == other.command_id
    }
}

/// An event as clients see it.
pub struct RuntimeEventView {
    pub session_id: String,
    pub event_seq: u64,
    pub event_key: String,
    pub audience_key: String,
    pub turn_number: u32,
    pub event_type: String,
    pub subject_kind: Option<String>,
    pub subject_id_text: Option<String>,
    pub payload: Option<String>,
    pub redacted: bool,
}

/// An event raised during the turn; `flushed` once it reached the store.
pub struct SessionTurnEvent {
    pub command_id: Option<String>,
    pub event: RuntimeEventView,
    pub flushed: bool,
}

/// A change of a map subject's position or visibility during the turn.
pub struct ObjectTurnDelta {
    pub subject_kind: String,
    pub subject_id: String,
    pub x: u16,
    pub y: u16,
    pub visible: bool,
}

/// A ledger line behind a resource change.
pub struct ResourceLedgerDelta {
    pub command_id: String,
    pub ledger_key: String,
    pub resource_key: String,
    pub delta: i64,
    pub balance_after: u64,
    pub reason: String,
}

/// A change of one participant's resources during the turn.
pub struct ResourceTurnDelta {
    pub participant_id: String,
    pub gold: i64,
    pub wood: i64,
    pub stone: i64,
    pub iron: i64,
    pub crystal: i64,
    pub ember: i64,
    pub aether: i64,
    pub ledger: Option<ResourceLedgerDelta>,
}

/// How far a partially resolved movement got.
pub struct MovementCursor {
    pub consumed_steps: u32,
    pub parked_intents: u32,
}

/// Which parts of the runtime changed since it was loaded.
#[derive(Clone, Copy)]
pub struct SessionTurnDirtySets {
    pub participants: bool,
    pub ready: bool,
    pub champion_snapshots: bool,
    pub champion_spell_snapshots: bool,
    pub world_object_snapshots: bool,
    pub occupancy_index: bool,
    pub contact_index: bool,
    pub intents: bool,
    pub command_receipts: bool,
    pub events: bool,
    pub object_deltas: bool,
    pub resource_deltas: bool,
    pub quest_snapshots: bool,
    pub scenario_rule_snapshots: bool,
    pub cursor: bool,
}

impl SessionTurnDirtySets {
    /// Nothing changed.
    pub fn clean() -> (sets: Self)
        ensures
            sets == (SessionTurnDirtySets {
                participants: false,
                ready: false,
                champion_snapshots: false,
                champion_spell_snapshots: false,
                world_object_snapshots: false,
                occupancy_index: false,
                contact_index: false,
                intents: false,
                command_receipts: false,
                events: false,
                object_deltas: false,
                resource_deltas: false,
                quest_snapshots: false,
                scenario_rule_snapshots: false,
                cursor: false,
            }),
    {
        SessionTurnDirtySets {
            participants: false,
            ready: false,
            champion_snapshots: false,
            champion_spell_snapshots: false,
            world_object_snapshots: false,
            occupancy_index: false,
            contact_index: false,
            intents: false,
            command_receipts: false,
            events: false,
            object_deltas: false,
            resource_deltas: false,
            quest_snapshots: false,
            scenario_rule_snapshots: false,
            cursor: false,
        }
    }
}

/// The kind of record that a projection dirty entry refers to.
#[derive(Clone, Copy, Debug, PartialEq, Eq, Structural)]
pub enum ProjectionEntity {
    Session,
    Participant,
    Ready,
    Champion,
    ChampionSpell,
    WorldObject,
    Occupancy,
    Contact,
    MovementIntent,
    CommandReceipt,
    Event,
    ObjectDelta,
    ResourceDelta,
    Quest,
    ScenarioRule,
}

/// Whether a dirty record is to be written or deleted.
#[derive(Clone, Copy, Debug, PartialEq, Eq, Structural)]
pub enum ProjectionDirtyOp {
    Upsert,
    Tombstone,
}

/// A record of the runtime that still has to be written to durable storage.
pub struct ProjectionDirtyEntry {
    pub kernel_id: String,
    pub generation: u64,
    pub entity: ProjectionEntity,
    pub key: String,
    pub op: ProjectionDirtyOp,
    pub priority: u8,
    pub first_dirty_at_ms: u64,
    pub last_dirty_at_ms: u64,
}

/// A dirty entry with its strings taken by their characters.
pub struct DirtyEntryView {
    pub kernel_id: Seq<char>,
    pub generation: u64,
    pub entity: ProjectionEntity,
    pub key: Seq<char>,
    pub op: ProjectionDirtyOp,
    pub priority: u8,
    pub first_dirty_at_ms: u64,
    pub last_dirty_at_ms: u64,
}

impl View for ProjectionDirtyEntry {
    type V = DirtyEntryView;

    open spec fn view(&self) -> DirtyEntryView {
        DirtyEntryView {
            kernel_id: self.kernel_id@,
            generation: self.generation,
            entity: self.entity,
            key: self.key@,
            op: self.op,
            priority: self.priority,
            first_dirty_at_ms: self.first_dirty_at_ms,
            last_dirty_at_ms: self.last_dirty_at_ms,
        }
    }
}

impl Keyed for ProjectionDirtyEntry {
    type K = (ProjectionEntity, Seq<char>);

    open spec fn key_view(&self) -> (ProjectionEntity, Seq<char>) {
        (self.entity, self.key@)
    }

    fn same_key(&self, other: &Self) -> (same: bool) {
        self.entity == other.entity && self.key == other.key
    }
}

impl ProjectionDirtyEntry {
    /// A copy of the entry.
    pub fn copy_entry(&self) -> (copy: Self)
        ensures
            copy@ == self@,
    {
        ProjectionDirtyEntry {
            kernel_id: self.kernel_id.clone(),
            generation: self.generation,
            entity: self.entity,
            key: self.key.clone(),
            op: self.op,
            priority: self.priority,
            first_dirty_at_ms: self.first_dirty_at_ms,
            last_dirty_at_ms: self.last_dirty_at_ms,
        }
    }
}

/// How far the projection of one runtime has been written out.
pub struct ProjectionCheckpoint {
    pub kernel_id: String,
    pub flushed_generation: u64,
    pub flushed_at_ms: u64,
    pub pending_entries: usize,
}

/// A checkpoint with its kernel id taken by its characters.
pub struct CheckpointView {
    pub kernel_id: Seq<char>,
    pub flushed_generation: u64,
    pub flushed_at_ms: u64,
    pub pending_entries: usize,
}

impl View for ProjectionCheckpoint {
    type V = CheckpointView;

    open spec fn view(&self) -> CheckpointView {
        CheckpointView {
            kernel_id: self.kernel_id@,
            flushed_generation: self.flushed_generation,
            flushed_at_ms: self.flushed_at_ms,
            pending_entries: self.pending_entries,
        }
    }
}

impl ProjectionCheckpoint {
    /// A checkpoint of a runtime that has flushed nothing yet.
    pub fn new(kernel_id: String) -> (checkpoint: Self)
        ensures
            checkpoint.kernel_id == kernel_id,
            checkpoint.flushed_generation == 0,
            checkpoint.flushed_at_ms == 0,
            checkpoint.pending_entries == 0,
    {
        ProjectionCheckpoint { kernel_id, flushed_generation: 0, flushed_at_ms: 0, pending_entries: 0 }
    }

    /// A copy of the checkpoint.
    pub fn copy_checkpoint(&self) -> (copy: Self)
        ensures
            copy@ == self@,
    {
        ProjectionCheckpoint {
            kernel_id: self.kernel_id.clone(),
            flushed_generation: self.flushed_generation,
            flushed_at_ms: self.flushed_at_ms,
            pending_entries: self.pending_entries,
        }
    }
}

/// Limits of one projection flush pass.
pub struct ProjectionFlushLimits {
    pub max_rows: usize,
    pub max_instructions: u64,
    pub max_stable_pages_delta: u64,
}

impl ProjectionFlushLimits {
    /// No limit at all.
    pub fn unbounded() -> (limits: Self)
        ensures
            limits.max_rows == usize::MAX,
            limits.max_instructions == u64::MAX,
            limits.max_stable_pages_delta == u64::MAX,
    {
        ProjectionFlushLimits {
            max_rows: usize::MAX,
            max_instructions: u64::MAX,
            max_stable_pages_delta: u64::MAX,
        }
    }
}

/// Occupancy projection key: `"{layer}:{x}:{y}"`.
pub open spec fn occupancy_key_spec(layer: Seq<char>, x: u16, y: u16) -> Seq<char> {
    layer + seq![':'] + dec(x as nat) + seq![':'] + dec(y as nat)
}

/// Contact projection key: `"{x}:{y}:{subject_kind}:{subject_id}"`.
pub open spec fn contact_key_spec(x: u16, y: u16, kind: Seq<char>, id: Seq<char>) -> Seq<char> {
    dec(x as nat) + seq![':'] + dec(y as nat) + seq![':'] + kind + seq![':'] + id
}

/// Builds the projection key of an occupancy cell.
pub fn occupancy_projection_key(cell: &RuntimeOccupancyCell) -> (key: String)
    ensures
        key@ == occupancy_key_spec(cell.layer@, cell.x, cell.y),
{
    let mut key = String::new();
    push_str(&mut key, cell.layer.as_str());
    push_char(&mut key, ':');
    push_decimal(&mut key, cell.x as u64);
    push_char(&mut key, ':');
    push_decimal(&mut key, cell.y as u64);
    proof {
        assert(key@ =~= occupancy_key_spec(cell.layer@, cell.x, cell.y));
    }
    key
}

/// Builds the projection key of a contact cell.
pub fn contact_projection_key(cell: &RuntimeContactCell) -> (key: String)
    ensures
        key@ == contact_key_spec(cell.x, cell.y, cell.subject_kind@, cell.subject_id_text@),
{
    let mut key = String::new();
    push_decimal(&mut key, cell.x as u64);
    push_char(&mut key, ':');
    push_decimal(&mut key, cell.y as u64);
    push_char(&mut key, ':');
    push_str(&mut key, cell.subject_kind.as_str());
    push_char(&mut key, ':');
    push_str(&mut key, cell.subject_id_text.as_str());
    proof {
        assert(key@ =~= contact_key_spec(cell.x, cell.y, cell.subject_kind@, cell.subject_id_text@));
    }
    key
}

/// Projection key of a resource delta: its ledger key, else its participant.
pub open spec fn resource_delta_key_spec(delta: ResourceTurnDelta) -> Seq<char> {
    match delta.ledger {
        Some(ledger) => ledger.ledger_key@,
        None => delta.participant_id@,
    }
}

/// Builds the projection key of a resource delta.
pub fn resource_delta_projection_key(delta: &ResourceTurnDelta) -> (key: String)
    ensures
        key@ == resource_delta_key_spec(*delta),
{
    match &delta.ledger {
        Some(ledger) => ledger.ledger_key.clone(),
        None => delta.participant_id.clone(),
    }
}

/// Which resource a key names.
#[derive(Clone, Copy, Debug, PartialEq, Eq, Structural)]
pub enum ResourceKind {
    Gold,
    Wood,
    Stone,
    Iron,
    Crystal,
    Ember,
    Aether,
}

/// The resource named by `key`, if `key` is one of the seven resource names.
pub open spec fn resource_kind_spec(key: Seq<char>) -> Option<ResourceKind> {
    if key == "gold"@ {
        Some(ResourceKind::Gold)
    } else if key == "wood"@ {
        Some(ResourceKind::Wood)
    } else if key == "stone"@ {
        Some(ResourceKind::Stone)
    } else if key == "iron"@ {
        Some(ResourceKind::Iron)
    } else if key == "crystal"@ {
        Some(ResourceKind::Crystal)
    } else if key == "ember"@ {
        Some(ResourceKind::Ember)
    } else if key == "aether"@ {
        Some(ResourceKind::Aether)
    } else {
        None
    }
}

/// Parses a resource name.
pub fn resource_kind(key: &str) -> (kind: Option<ResourceKind>)
    ensures
        kind == resource_kind_spec(key@),
{
    if str_eq(key, "gold") {
        Some(ResourceKind::Gold)
    } else if str_eq(key, "wood") {
        Some(ResourceKind::Wood)
    } else if str_eq(key, "stone") {
        Some(ResourceKind::Stone)
    } else if str_eq(key, "iron") {
        Some(ResourceKind::Iron)
    } else if str_eq(key, "crystal") {
        Some(ResourceKind::Crystal)
    } else if str_eq(key, "ember") {
        Some(ResourceKind::Ember)
    } else if str_eq(key, "aether") {
        Some(ResourceKind::Aether)
    } else {
        None
    }
}

/// A resource delta of `delta` units of one resource for one participant,
/// with no ledger line; `None` for an unknown resource name.
pub fn resource_turn_delta(participant_id: &str, resource_key: &str, delta: i64) -> (res: Option<
    ResourceTurnDelta,
>)
    ensures
        res is Some <==> resource_kind_spec(resource_key@) is Some,
        res matches Some(d) ==> {
            let k = resource_kind_spec(resource_key@)->0;
            &&& d.participant_id@ == participant_id@
            &&& d.ledger is None
            &&& d.gold == (if k == ResourceKind::Gold { delta } else { 0 })
            &&& d.wood == (if k == ResourceKind::Wood { delta } else { 0 })
            &&& d.stone == (if k == ResourceKind::Stone { delta } else { 0 })
            &&& d.iron == (if k == ResourceKind::Iron { delta } else { 0 })
            &&& d.crystal == (if k == ResourceKind::Crystal { delta } else { 0 })
            &&& d.ember == (if k == ResourceKind::Ember { delta } else { 0 })
            &&& d.aether == (if k == ResourceKind::Aether { delta } else { 0 })
        },
{
    let kind = resource_kind(resource_key);
    let kind = match kind {
        Some(k) => k,
        None => return None,
    };
    let mut pid = String::new();
    push_str(&mut pid, participant_id);
    proof {
        assert(pid@ =~= participant_id@);
    }
    Some(
        ResourceTurnDelta {
            participant_id: pid,
            gold: if kind == ResourceKind::Gold { delta } else { 0 },
            wood: if kind == ResourceKind::Wood { delta } else { 0 },
            stone: if kind == ResourceKind::Stone { delta } else { 0 },
            iron: if kind == ResourceKind::Iron { delta } else { 0 },
            crystal: if kind == ResourceKind::Crystal { delta } else { 0 },
            ember: if kind == ResourceKind::Ember { delta } else { 0 },
            aether: if kind == ResourceKind::Aether { delta } else { 0 },
            ledger: None,
        },
    )
}

} // verus!
