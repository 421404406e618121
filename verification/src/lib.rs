//! Verified core of the session-turn kernel of the degens game canister:
//! event-sequence reservation, the heap runtime of an active turn with its
//! projection dirty queue and checkpoint, the store of active turn runtimes
//! and its upgrade snapshot, turn setup and carry-over, the flush order of
//! projection work, movement rules and conflicts, resource arithmetic, and
//! the text encodings these produce.

pub mod event_seq;
pub mod text;
pub mod seqs;
pub mod order;
pub mod runtime_types;
pub mod runtime;
pub mod projection;
pub mod store;
pub mod turn_ops;
pub mod dup;
pub mod carry;
pub mod turn_setup;
pub mod snapshot;
pub mod flush;
pub mod laws;
pub mod path_text;
pub mod json;
pub mod movement_rules;
pub mod conflicts;
pub mod step_rules;
pub mod partial_move;
pub mod vision;
pub mod rule_eval;
pub mod scenario_content;
pub mod object_view;
pub mod listing;
pub mod view_listing;
pub mod map_listing;
pub mod maintenance;
pub mod object_interaction;
pub mod champion_views;
pub mod movement_pass;
pub mod command_answer;
pub mod intent_submission;
pub mod caller_cache;
pub mod latest_views;
pub mod mirror;
pub mod battle_setup;
pub mod resources;
pub mod turn_rules;
pub mod render_rules;
pub mod scenario_receipt;
