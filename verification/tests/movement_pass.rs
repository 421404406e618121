use degens::movement_pass::{
    commit_step, finished_step_outcome, resolved_at_end, step_finishes_move, stepping_moves,
    tie_break_from_hash, ChampionMove, MicrostepAction, MicrostepRun, PendingStep,
};
use degens::movement_pass::{fast_final, fast_final_contact, fast_path_plan, fast_stop_point, FastFinal, FastPathPlan};
use degens::path_text::MoveCoord;
use degens::step_rules::{BlockerPass, ChampionCellFacts, StepBlock};

fn pending(id: &str, resolved: bool, active: bool, path_len: usize) -> PendingStep {
    PendingStep { champion_id: id.to_string(), resolved, champion_active: active, path_len }
}

#[test]
fn one_sync_resolves_one_microstep_then_parks() {
    let mut run = MicrostepRun::new();
    assert_eq!(run.next_action(false), MicrostepAction::Resolve);
    run.advance();
    assert_eq!((run.step_index, run.processed), (1, 1));
    assert_eq!(run.next_action(false), MicrostepAction::Park);
    assert_eq!(run.next_action(true), MicrostepAction::Finish);
    let mut top = MicrostepRun { step_index: u16::MAX, processed: u16::MAX };
    top.advance();
    assert_eq!((top.step_index, top.processed), (u16::MAX, u16::MAX));
}

#[test]
fn moves_take_steps_in_champion_id_order() {
    let moves = vec![
        pending("c-b", false, true, 3),
        pending("c-a", false, true, 1),
        pending("c-c", true, true, 5),
        pending("c-0", false, false, 5),
        pending("c-a2", false, true, 2),
    ];
    let order: Vec<usize> = stepping_moves(&moves, 0).iter().map(|s| s.pending_index).collect();
    assert_eq!(order, vec![1, 4, 0]);
    let order: Vec<usize> = stepping_moves(&moves, 1).iter().map(|s| s.pending_index).collect();
    assert_eq!(order, vec![4, 0]);
    assert!(stepping_moves(&moves, 3).is_empty());
    assert!(resolved_at_end(false, 2, 2));
    assert!(!resolved_at_end(false, 3, 2));
    assert!(!resolved_at_end(true, 1, 2));
}

#[test]
fn tie_breaks_read_sixteen_hex_digits() {
    assert_eq!(tie_break_from_hash("00000000000000ffdeadbeef"), 0xff);
    assert_eq!(tie_break_from_hash("FFFFFFFFFFFFFFFF"), u64::MAX);
    assert_eq!(tie_break_from_hash("0123456789abcdef"), 0x0123456789abcdef);
    assert_eq!(tie_break_from_hash("0123456789abcde"), 0);
    assert_eq!(tie_break_from_hash("0123456789abcdeg99"), 0);
}

#[test]
fn committing_a_step_moves_the_champion_and_spends_movement() {
    let mut champion = ChampionMove {
        x: 1,
        y: 1,
        chunk_x: 0,
        chunk_y: 0,
        movement_remaining: 9,
        movement_turn: 1,
        last_command_id: None,
    };
    commit_step(&mut champion, MoveCoord { x: 17, y: 2 }, 5, 7, 16, 3, "cmd-9");
    assert_eq!((champion.x, champion.y, champion.chunk_x, champion.chunk_y), (17, 2, 1, 0));
    assert_eq!(champion.movement_remaining, 0);
    assert_eq!(champion.movement_turn, 3);
    assert_eq!(champion.last_command_id.as_deref(), Some("cmd-9"));
    assert!(step_finishes_move(false, 1, 0));
    assert!(!step_finishes_move(false, 3, 0));
    assert!(step_finishes_move(true, 3, 0));
    assert_eq!(finished_step_outcome(true), "stopped_object_interaction");
    assert_eq!(finished_step_outcome(false), "moved");
}

#[test]
fn fast_path_ends_at_blockers_guards_or_the_final_cell() {
    use_fast_path_cases();
}

fn use_fast_path_cases() {
    let blocker = Some(ChampionCellFacts {
        blocking: true,
        is_mover: false,
        occupant_participant_id: None,
    });
    let own_cell = Some(ChampionCellFacts {
        blocking: true,
        is_mover: true,
        occupant_participant_id: None,
    });
    assert!(fast_final_contact(true, &None));
    assert!(fast_final_contact(false, &blocker));
    assert!(!fast_final_contact(false, &own_cell));
    assert_eq!(fast_final(true, &blocker, "p-2", "p-1"), FastFinal::ChampionBlocker { enemy: true });
    assert_eq!(fast_final(false, &blocker, "p-1", "p-1"), FastFinal::ChampionBlocker { enemy: false });
    assert_eq!(fast_final(true, &own_cell, "", "p-1"), FastFinal::GuardedObject);
    assert_eq!(fast_final(false, &None, "", "p-1"), FastFinal::Arrive);
    let start = MoveCoord { x: 0, y: 0 };
    let path = vec![MoveCoord { x: 1, y: 0 }, MoveCoord { x: 2, y: 0 }, MoveCoord { x: 3, y: 0 }];
    let stop = fast_stop_point(start, &path);
    assert_eq!((stop.steps, stop.coord, stop.step_index), (2, MoveCoord { x: 2, y: 0 }, 2));
    let short = fast_stop_point(start, &vec![MoveCoord { x: 1, y: 1 }]);
    assert_eq!((short.steps, short.coord, short.step_index), (0, start, 0));
}

#[test]
fn fast_path_plan_skips_or_ends_a_single_move() {
    let blocker = Some(ChampionCellFacts { blocking: true, is_mover: false, occupant_participant_id: None });
    let start = MoveCoord { x: 0, y: 0 };
    let short = vec![MoveCoord { x: 1, y: 0 }, MoveCoord { x: 2, y: 0 }];
    let long: Vec<MoveCoord> = (1..=5).map(|x| MoveCoord { x, y: 0 }).collect();
    assert!(matches!(fast_path_plan(2, start, &long, false, &None, "", "p-1"), FastPathPlan::Skip));
    assert!(matches!(fast_path_plan(1, start, &short, false, &None, "", "p-1"), FastPathPlan::Skip));
    match fast_path_plan(1, start, &long, false, &None, "", "p-1") {
        FastPathPlan::Arrive { final_coord, step_index } => {
            assert_eq!((final_coord, step_index), (MoveCoord { x: 5, y: 0 }, 4));
        }
        _ => panic!("a long free move arrives"),
    }
    match fast_path_plan(1, start, &short, false, &blocker, "p-2", "p-1") {
        FastPathPlan::StopAtChampion { enemy, stop } => {
            assert!(enemy);
            assert_eq!((stop.steps, stop.coord, stop.step_index), (1, MoveCoord { x: 1, y: 0 }, 1));
        }
        _ => panic!("a blocker stops the move"),
    }
    match fast_path_plan(1, start, &short, true, &None, "", "p-1") {
        FastPathPlan::StopAtGuardedObject { stop } => {
            assert_eq!((stop.steps, stop.coord), (1, MoveCoord { x: 1, y: 0 }));
        }
        _ => panic!("a guarded object stops the move"),
    }
}

#[test]
fn blocked_candidates_leave_the_step_in_order() {
    let mut pass = BlockerPass::new(vec![1, 3, 5, 7]);
    assert_eq!(pass.next_candidate(), Some(1));
    assert!(pass.settle(1, StepBlock::Clear, true, None));
    assert_eq!(pass.next_candidate(), Some(3));
    assert!(pass.settle(3, StepBlock::ChampionBlocker { enemy: false }, true, Some(5)));
    assert_eq!(pass.active, vec![1, 7]);
    assert_eq!(pass.next_candidate(), Some(7));
    assert!(!pass.settle(7, StepBlock::Town { enemy: true }, true, None));
    assert_eq!(pass.active, vec![1]);
    assert_eq!(pass.next_candidate(), None);
    let mut paused = BlockerPass::new(vec![2]);
    assert_eq!(paused.next_candidate(), Some(2));
    assert!(!paused.settle(2, StepBlock::GuardedObject, false, None));
}
