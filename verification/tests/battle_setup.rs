use degens::battle_setup::{
    attacker_row, battle_spell_status_keys, defender_column, defender_row,
    initial_active_stack, initial_battle_obstacles, learned_spell_slugs, StackInitiative,
    ATTACKER_COLUMN,
};

fn strings(values: &[&str]) -> Vec<String> {
    values.iter().map(|v| v.to_string()).collect()
}

#[test]
fn battle_stacks_start_on_their_rows() {
    assert_eq!((attacker_row(0, 8), attacker_row(1, 8), attacker_row(2, 8)), (3, 6, 4));
    assert_eq!(attacker_row(6, 8), 7);
    assert_eq!(attacker_row(255, 8), 7);
    assert_eq!((defender_row(0, 8), defender_row(2, 8), defender_row(9, 8)), (4, 6, 7));
    assert_eq!(defender_column(10), 8);
    assert_eq!(ATTACKER_COLUMN, 1);
    let obstacles = initial_battle_obstacles();
    assert_eq!((obstacles[0].obstacle_key, obstacles[0].x, obstacles[0].y), ("rubble", 5, 4));
    assert_eq!((obstacles[1].obstacle_key, obstacles[1].x, obstacles[1].y), ("broken-cart", 6, 5));
}

#[test]
fn sorcerers_bring_each_spell_into_battle_once() {
    let slugs = strings(&["sleet", "", "ash-ward", "sleet"]);
    assert!(battle_spell_status_keys(&strings(&["logistics"]), &slugs).is_empty());
    assert_eq!(
        battle_spell_status_keys(&strings(&["logistics", "sour_sorcery"]), &slugs),
        strings(&["battle_spell:ash-ward", "battle_spell:sleet"])
    );
    assert_eq!(
        learned_spell_slugs(&strings(&["sour_sorcery"]), &strings(&["sleet", "ash-ward", "sleet"])),
        strings(&["ash-ward", "sleet", "sleet"])
    );
    assert!(learned_spell_slugs(&Vec::new(), &strings(&["sleet"])).is_empty());
}

fn stack(initiative: u16, speed: u16, tie_break: u64, id: &str) -> StackInitiative {
    StackInitiative { initiative, speed, tie_break, stack_id: id.to_string() }
}

#[test]
fn the_fastest_stack_acts_first() {
    assert_eq!(initial_active_stack(&Vec::new()), None);
    let stacks = vec![
        stack(5, 3, 9, "s-a"),
        stack(7, 1, 9, "s-b"),
        stack(7, 2, 9, "s-c"),
        stack(7, 2, 4, "s-d"),
        stack(7, 2, 4, "s-0"),
    ];
    assert_eq!(initial_active_stack(&stacks), Some(4));
    let tied = vec![stack(1, 1, 1, "x"), stack(1, 1, 1, "x")];
    assert_eq!(initial_active_stack(&tied), Some(0));
}
