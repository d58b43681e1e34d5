use trmt_core::direction::{Direction, TurnDirection};
use trmt_core::rules::parse_rules;
use trmt_core::symbol::index_to_symbol;
use trmt_core::table::StateTransition;

#[test]
fn sequential_rule_has_one_entry_per_character() {
    // Grammar 3: exactly min(256, len) entries, all in mode 0, each
    // writing symbol (s + 1) mod len.
    let table = parse_rules("RL");
    assert_eq!(table.len(), 2);
    let t0 = table.get(0, 0).copied().unwrap();
    assert_eq!(t0.new_cell_state, 1);
    assert_eq!(t0.turn_direction, TurnDirection::Right);
    assert_eq!(t0.new_internal_state, 0);
    let t1 = table.get(0, 1).copied().unwrap();
    assert_eq!(t1.new_cell_state, 0);
    assert_eq!(t1.turn_direction, TurnDirection::Left);
    assert_eq!(t1.new_internal_state, 0);
    assert!(table.get(0, 2).is_none());
    assert!(table.get(1, 0).is_none());
}

#[test]
fn sequential_rule_entry_count_is_capped() {
    let mut long_rule = String::new();
    for _ in 0..300 {
        long_rule.push('R');
    }
    let table = parse_rules(&long_rule);
    assert_eq!(table.len(), 256);
}

#[test]
fn empty_rule_compiles_to_empty_table() {
    let table = parse_rules("");
    assert_eq!(table.len(), 0);
    assert!(table.is_empty());
}

#[test]
fn unrecognized_character_means_turn_right() {
    // The documented quirk: anything unrecognized acts like `R`.
    let table = parse_rules("X");
    let t = table.get(0, 0).copied().unwrap();
    assert_eq!(t.turn_direction, TurnDirection::Right);
}

#[test]
fn sequential_diagonals_read_two_characters() {
    let table = parse_rules("NWSE");
    assert_eq!(table.len(), 4);
    assert_eq!(
        table.get(0, 0).unwrap().turn_direction,
        TurnDirection::Absolute(Direction::UpLeft)
    );
    // Position 1 reads "WS": not a diagonal, so `W` alone.
    assert_eq!(
        table.get(0, 1).unwrap().turn_direction,
        TurnDirection::Absolute(Direction::Left)
    );
    assert_eq!(
        table.get(0, 2).unwrap().turn_direction,
        TurnDirection::Absolute(Direction::DownRight)
    );
    assert_eq!(
        table.get(0, 3).unwrap().turn_direction,
        TurnDirection::Absolute(Direction::Right)
    );
}

#[test]
fn brace_notation_round_trip() {
    // One mode, one symbol rule: write symbol 1 ('B'), turn right, stay in
    // mode 0.
    let table = parse_rules("{{{1,2,0}}}");
    assert_eq!(table.len(), 1);
    let t = table.get(0, 0).copied().unwrap();
    assert_eq!(t.new_cell_state, 1);
    assert_eq!(t.turn_direction, TurnDirection::Right);
    assert_eq!(t.new_internal_state, 0);
    assert_eq!(index_to_symbol(0), 'A');
    assert_eq!(index_to_symbol(t.new_cell_state), 'B');
}

#[test]
fn brace_notation_ignores_whitespace() {
    let table = parse_rules("{ { {1, 2, 0}, {0, 8, 0} } }");
    assert_eq!(table.len(), 2);
    assert_eq!(table.get(0, 1).unwrap().turn_direction, TurnDirection::Left);
}

#[test]
fn brace_notation_two_modes() {
    let table = parse_rules("{{{1,2,1}},{{0,8,0}}}");
    assert_eq!(table.len(), 2);
    let t0 = table.get(0, 0).copied().unwrap();
    assert_eq!(t0.new_internal_state, 1);
    let t1 = table.get(1, 0).copied().unwrap();
    assert_eq!(t1.turn_direction, TurnDirection::Left);
    assert_eq!(t1.new_internal_state, 0);
}

#[test]
fn malformed_brace_notation_falls_back() {
    // An out-of-range turn flag is a validation failure at compile time,
    // so the string is re-read by the sequential grammar.
    let table = parse_rules("{{{1,3,0}}}");
    // Sequential over the 11 characters of the original string.
    assert_eq!(table.len(), 11);
    assert!(table.get(0, 0).is_some());
}

#[test]
fn multi_mode_auto_cycles() {
    let table = parse_rules("RL:LR");
    assert_eq!(table.len(), 4);
    let a = table.get(0, 0).copied().unwrap();
    assert_eq!(a.turn_direction, TurnDirection::Right);
    assert_eq!(a.new_cell_state, 1);
    assert_eq!(a.new_internal_state, 1);
    let b = table.get(0, 1).copied().unwrap();
    assert_eq!(b.turn_direction, TurnDirection::Left);
    assert_eq!(b.new_cell_state, 0);
    assert_eq!(b.new_internal_state, 1);
    let c = table.get(1, 0).copied().unwrap();
    assert_eq!(c.turn_direction, TurnDirection::Left);
    assert_eq!(c.new_internal_state, 0);
}

#[test]
fn multi_mode_single_mode_stays_put() {
    // An explicit `>` destination pins the mode; one segment without `>`
    // stays in its own mode.
    let table = parse_rules("RL>0");
    assert_eq!(table.len(), 2);
    assert_eq!(table.get(0, 0).unwrap().new_internal_state, 0);
}

#[test]
fn explicit_transitions_with_cell_specifier() {
    let table = parse_rules("R1>1,L0>0");
    assert_eq!(table.len(), 2);
    let a = table.get(0, 0).copied().unwrap();
    assert_eq!(a.turn_direction, TurnDirection::Right);
    assert_eq!(a.new_cell_state, 1);
    assert_eq!(a.new_internal_state, 1);
    let b = table.get(0, 1).copied().unwrap();
    assert_eq!(b.turn_direction, TurnDirection::Left);
    assert_eq!(b.new_cell_state, 0);
    assert_eq!(b.new_internal_state, 0);
}

#[test]
fn explicit_transitions_toggle_without_digit() {
    // Without a destination digit the written symbol toggles between 0
    // and 1 by list position.
    let table = parse_rules("R>0,L>0");
    let a = table.get(0, 0).copied().unwrap();
    assert_eq!(a.new_cell_state, 1);
    let b = table.get(0, 1).copied().unwrap();
    assert_eq!(b.new_cell_state, 0);
}

#[test]
fn turn_operators_are_mutual_inverses() {
    let dirs = [
        Direction::Up,
        Direction::Down,
        Direction::Left,
        Direction::Right,
        Direction::UpLeft,
        Direction::UpRight,
        Direction::DownLeft,
        Direction::DownRight,
    ];
    for d in dirs {
        assert_eq!(d.turn_left().turn_right(), d);
        assert_eq!(d.turn_right().turn_left(), d);
        assert_eq!(d.u_turn().u_turn(), d);
        assert_eq!(d.turn_left().turn_left(), d.u_turn());
    }
}

#[test]
fn turn_directive_application() {
    assert_eq!(
        TurnDirection::Stay.apply(Direction::Left),
        Direction::Left
    );
    assert_eq!(
        TurnDirection::Right.apply(Direction::Up),
        Direction::Right
    );
    assert_eq!(
        TurnDirection::UTurn.apply(Direction::UpLeft),
        Direction::DownRight
    );
    assert_eq!(
        TurnDirection::Absolute(Direction::DownLeft).apply(Direction::Up),
        Direction::DownLeft
    );
}

#[test]
fn direction_deltas() {
    assert_eq!(Direction::Up.apply(3, 3), (3, 2));
    assert_eq!(Direction::Down.apply(3, 3), (3, 4));
    assert_eq!(Direction::Left.apply(3, 3), (2, 3));
    assert_eq!(Direction::Right.apply(3, 3), (4, 3));
    assert_eq!(Direction::UpRight.apply(0, 0), (1, -1));
    assert_eq!(Direction::DownLeft.apply(0, 0), (-1, 1));
}

#[test]
fn symbol_alphabet_rendering() {
    assert_eq!(index_to_symbol(0), 'A');
    assert_eq!(index_to_symbol(25), 'Z');
    assert_eq!(index_to_symbol(26), 'a');
    assert_eq!(index_to_symbol(51), 'z');
    assert_eq!(index_to_symbol(52), '?');
    assert_eq!(index_to_symbol(255), '?');
}

#[test]
fn table_insert_overwrites() {
    let mut table = parse_rules("");
    let t = StateTransition {
        new_cell_state: 3,
        turn_direction: TurnDirection::Left,
        new_internal_state: 1,
    };
    table.insert(0, 0, t);
    let t2 = StateTransition {
        new_cell_state: 4,
        turn_direction: TurnDirection::Stay,
        new_internal_state: 2,
    };
    table.insert(0, 0, t2);
    assert_eq!(table.len(), 1);
    assert_eq!(table.get(0, 0).unwrap().new_cell_state, 4);
    table.clear();
    assert!(table.is_empty());
}
