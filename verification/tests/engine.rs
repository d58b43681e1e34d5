use trmt_core::color::ColorValue;
use trmt_core::coordmap::CoordMap;
use trmt_core::direction::Direction;
use trmt_core::grid::Grid;
use trmt_core::heads::Head;
use trmt_core::machine::TuringMachine;
use trmt_core::rules::parse_rules;

fn palette() -> Vec<ColorValue> {
    vec![ColorValue::Indexed(1), ColorValue::Indexed(2)]
}

fn machine_with_heads(heads: Vec<Head>, rule: &str) -> TuringMachine {
    let n = heads.len();
    TuringMachine {
        grid: Grid::new(),
        heads,
        rule_string: rule.to_string(),
        rules: parse_rules(rule),
        num_heads: n,
        running: true,
        steps: 0,
        current_seed: "fixed".to_string(),
        grid_width: 100,
        grid_height: 100,
        random_facing: false,
        colors: palette(),
        dirty_cells: CoordMap::new(),
    }
}

#[test]
fn reproducibility_of_initial_configuration() {
    let a = TuringMachine::new(4, "RL", "abc123", false, true, palette());
    let b = TuringMachine::new(4, "RL", "abc123", false, true, palette());
    assert_eq!(a.heads.len(), 4);
    assert_eq!(b.heads.len(), 4);
    for i in 0..4 {
        assert_eq!(a.heads[i].x, b.heads[i].x);
        assert_eq!(a.heads[i].y, b.heads[i].y);
        assert_eq!(a.heads[i].direction, b.heads[i].direction);
        assert_eq!(a.heads[i].internal_state, b.heads[i].internal_state);
        assert!(a.heads[i].x >= 0 && a.heads[i].x < 100);
        assert!(a.heads[i].y >= 0 && a.heads[i].y < 100);
    }
}

#[test]
fn reproducibility_of_trajectories() {
    let mut a = TuringMachine::new(4, "RL", "abc123", false, true, palette());
    let mut b = TuringMachine::new(4, "RL", "abc123", false, true, palette());
    for _ in 0..12 {
        a.step(100, 100, 16);
        b.step(100, 100, 16);
    }
    assert_eq!(a.steps, 12);
    assert_eq!(b.steps, 12);
    for i in 0..4 {
        assert_eq!(a.heads[i].x, b.heads[i].x);
        assert_eq!(a.heads[i].y, b.heads[i].y);
        assert_eq!(a.heads[i].direction, b.heads[i].direction);
    }
    for x in 0..100 {
        for y in 0..100 {
            assert_eq!(a.get_cell(x, y), b.get_cell(x, y));
        }
    }
}

#[test]
fn different_seeds_differ() {
    // The seeded generator must actually be consulted: two far-apart
    // seeds giving four identical positions each would mean the draws
    // ignore the seed.
    let a = TuringMachine::new(4, "RL", "abc123", false, true, palette());
    let b = TuringMachine::new(4, "RL", "zzz999", false, true, palette());
    let same = (0..4).all(|i| a.heads[i].x == b.heads[i].x && a.heads[i].y == b.heads[i].y);
    assert!(!same);
}

#[test]
fn wraparound_at_right_edge() {
    // An agent at (width - 1, y) moving right lands at (0, y).
    let mut head = Head::new(0, 3, ColorValue::White);
    head.direction = Direction::Up;
    // 'E' turns the head to face absolute right on every symbol.
    let mut m = machine_with_heads(vec![head], "E");
    let width = m.heads[0].x + 1;
    m.step(width, 50, 16);
    assert_eq!(m.heads[0].x, 0);
    assert_eq!(m.heads[0].y, 3);
    assert_eq!(m.heads[0].direction, Direction::Right);
}

#[test]
fn wraparound_at_top_edge() {
    // Moving up from y == 0 wraps to height - 1.
    let head = Head::new(5, 0, ColorValue::White);
    let mut m = machine_with_heads(vec![head], "D");
    m.step(100, 40, 16);
    assert_eq!(m.heads[0].x, 5);
    assert_eq!(m.heads[0].y, 39);
}

#[test]
fn atomicity_of_same_cell_writes() {
    let mut h0 = Head::new(5, 5, ColorValue::Indexed(1));
    let mut h1 = Head::new(5, 5, ColorValue::Indexed(2));
    h0.direction = Direction::Up;
    h1.direction = Direction::Up;
    let mut m = machine_with_heads(vec![h0, h1], "RL");
    m.step(100, 100, 16);
    // The cell reflects exactly one of the two staged writes: the one
    // applied last, in the second head's color.
    let cell = m.grid.get(5, 5).unwrap();
    assert_eq!(cell.symbol, 1);
    assert_eq!(cell.color, ColorValue::Indexed(2));
    // Both agents moved according to their own pre-tick lookup.
    assert_eq!(m.heads[0].x, 6);
    assert_eq!(m.heads[0].y, 5);
    assert_eq!(m.heads[1].x, 6);
    assert_eq!(m.heads[1].y, 5);
    assert_eq!(m.heads[0].direction, Direction::Right);
    assert_eq!(m.heads[1].direction, Direction::Right);
}

#[test]
fn undefined_transition_freezes_agent() {
    // An empty rule compiles to an empty table: every lookup misses and
    // the agent keeps position, facing and mode.
    let head = Head::new(7, 9, ColorValue::White);
    let mut m = machine_with_heads(vec![head], "");
    m.step(100, 100, 16);
    assert_eq!(m.heads[0].x, 7);
    assert_eq!(m.heads[0].y, 9);
    assert_eq!(m.heads[0].direction, Direction::Up);
    assert_eq!(m.heads[0].internal_state, 0);
    assert_eq!(m.steps, 1);
}

#[test]
fn paused_engine_does_not_step() {
    let head = Head::new(2, 2, ColorValue::White);
    let mut m = machine_with_heads(vec![head], "RL");
    m.running = false;
    m.step(100, 100, 16);
    assert_eq!(m.steps, 0);
    assert_eq!(m.heads[0].x, 2);
    m.toggle_running();
    assert!(m.running);
    m.step(100, 100, 16);
    assert_eq!(m.steps, 1);
}

#[test]
fn langton_ant_first_steps() {
    // Classic two-symbol turmite on a blank grid: the first write is
    // symbol 1 at the starting cell, and revisiting reads it back.
    let head = Head::new(10, 10, ColorValue::White);
    let mut m = machine_with_heads(vec![head], "RL");
    assert_eq!(m.get_cell(10, 10), 0);
    m.step(100, 100, 16);
    assert_eq!(m.get_cell(10, 10), 1);
    // Facing turned Up -> Right, so the head moved one cell right.
    assert_eq!(m.heads[0].x, 11);
    assert_eq!(m.heads[0].y, 10);
    assert_eq!(m.heads[0].previous_direction, Some(Direction::Up));
}

#[test]
fn default_symbol_write_removes_entry() {
    // Writing the default symbol removes the stored cell entirely.
    let mut g = Grid::new();
    g.set_cell(1, 2, 5, ColorValue::White);
    assert_eq!(g.visited_count(), 1);
    assert_eq!(g.get_cell(1, 2), 5);
    g.set_cell(1, 2, 0, ColorValue::White);
    assert_eq!(g.visited_count(), 0);
    assert_eq!(g.get_cell(1, 2), 0);
    assert!(g.get(1, 2).is_none());
}

#[test]
fn trail_is_bounded_fifo() {
    let mut head = Head::new(0, 0, ColorValue::White);
    head.move_to(1, 0, 2);
    head.move_to(2, 0, 2);
    head.move_to(3, 0, 2);
    assert_eq!(head.trail.len(), 2);
    assert_eq!(head.trail[0], (1, 0));
    assert_eq!(head.trail[1], (2, 0));
    assert_eq!(head.x, 3);
}

#[test]
fn reset_recompiles_and_respawns() {
    let mut m = TuringMachine::new(3, "RL", "seed-a", false, true, palette());
    m.step(100, 100, 16);
    m.reset("seed-b", "LLRR", 300);
    assert!(!m.running);
    assert_eq!(m.steps, 0);
    assert_eq!(m.num_heads, 256);
    assert_eq!(m.heads.len(), 256);
    assert_eq!(m.rule_string, "LLRR");
    assert_eq!(m.rules.len(), 4);
    assert_eq!(m.current_seed, "seed-b");
    for x in 0..100 {
        for y in 0..100 {
            assert_eq!(m.get_cell(x, y), 0);
        }
    }
}

#[test]
fn empty_seed_generates_fresh_one() {
    let m = TuringMachine::new(1, "RL", "", false, true, palette());
    assert_eq!(m.current_seed.len(), 8);
    assert!(m
        .current_seed
        .chars()
        .all(|c| c.is_ascii_lowercase() || c.is_ascii_digit()));
}

#[test]
fn viewport_change_clears_grid() {
    let head = Head::new(4, 4, ColorValue::White);
    let mut m = machine_with_heads(vec![head], "RL");
    m.step(100, 100, 16);
    assert_eq!(m.get_cell(4, 4), 1);
    m.update_grid_dimensions(100, 100);
    assert_eq!(m.get_cell(4, 4), 1);
    m.update_grid_dimensions(80, 60);
    assert_eq!(m.get_cell(4, 4), 0);
    assert_eq!(m.grid_width, 80);
    assert_eq!(m.grid_height, 60);
}

#[test]
fn dirty_cells_track_writes_and_heads() {
    let head = Head::new(4, 4, ColorValue::White);
    let mut m = machine_with_heads(vec![head], "RL");
    m.step(100, 100, 16);
    // The written cell and the head's new position are dirty.
    assert!(m.dirty_cells.contains(4, 4));
    assert!(m.dirty_cells.contains(5, 4));
    m.clear_dirty_cells();
    assert!(!m.dirty_cells.contains(4, 4));
    m.mark_trail_dirty();
    assert!(m.dirty_cells.contains(5, 4));
}

#[test]
fn set_head_count_clamps_and_respawns() {
    let mut m = TuringMachine::new(2, "RL", "abc", false, true, palette());
    m.set_head_count(7);
    assert_eq!(m.num_heads, 7);
    assert_eq!(m.heads.len(), 7);
    m.set_head_count(1000);
    assert_eq!(m.num_heads, 256);
}

#[test]
fn update_colors_recolors_heads() {
    let mut m = TuringMachine::new(3, "RL", "abc", false, true, palette());
    let fresh = vec![ColorValue::Rgb(1, 2, 3)];
    m.update_colors(&fresh);
    for h in &m.heads {
        assert_eq!(h.color, ColorValue::Rgb(1, 2, 3));
    }
}

#[test]
fn random_facing_draws_are_reproducible() {
    let a = TuringMachine::new(6, "RL", "faced", true, true, palette());
    let b = TuringMachine::new(6, "RL", "faced", true, true, palette());
    for i in 0..6 {
        assert_eq!(a.heads[i].direction, b.heads[i].direction);
    }
}

#[test]
fn generate_random_seed_shape() {
    let m = TuringMachine::new(1, "RL", "abc", false, true, palette());
    let s = m.generate_random_seed();
    assert_eq!(s.chars().count(), 8);
    assert!(s.chars().all(|c| c.is_ascii_lowercase() || c.is_ascii_digit()));
}
