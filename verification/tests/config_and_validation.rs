use trmt_core::color::{parse_color, validate_color, ColorValue};
use trmt_core::config::{CharData, Config, DisplayConfig};
use trmt_core::direction::Direction;
use trmt_core::rulegen::{generate_random_rule, score_rule_potential};
use trmt_core::validation::{
    validate_config, validate_direction_string, validate_rule_string, validate_standard_notation,
};

#[test]
fn parse_color_formats() {
    assert_eq!(parse_color("#102030"), ColorValue::Rgb(16, 32, 48));
    assert_eq!(parse_color("#FFB3D1"), ColorValue::Rgb(255, 179, 209));
    assert_eq!(parse_color("rgb(7, 8, 9)"), ColorValue::Rgb(7, 8, 9));
    assert_eq!(parse_color("rgb(255,204,153)"), ColorValue::Rgb(255, 204, 153));
    assert_eq!(parse_color("42"), ColorValue::Indexed(42));
    assert_eq!(parse_color("junk"), ColorValue::White);
    assert_eq!(parse_color("#12345"), ColorValue::White);
    assert_eq!(parse_color("rgb(1,2)"), ColorValue::White);
    assert_eq!(parse_color("300"), ColorValue::White);
}

#[test]
fn validate_color_formats() {
    assert!(validate_color("#FF0000").is_ok());
    assert!(validate_color("#GG0000").is_err());
    assert!(validate_color("rgb(1,2,3)").is_ok());
    assert!(validate_color("rgb(1,2)").is_err());
    assert!(validate_color("rgb(1,2,999)").is_err());
    assert!(validate_color("17").is_ok());
    assert!(validate_color("300").is_err());
    assert!(validate_color("blue").is_err());
}

#[test]
fn validate_rule_strings() {
    assert!(validate_rule_string("").is_ok());
    assert!(validate_rule_string("RL").is_ok());
    assert!(validate_rule_string("NWSE").is_ok());
    assert!(validate_rule_string("RL>1:LR>0").is_ok());
    assert!(validate_rule_string("R1>1,L0>0").is_ok());
    assert!(validate_rule_string("{{{1,2,0}}}").is_ok());
    assert!(validate_rule_string("Q").is_err());
    assert!(validate_rule_string("RL:").is_err());
    assert!(validate_rule_string("R>x").is_err());
}

#[test]
fn validate_standard_notation_rules() {
    assert!(validate_standard_notation("{{{1,2,0}}}").is_ok());
    assert!(validate_standard_notation("{ { {1, 2, 0} } }").is_ok());
    assert!(validate_standard_notation("{{{1,3,0}}}").is_err());
    assert!(validate_standard_notation("{{{300,2,0}}}").is_err());
    assert!(validate_standard_notation("{{{1,2,x}}}").is_err());
    assert!(validate_standard_notation("{{}").is_err());
    assert!(validate_standard_notation("1,2,0").is_err());
}

#[test]
fn validate_direction_strings() {
    assert!(validate_direction_string("RLUD").is_ok());
    assert!(validate_direction_string("NW").is_ok());
    assert!(validate_direction_string("R1>2").is_ok());
    assert!(validate_direction_string("R>").is_ok());
    assert!(validate_direction_string("R>a").is_err());
    assert!(validate_direction_string("P").is_err());
}

#[test]
fn default_config_is_valid() {
    let config = Config::default();
    assert!(validate_config(&config).is_ok());
}

#[test]
fn invalid_head_count_is_reported() {
    let mut config = Config::default();
    config.simulation.heads = 0;
    let errors = validate_config(&config).unwrap_err();
    assert!(!errors.is_empty());
    config.simulation.heads = 257;
    assert!(validate_config(&config).is_err());
    config.simulation.heads = 256;
    assert!(validate_config(&config).is_ok());
}

#[test]
fn duplicate_key_binding_is_reported() {
    let mut config = Config::default();
    config.controls.help = "q".to_string();
    assert!(validate_config(&config).is_err());
}

#[test]
fn empty_glyphs_are_reported() {
    let mut config = Config::default();
    config.display.cell_char = String::new();
    assert!(validate_config(&config).is_err());
    let mut config2 = Config::default();
    config2.display.head_char = vec![String::new()];
    assert!(validate_config(&config2).is_err());
}

#[test]
fn exclusive_display_modes_are_reported() {
    let mut config = Config::default();
    config.display.direction_based_chars = true;
    config.display.randomize_heads = true;
    assert!(validate_config(&config).is_err());
}

#[test]
fn invalid_rule_in_config_is_reported() {
    let mut config = Config::default();
    config.simulation.rule = "QQ".to_string();
    assert!(validate_config(&config).is_err());
}

#[test]
fn score_formula_exact_values() {
    // "RL": length 2 (out of [4,12]), perfect balance, two turn chars.
    assert_eq!(score_rule_potential("RL"), 16);
    // "RLUD": in range (10), balanced (10), four distinct turn chars (12).
    assert_eq!(score_rule_potential("RLUD"), 32);
    // Empty: out of range, balanced, no turn characters.
    assert_eq!(score_rule_potential(""), 10);
    // Six lefts: in range, hopelessly unbalanced, one turn char.
    assert_eq!(score_rule_potential("LLLLLL"), 13);
    // Segment lengths are summed without the separators.
    assert_eq!(score_rule_potential("LL:RR"), 26);
}

#[test]
fn generated_rules_are_nonempty_and_often_well_sized() {
    let mut in_range = 0usize;
    let total = 300usize;
    for _ in 0..total {
        let rule = generate_random_rule();
        assert!(!rule.is_empty());
        let len: usize = rule.split(':').map(|s| s.len()).sum();
        if (4..=12).contains(&len) {
            in_range += 1;
        }
    }
    // Materially more often in the sweet spot than chance would give.
    assert!(in_range * 10 >= total * 4);
}

#[test]
fn generated_rules_compile_and_validate() {
    for _ in 0..50 {
        let rule = generate_random_rule();
        assert!(validate_rule_string(&rule).is_ok());
        let table = trmt_core::rules::parse_rules(&rule);
        assert!(table.len() > 0);
    }
}

#[test]
fn char_data_splits_glyphs() {
    let d = CharData::new("ab");
    assert_eq!(d.chars, vec!['a', 'b']);
    assert!(!d.is_single_char);
    let s = CharData::new("x");
    assert!(s.is_single_char);
}

#[test]
fn display_config_cell_rendering() {
    let display = DisplayConfig::default();
    assert!(!display.should_render_cell('A'));
    assert!(display.should_render_cell('B'));
    let mut state_based = DisplayConfig::default();
    state_based.state_based_colors = true;
    assert!(state_based.should_render_cell('A'));
}

#[test]
fn display_config_direction_chars() {
    let display = DisplayConfig::default();
    assert_eq!(
        display.get_direction_char_index(Direction::Right, Some(Direction::Up)),
        0
    );
    assert_eq!(
        display.get_direction_char_index(Direction::Up, Some(Direction::Up)),
        4
    );
    assert_eq!(
        display.get_direction_char_index(Direction::Left, Some(Direction::Left)),
        5
    );
    assert_eq!(display.get_direction_char_index(Direction::Up, None), 5);
    assert_eq!(display.get_head_char_index(3, Direction::Up, None), 0);
}

#[test]
fn display_config_colors() {
    let display = DisplayConfig::default();
    // Head colors cycle through the palette.
    assert_eq!(display.get_head_color(0), ColorValue::Rgb(241, 113, 54));
    assert_eq!(display.get_head_color(6), ColorValue::Rgb(241, 113, 54));
    assert_eq!(display.get_head_color(4), ColorValue::Indexed(225));
    // Cell colors follow the head unless state-based coloring is on.
    assert_eq!(display.get_cell_color('B', 1), ColorValue::Rgb(255, 204, 153));
    let mut state_based = DisplayConfig::default();
    state_based.state_based_colors = true;
    assert_eq!(state_based.get_cell_color('B', 0), ColorValue::Rgb(255, 204, 153));
}

#[test]
fn effective_seed_precedence() {
    let mut config = Config::default();
    config.simulation.seed = Some("cfgseed".to_string());
    assert_eq!(
        config.get_effective_seed(Some("  persisted \n")),
        Some("persisted".to_string())
    );
    assert_eq!(config.get_effective_seed(Some("   ")), Some("cfgseed".to_string()));
    assert_eq!(config.get_effective_seed(None), Some("cfgseed".to_string()));
    config.simulation.seed = Some(String::new());
    assert_eq!(config.get_effective_seed(None), None);
    config.simulation.seed = None;
    assert_eq!(config.get_effective_seed(None), None);
}

#[test]
fn effective_rule_precedence() {
    let config = Config::default();
    assert_eq!(config.get_effective_rule(Some(" LLRR ")), "LLRR".to_string());
    assert_eq!(config.get_effective_rule(None), "RL".to_string());
    let mut empty_rule = Config::default();
    empty_rule.simulation.rule = String::new();
    // With nothing persisted and nothing configured a random rule comes
    // back; it is never empty.
    let generated = empty_rule.get_effective_rule(None);
    assert!(!generated.is_empty());
}
