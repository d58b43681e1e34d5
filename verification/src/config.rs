//! The parts of the configuration the core computes with: simulation
//! parameters, display choices, key bindings. Reading the configuration
//! file itself, and settings the core never touches, live with the
//! embedding shell.

use vstd::prelude::*;
use crate::chars::{str_to_chars, trim_chars, chars_to_string, spec_trim};
use crate::color::{ColorValue, parse_color, spec_parse_color};
use crate::direction::Direction;
use crate::rulegen::generate_random_rule;

verus! {

/// Simulation parameters the engine consumes.
pub struct SimulationConfig {
    pub autoplay: bool,
    pub heads: usize,
    pub rule: String,
    pub trail_length: usize,
    pub color_cells: bool,
    pub seed: Option<String>,
}

impl Default for SimulationConfig {
    /// Six autoplaying heads running the classic two-token rule, a trail
    /// of sixteen, colored cells, and an empty seed requesting a fresh one.
    fn default() -> (r: Self)
        ensures
            r.autoplay == true,
            r.heads == 6,
            r.rule@ == "RL"@,
            r.trail_length == 16,
            r.color_cells == true,
            r.seed is Some && r.seed->0@ == ""@,
    {
        SimulationConfig {
            autoplay: true,
            heads: 6,
            rule: "RL".to_owned(),
            trail_length: 16,
            color_cells: true,
            seed: Some("".to_owned()),
        }
    }
}

/// One display glyph, pre-split into characters.
pub struct CharData {
    pub chars: Vec<char>,
    pub is_single_char: bool,
}

impl CharData {
    pub fn new(s: &str) -> (r: CharData)
        ensures
            r.chars@ == s@,
            r.is_single_char == (s@.len() == 1),
    {
        let chars = str_to_chars(s);
        let single = chars.len() == 1;
        CharData { chars, is_single_char: single }
    }
}

/// Display choices that affect what the core reports for rendering.
pub struct DisplayConfig {
    pub keycast: bool,
    pub colors: Vec<String>,
    pub fade_trail_color: String,
    pub state_based_colors: bool,
    pub live_colors: bool,
    pub randomize_heads: bool,
    pub randomize_trails: bool,
    pub direction_based_chars: bool,
    pub head_char: Vec<String>,
    pub trail_char: Vec<String>,
    pub cell_char: String,
    pub head_char_data: Vec<CharData>,
    pub trail_char_data: Vec<CharData>,
    pub cell_char_data: CharData,
}

/// Palette index a symbol character selects when colors follow cell
/// states: the character's low byte, floored at `'A'`.
pub open spec fn cell_color_index(c: char) -> int {
    let b = (c as u32) % 256;
    if b < 65 {
        0
    } else {
        b - 65
    }
}

/// Glyph index selected by a move from `prev_dir` to `current_dir`:
/// corners, straights and diagonals each get their own glyph, anything
/// else the horizontal one.
pub open spec fn spec_direction_char_index(
    current_dir: Direction,
    prev_dir: Option<Direction>,
) -> int {
    match prev_dir {
        Option::Some(p) => {
            if (p == Direction::Up && current_dir == Direction::Right) || (p == Direction::Left
                && current_dir == Direction::Down) {
                0
            } else if (p == Direction::Up && current_dir == Direction::Left) || (p
                == Direction::Right && current_dir == Direction::Down) {
                1
            } else if (p == Direction::Down && current_dir == Direction::Right) || (p
                == Direction::Left && current_dir == Direction::Up) {
                2
            } else if (p == Direction::Down && current_dir == Direction::Left) || (p
                == Direction::Right && current_dir == Direction::Up) {
                3
            } else if (p == Direction::Up || p == Direction::Down) && (current_dir == Direction::Up
                || current_dir == Direction::Down) {
                4
            } else if (p == Direction::Left || p == Direction::Right) && (current_dir
                == Direction::Left || current_dir == Direction::Right) {
                5
            } else if (p == Direction::UpRight || p == Direction::DownLeft) && (current_dir
                == Direction::UpRight || current_dir == Direction::DownLeft) {
                6
            } else if (p == Direction::UpLeft || p == Direction::DownRight) && (current_dir
                == Direction::UpLeft || current_dir == Direction::DownRight) {
                7
            } else if (p == Direction::UpRight && current_dir == Direction::DownRight) || (p
                == Direction::UpLeft && current_dir == Direction::DownLeft) {
                8
            } else if (p == Direction::DownRight && current_dir == Direction::UpRight) || (p
                == Direction::DownLeft && current_dir == Direction::UpLeft) {
                9
            } else {
                5
            }
        },
        Option::None => 5,
    }
}

impl DisplayConfig {
    /// Rebuilds the cached per-glyph character data from the configured
    /// glyph strings.
    pub fn cache_char_data(&mut self)
        ensures
            final(self).head_char_data@.len() == old(self).head_char@.len(),
            forall|i: int|
                0 <= i < old(self).head_char@.len() ==> (#[trigger] final(self).head_char_data@[i]).chars@
                    == old(self).head_char@[i]@ && final(self).head_char_data@[i].is_single_char
                    == (old(self).head_char@[i]@.len() == 1),
            final(self).trail_char_data@.len() == old(self).trail_char@.len(),
            forall|i: int|
                0 <= i < old(self).trail_char@.len() ==> (#[trigger] final(self).trail_char_data@[i]).chars@
                    == old(self).trail_char@[i]@ && final(self).trail_char_data@[i].is_single_char
                    == (old(self).trail_char@[i]@.len() == 1),
            final(self).cell_char_data.chars@ == old(self).cell_char@,
            final(self).cell_char_data.is_single_char == (old(self).cell_char@.len() == 1),
            final(self).keycast == old(self).keycast,
            final(self).colors == old(self).colors,
            final(self).fade_trail_color == old(self).fade_trail_color,
            final(self).state_based_colors == old(self).state_based_colors,
            final(self).live_colors == old(self).live_colors,
            final(self).randomize_heads == old(self).randomize_heads,
            final(self).randomize_trails == old(self).randomize_trails,
            final(self).direction_based_chars == old(self).direction_based_chars,
            final(self).head_char == old(self).head_char,
            final(self).trail_char == old(self).trail_char,
            final(self).cell_char == old(self).cell_char,
    {
        let mut head_data: Vec<CharData> = Vec::new();
        let nh = self.head_char.len();
        let mut i: usize = 0;
        while i < nh
            invariant
                nh == self.head_char@.len(),
                i <= nh,
                self == old(self),
                head_data@.len() == i,
                forall|j: int|
                    0 <= j < i ==> (#[trigger] head_data@[j]).chars@ == self.head_char@[j]@
                        && head_data@[j].is_single_char == (self.head_char@[j]@.len() == 1),
            decreases nh - i,
        {
            let d = CharData::new(self.head_char[i].as_str());
            head_data.push(d);
            i += 1;
        }
        let mut trail_data: Vec<CharData> = Vec::new();
        let nt = self.trail_char.len();
        let mut i: usize = 0;
        while i < nt
            invariant
                nt == self.trail_char@.len(),
                i <= nt,
                self == old(self),
                trail_data@.len() == i,
                forall|j: int|
                    0 <= j < i ==> (#[trigger] trail_data@[j]).chars@ == self.trail_char@[j]@
                        && trail_data@[j].is_single_char == (self.trail_char@[j]@.len() == 1),
            decreases nt - i,
        {
            let d = CharData::new(self.trail_char[i].as_str());
            trail_data.push(d);
            i += 1;
        }
        let cell_data = CharData::new(self.cell_char.as_str());
        self.head_char_data = head_data;
        self.trail_char_data = trail_data;
        self.cell_char_data = cell_data;
    }

    /// Whether a cell with this symbol character is drawn at all: always
    /// when colors follow cell states, else only off-default cells.
    pub fn should_render_cell(&self, cell_state: char) -> (r: bool)
        ensures
            r == (self.state_based_colors || cell_state != 'A'),
    {
        self.state_based_colors || cell_state != 'A'
    }

    /// Color for a written cell: keyed by the cell's symbol when colors
    /// follow cell states, else by the writing head; white without a
    /// palette.
    pub fn get_cell_color(&self, cell_state: char, head_index: usize) -> (r: ColorValue)
        ensures
            self.colors@.len() == 0 ==> r == ColorValue::White,
            self.colors@.len() > 0 && self.state_based_colors ==> r == spec_parse_color(
                self.colors@[cell_color_index(cell_state) % (self.colors@.len() as int)]@,
            ),
            self.colors@.len() > 0 && !self.state_based_colors ==> r == spec_parse_color(
                self.colors@[head_index as int % (self.colors@.len() as int)]@,
            ),
    {
        if self.colors.len() == 0 {
            return ColorValue::White;
        }
        if self.state_based_colors {
            let b = (cell_state as u32) % 256;
            let idx: usize = if b < 65 {
                0
            } else {
                (b - 65) as usize
            };
            parse_color(self.colors[idx % self.colors.len()].as_str())
        } else {
            parse_color(self.colors[head_index % self.colors.len()].as_str())
        }
    }

    /// Color a head is drawn in: the palette cycled by head index, except
    /// that live state-based coloring pins every head to the first entry;
    /// white without a palette.
    pub fn get_head_color(&self, head_index: usize) -> (r: ColorValue)
        ensures
            self.colors@.len() == 0 ==> r == ColorValue::White,
            self.colors@.len() > 0 && self.state_based_colors && self.live_colors ==> r
                == spec_parse_color(self.colors@[0]@),
            self.colors@.len() > 0 && !(self.state_based_colors && self.live_colors) ==> r
                == spec_parse_color(self.colors@[head_index as int % (self.colors@.len() as int)]@),
    {
        if self.colors.len() == 0 {
            return ColorValue::White;
        }
        if self.state_based_colors && self.live_colors {
            parse_color(self.colors[0].as_str())
        } else {
            parse_color(self.colors[head_index % self.colors.len()].as_str())
        }
    }

    /// Glyph index for a head: direction-derived when that mode is on,
    /// else the head index cycled through the glyph list.
    pub fn get_head_char_index(
        &self,
        head_index: usize,
        direction: Direction,
        previous_direction: Option<Direction>,
    ) -> (r: usize)
        requires
            self.direction_based_chars || self.head_char_data@.len() > 0,
        ensures
            self.direction_based_chars ==> r as int == spec_direction_char_index(
                direction,
                previous_direction,
            ),
            !self.direction_based_chars ==> r as int == head_index as int % (
            self.head_char_data@.len() as int),
    {
        if self.direction_based_chars {
            self.get_direction_char_index(direction, previous_direction)
        } else {
            head_index % self.head_char_data.len()
        }
    }

    /// Glyph index derived from the move between two facings.
    pub fn get_direction_char_index(
        &self,
        current_dir: Direction,
        prev_dir: Option<Direction>,
    ) -> (r: usize)
        ensures
            r as int == spec_direction_char_index(current_dir, prev_dir),
            r <= 9,
    {
        match (prev_dir, current_dir) {
            (Some(Direction::Up), Direction::Right) => 0,
            (Some(Direction::Left), Direction::Down) => 0,
            (Some(Direction::Up), Direction::Left) => 1,
            (Some(Direction::Right), Direction::Down) => 1,
            (Some(Direction::Down), Direction::Right) => 2,
            (Some(Direction::Left), Direction::Up) => 2,
            (Some(Direction::Down), Direction::Left) => 3,
            (Some(Direction::Right), Direction::Up) => 3,
            (Some(Direction::Up), Direction::Up) => 4,
            (Some(Direction::Up), Direction::Down) => 4,
            (Some(Direction::Down), Direction::Down) => 4,
            (Some(Direction::Down), Direction::Up) => 4,
            (Some(Direction::Left), Direction::Left) => 5,
            (Some(Direction::Left), Direction::Right) => 5,
            (Some(Direction::Right), Direction::Right) => 5,
            (Some(Direction::Right), Direction::Left) => 5,
            (Some(Direction::UpRight), Direction::UpRight) => 6,
            (Some(Direction::UpRight), Direction::DownLeft) => 6,
            (Some(Direction::DownLeft), Direction::DownLeft) => 6,
            (Some(Direction::DownLeft), Direction::UpRight) => 6,
            (Some(Direction::UpLeft), Direction::UpLeft) => 7,
            (Some(Direction::UpLeft), Direction::DownRight) => 7,
            (Some(Direction::DownRight), Direction::DownRight) => 7,
            (Some(Direction::DownRight), Direction::UpLeft) => 7,
            (Some(Direction::UpRight), Direction::DownRight) => 8,
            (Some(Direction::UpLeft), Direction::DownLeft) => 8,
            (Some(Direction::DownRight), Direction::UpRight) => 9,
            (Some(Direction::DownLeft), Direction::UpLeft) => 9,
            _ => 5,
        }
    }
}

impl Default for DisplayConfig {
    /// The stock palette and block glyphs, every derived-display mode off,
    /// with the glyph cache filled.
    fn default() -> (r: Self)
        ensures
            r.keycast == false,
            r.colors@.len() == 6,
            r.state_based_colors == false,
            r.live_colors == false,
            r.randomize_heads == false,
            r.randomize_trails == false,
            r.direction_based_chars == false,
            r.head_char@.len() == 1,
            r.trail_char@.len() == 1,
            r.head_char_data@.len() == 1,
            r.trail_char_data@.len() == 1,
    {
        let mut colors: Vec<String> = Vec::new();
        colors.push("rgb(241, 113, 54)".to_owned());
        colors.push("rgb(255,204,153)".to_owned());
        colors.push("#FFB3D1".to_owned());
        colors.push("#B3FFB3".to_owned());
        colors.push("225".to_owned());
        colors.push("194".to_owned());
        let mut head_char: Vec<String> = Vec::new();
        head_char.push("██".to_owned());
        let mut trail_char: Vec<String> = Vec::new();
        trail_char.push("▓▓".to_owned());
        let mut config = DisplayConfig {
            keycast: false,
            colors,
            fade_trail_color: "".to_owned(),
            state_based_colors: false,
            live_colors: false,
            randomize_heads: false,
            randomize_trails: false,
            direction_based_chars: false,
            head_char,
            trail_char,
            cell_char: "░░".to_owned(),
            head_char_data: Vec::new(),
            trail_char_data: Vec::new(),
            cell_char_data: CharData::new(""),
        };
        config.cache_char_data();
        config
    }
}

/// The key bindings the shell dispatches on.
pub struct ControlsConfig {
    pub quit: String,
    pub toggle: String,
    pub reset: String,
    pub faster: String,
    pub slower: String,
    pub config_reload: String,
    pub help: String,
    pub statusbar: String,
    pub randomize_seed: String,
    pub randomize_rule: String,
    pub randomize: String,
}

impl Default for ControlsConfig {
    fn default() -> (r: Self)
        ensures
            r.quit@ == "q"@,
            r.toggle@ == " "@,
            r.reset@ == "r"@,
            r.faster@ == "+"@,
            r.slower@ == "-"@,
            r.config_reload@ == "c"@,
            r.help@ == "h"@,
            r.statusbar@ == "b"@,
            r.randomize_seed@ == "s"@,
            r.randomize_rule@ == "n"@,
            r.randomize@ == "R"@,
    {
        ControlsConfig {
            quit: "q".to_owned(),
            toggle: " ".to_owned(),
            reset: "r".to_owned(),
            faster: "+".to_owned(),
            slower: "-".to_owned(),
            config_reload: "c".to_owned(),
            help: "h".to_owned(),
            statusbar: "b".to_owned(),
            randomize_seed: "s".to_owned(),
            randomize_rule: "n".to_owned(),
            randomize: "R".to_owned(),
        }
    }
}

/// Everything of the configuration the core works with.
pub struct Config {
    pub simulation: SimulationConfig,
    pub display: DisplayConfig,
    pub controls: ControlsConfig,
}

impl Default for Config {
    fn default() -> (r: Self)
        ensures
            r.simulation.heads == 6,
            r.simulation.rule@ == "RL"@,
            r.display.colors@.len() == 6,
            r.controls.quit@ == "q"@,
    {
        Config {
            simulation: SimulationConfig::default(),
            display: DisplayConfig::default(),
            controls: ControlsConfig::default(),
        }
    }
}

impl Config {
    /// Interprets a palette string; anything unparsable is white.
    pub fn parse_color(&self, color_str: &str) -> (r: ColorValue)
        ensures
            r == spec_parse_color(color_str@),
    {
        parse_color(color_str)
    }

    /// The seed a run should use: the persisted one when its trimmed
    /// content is non-empty, else the configured one when non-empty, else
    /// nothing — a fresh seed is then generated.
    pub fn get_effective_seed(&self, persisted: Option<&str>) -> (r: Option<String>)
        ensures
            (persisted is Some && spec_trim(persisted->0@).len() > 0) ==> (r is Some && r->0@
                == spec_trim(persisted->0@)),
            (!(persisted is Some && spec_trim(persisted->0@).len() > 0) && self.simulation.seed
                is Some && self.simulation.seed->0@.len() > 0) ==> (r is Some && r->0@
                == self.simulation.seed->0@),
            (!(persisted is Some && spec_trim(persisted->0@).len() > 0) && !(self.simulation.seed
                is Some && self.simulation.seed->0@.len() > 0)) ==> r is None,
    {
        match persisted {
            Some(p) => {
                let chars = str_to_chars(p);
                let trimmed = trim_chars(&chars);
                if trimmed.len() > 0 {
                    return Some(chars_to_string(&trimmed));
                }
            },
            None => {},
        }
        match &self.simulation.seed {
            Some(s) => {
                if s.as_str().is_empty() {
                    None
                } else {
                    Some(s.clone())
                }
            },
            None => None,
        }
    }

    /// The rule a run should use: the persisted one when its trimmed
    /// content is non-empty, else the configured one when non-empty, else
    /// a freshly generated random rule.
    pub fn get_effective_rule(&self, persisted: Option<&str>) -> (r: String)
        ensures
            r@.len() > 0,
            (persisted is Some && spec_trim(persisted->0@).len() > 0) ==> r@ == spec_trim(
                persisted->0@,
            ),
            (!(persisted is Some && spec_trim(persisted->0@).len() > 0) && self.simulation.rule@
                .len() > 0) ==> r@ == self.simulation.rule@,
    {
        match persisted {
            Some(p) => {
                let chars = str_to_chars(p);
                let trimmed = trim_chars(&chars);
                if trimmed.len() > 0 {
                    return chars_to_string(&trimmed);
                }
            },
            None => {},
        }
        if !self.simulation.rule.as_str().is_empty() {
            return self.simulation.rule.clone();
        }
        generate_random_rule()
    }
}

} // verus!
