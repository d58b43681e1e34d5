//! The execution engine: owns grid, agents and transition table, steps all
//! agents synchronously against a pre-tick snapshot, and tracks dirty cells
//! for incremental redraw.

use vstd::prelude::*;
use std::collections::VecDeque;
use std::ops::Index;
use vstd::utf8::encode_utf8;
use rand::rngs::StdRng;
use crate::direction::{Direction, direction_delta, spec_apply_turn};
use crate::color::ColorValue;
use crate::grid::{Grid, CellContent, cell_symbol, spec_set_cell};
use crate::heads::{Head, HeadModel, spec_trail_push};
use crate::table::{RuleTable, StateTransition};
use crate::coordmap::CoordMap;
use crate::rule_model::compiled_table;
use crate::rng::{rng_state, rng_seeded, rng_gen, rng_from_seed, rng_below, seed_hash, hash_seed,
fresh_seed};
use vstd::arithmetic::div_mod::{
    lemma_fundamental_div_mod, lemma_mod_bound, lemma_mod_multiples_vanish, lemma_small_mod,
};

verus! {

/// Mathematical image of the whole engine.
pub struct MachineModel {
    pub cells: Map<(int, int), CellContent>,
    pub heads: Seq<HeadModel>,
    pub table: Map<(int, int), StateTransition>,
    pub rule: Seq<char>,
    pub seed: Seq<char>,
    pub num_heads: int,
    pub running: bool,
    pub steps: u64,
    pub width: int,
    pub height: int,
    pub random_facing: bool,
    pub colors: Seq<ColorValue>,
    pub dirty: Set<(int, int)>,
}

/// Floored modulo: wraps any integer into `[0, n)`.
pub open spec fn wrap_coord(v: int, n: int) -> int {
    ((v % n) + n) % n
}

/// Wraps a coordinate into `[0, n)`, negative values wrapping correctly.
pub fn wrap_coordinate(v: i32, n: i32) -> (r: i32)
    requires
        n >= 1,
    ensures
        r as int == wrap_coord(v as int, n as int),
        0 <= r < n,
{
    let vi = v;
    let ni = n;
    if vi >= 0 {
        let r = vi % ni;
        proof {
            let x = vi as int;
            let m = ni as int;
            lemma_mod_bound(x, m);
            lemma_mod_multiples_vanish(1, x % m, m);
            lemma_small_mod((x % m) as nat, m as nat);
        }
        r
    } else {
        let neg = -(vi + 1);
        let r0 = neg % ni;
        proof {
            lemma_mod_bound(neg as int, ni as int);
        }
        let r = ni - 1 - r0;
        proof {
            let a = neg as int;
            let m = ni as int;
            let x = v as int;
            lemma_fundamental_div_mod(a, m);
            assert(m * (-(a / m) - 1) + (m - 1 - (a % m)) == x) by (nonlinear_arith)
                requires
                    a == m * (a / m) + a % m && x == -a - 1,
            ;
            lemma_mod_multiples_vanish(-(a / m) - 1, m - 1 - (a % m), m);
            lemma_small_mod((m - 1 - (a % m)) as nat, m as nat);
            assert(x % m == m - 1 - (a % m));
            lemma_mod_multiples_vanish(1, x % m, m);
            lemma_small_mod((x % m) as nat, m as nat);
        }
        r
    }
}

/// Head count clamped to the engine's maximum population.
pub open spec fn clamp_heads(n: int) -> int {
    if n < 256 {
        n
    } else {
        256
    }
}

/// Tick counter after one step.
pub open spec fn tick_next(s: u64) -> u64 {
    if s == u64::MAX {
        0
    } else {
        (s + 1) as u64
    }
}

// ---------------------------------------------------------------------------
// Spawning.
// ---------------------------------------------------------------------------

/// The initial facing drawn by index when random initial facing is on.
pub open spec fn dir_of_index(d: int) -> Direction {
    if d == 0 {
        Direction::Up
    } else if d == 1 {
        Direction::Down
    } else if d == 2 {
        Direction::Left
    } else if d == 3 {
        Direction::Right
    } else if d == 4 {
        Direction::UpLeft
    } else if d == 5 {
        Direction::UpRight
    } else if d == 6 {
        Direction::DownLeft
    } else {
        Direction::DownRight
    }
}

/// One head drawn from the generator: position inside the viewport and,
/// when enabled, a random initial facing. Yields the head and the state
/// the generator is left in.
pub open spec fn spawn_step(
    state: int,
    i: int,
    w: u32,
    h: u32,
    rf: bool,
    colors: Seq<ColorValue>,
) -> (HeadModel, int) {
    let gx = rng_gen(state, w);
    let gy = rng_gen(gx.1, h);
    let dir_state = if rf {
        let gd = rng_gen(gy.1, 8);
        (dir_of_index(gd.0 as int), gd.1)
    } else {
        (Direction::Up, gy.1)
    };
    (
        HeadModel {
            x: gx.0 as int,
            y: gy.0 as int,
            direction: dir_state.0,
            previous_direction: Option::None,
            internal_state: 0,
            color: colors[i % colors.len() as int],
            trail: Seq::empty(),
        },
        dir_state.1,
    )
}

/// The first `i` heads spawned from a generator state, in order, with the
/// state left afterwards.
pub open spec fn spawn_upto(
    state0: int,
    i: int,
    w: u32,
    h: u32,
    rf: bool,
    colors: Seq<ColorValue>,
) -> (Seq<HeadModel>, int)
    decreases i,
{
    if i <= 0 {
        (Seq::empty(), state0)
    } else {
        let prev = spawn_upto(state0, i - 1, w, h, rf, colors);
        let s = spawn_step(prev.1, i - 1, w, h, rf, colors);
        (prev.0.push(s.0), s.1)
    }
}

/// The initial agent population for an effective seed string, head count
/// and viewport: a fixed deterministic function of them, which is what
/// makes runs reproducible.
pub open spec fn spawned_heads(
    seed: Seq<char>,
    n: int,
    w: u32,
    h: u32,
    rf: bool,
    colors: Seq<ColorValue>,
) -> Seq<HeadModel> {
    spawn_upto(rng_seeded(seed_hash(encode_utf8(seed), n as u64)), n, w, h, rf, colors).0
}

// ---------------------------------------------------------------------------
// One synchronous step.
// ---------------------------------------------------------------------------

/// Symbol under head `i`, read from the pre-tick snapshot.
pub open spec fn head_symbol(m: MachineModel, i: int) -> usize {
    cell_symbol(m.cells, m.heads[i].x, m.heads[i].y)
}

/// Whether head `i` finds a transition this tick; one that does not is
/// frozen: no write, no turn, no move.
pub open spec fn head_fires(m: MachineModel, i: int) -> bool {
    m.table.contains_key((m.heads[i].internal_state, head_symbol(m, i) as int))
}

pub open spec fn head_transition(m: MachineModel, i: int) -> StateTransition {
    m.table[(m.heads[i].internal_state, head_symbol(m, i) as int)]
}

/// Head `i` after the tick: turned, moved with wraparound, mode switched,
/// old position pushed on the trail — or unchanged if it did not fire.
pub open spec fn head_after(m: MachineModel, i: int, w: int, h: int, tl: int) -> HeadModel {
    if head_fires(m, i) {
        let hm = m.heads[i];
        let t = head_transition(m, i);
        let nd = spec_apply_turn(t.turn_direction, hm.direction);
        let nx = wrap_coord(hm.x + direction_delta(nd).0, w);
        let ny = wrap_coord(hm.y + direction_delta(nd).1, h);
        HeadModel {
            x: nx,
            y: ny,
            direction: nd,
            previous_direction: Option::Some(hm.direction),
            internal_state: t.new_internal_state as int,
            color: hm.color,
            trail: spec_trail_push(hm.trail, (hm.x as i32, hm.y as i32), tl),
        }
    } else {
        m.heads[i]
    }
}

/// The grid after the staged writes of heads `0..i` are applied in order:
/// each firing head writes its transition's symbol, in its own pre-tick
/// color, at the position it is leaving.
pub open spec fn grid_after(m: MachineModel, i: int) -> Map<(int, int), CellContent>
    decreases i,
{
    if i <= 0 {
        m.cells
    } else {
        let prev = grid_after(m, i - 1);
        if head_fires(m, i - 1) {
            let hm = m.heads[i - 1];
            let t = head_transition(m, i - 1);
            spec_set_cell(prev, hm.x, hm.y, t.new_cell_state, hm.color)
        } else {
            prev
        }
    }
}

/// Dirty set after the written positions of heads `0..i` are added.
pub open spec fn dirty_writes(m: MachineModel, i: int) -> Set<(int, int)>
    decreases i,
{
    if i <= 0 {
        m.dirty
    } else {
        let prev = dirty_writes(m, i - 1);
        if head_fires(m, i - 1) {
            prev.insert((m.heads[i - 1].x, m.heads[i - 1].y))
        } else {
            prev
        }
    }
}

/// The coordinates held by the first `j` trail entries.
pub open spec fn trail_coords(t: Seq<(i32, i32)>, j: int) -> Set<(int, int)>
    decreases j,
{
    if j <= 0 {
        Set::empty()
    } else {
        trail_coords(t, j - 1).insert((t[j - 1].0 as int, t[j - 1].1 as int))
    }
}

/// Dirty set after each of the first `i` heads adds its position and its
/// trailing positions.
pub open spec fn dirty_heads(heads: Seq<HeadModel>, i: int, base: Set<(int, int)>) -> Set<
    (int, int),
>
    decreases i,
{
    if i <= 0 {
        base
    } else {
        dirty_heads(heads, i - 1, base).insert((heads[i - 1].x, heads[i - 1].y)).union(
            trail_coords(heads[i - 1].trail, heads[i - 1].trail.len() as int),
        )
    }
}

/// The engine after one step: nothing when paused; otherwise every head is
/// evaluated against the pre-tick snapshot, all staged writes are applied
/// in head order, then all staged head mutations, and the tick counter
/// advances. Written positions and every head's position and trail become
/// dirty.
pub open spec fn step_model(m: MachineModel, w: int, h: int, tl: int) -> MachineModel {
    if !m.running {
        m
    } else {
        let n = m.heads.len() as int;
        let heads2 = Seq::new(m.heads.len(), |i: int| head_after(m, i, w, h, tl));
        MachineModel {
            cells: grid_after(m, n),
            heads: heads2,
            steps: tick_next(m.steps),
            dirty: dirty_heads(heads2, n, dirty_writes(m, n)),
            ..m
        }
    }
}

// ---------------------------------------------------------------------------
// The engine.
// ---------------------------------------------------------------------------

/// The simulation engine: grid, agents, compiled table, tick counter,
/// dirty-cell set and seeding state.
pub struct TuringMachine {
    pub grid: Grid,
    pub heads: Vec<Head>,
    pub rule_string: String,
    pub rules: RuleTable,
    pub num_heads: usize,
    pub running: bool,
    pub steps: u64,
    pub current_seed: String,
    pub grid_width: i32,
    pub grid_height: i32,
    pub random_facing: bool,
    pub colors: Vec<ColorValue>,
    pub dirty_cells: CoordMap<()>,
}

impl View for TuringMachine {
    type V = MachineModel;

    open spec fn view(&self) -> MachineModel {
        MachineModel {
            cells: self.grid@,
            heads: self.heads@.map_values(|h: Head| h@),
            table: self.rules@,
            rule: self.rule_string@,
            seed: self.current_seed@,
            num_heads: self.num_heads as int,
            running: self.running,
            steps: self.steps,
            width: self.grid_width as int,
            height: self.grid_height as int,
            random_facing: self.random_facing,
            colors: self.colors@,
            dirty: self.dirty_cells@.dom(),
        }
    }
}

impl TuringMachine {
    /// Internal shape invariant: well-formed parts, a positive viewport, a
    /// non-empty palette, the population within bounds, every head inside
    /// the coordinate range that stepping can move from.
    pub open spec fn wf(&self) -> bool {
        &&& self.grid.wf()
        &&& self.rules.wf()
        &&& self.dirty_cells.wf()
        &&& 1 <= self.grid_width
        &&& 1 <= self.grid_height
        &&& self.colors@.len() >= 1
        &&& self.heads@.len() == self.num_heads
        &&& self.num_heads <= 256
        &&& forall|i: int|
            0 <= i < self.heads@.len() ==> 0 <= (#[trigger] self.heads@[i]).x < i32::MAX && 0 <= self.heads@[i].y < i32::MAX
    }

    /// Respawns the population from the current seed, head count and
    /// viewport. Used by construction, reset and head-count changes.
    fn spawn_heads(&mut self)
        requires
            old(self).colors@.len() >= 1,
            1 <= old(self).grid_width,
            1 <= old(self).grid_height,
            old(self).num_heads <= 256,
        ensures
            final(self)@ == (MachineModel {
                heads: spawned_heads(
                    old(self)@.seed,
                    old(self)@.num_heads,
                    old(self).grid_width as u32,
                    old(self).grid_height as u32,
                    old(self).random_facing,
                    old(self)@.colors,
                ),
                ..old(self)@
            }),
            final(self).heads@.len() == final(self).num_heads,
            forall|i: int|
                0 <= i < final(self).heads@.len() ==> 0 <= (#[trigger] final(self).heads@[i]).x
                    < old(self).grid_width && 0 <= final(self).heads@[i].y < old(
                    self,
                ).grid_height,
            final(self).grid == old(self).grid,
            final(self).rules == old(self).rules,
            final(self).dirty_cells == old(self).dirty_cells,
    {
        let n = self.num_heads;
        let w = self.grid_width as u32;
        let h = self.grid_height as u32;
        let rf = self.random_facing;
        let hash = hash_seed(self.current_seed.as_str(), n);
        let ghost state0 = rng_seeded(seed_hash(encode_utf8(self.current_seed@), n as u64));
        let mut rng: StdRng = rng_from_seed(hash);
        let mut heads: Vec<Head> = Vec::new();
        let mut i: usize = 0;
        proof {
            assert(heads@.map_values(|hd: Head| hd@) =~= spawn_upto(
                state0,
                0,
                w,
                h,
                rf,
                self.colors@,
            ).0);
        }
        while i < n
            invariant
                n == self.num_heads,
                w == self.grid_width as u32,
                h == self.grid_height as u32,
                rf == self.random_facing,
                1 <= w,
                1 <= h,
                w <= i32::MAX as u32,
                h <= i32::MAX as u32,
                self.colors@.len() >= 1,
                i <= n,
                heads@.len() == i,
                rng_state(rng) == spawn_upto(state0, i as int, w, h, rf, self.colors@).1,
                heads@.map_values(|hd: Head| hd@) == spawn_upto(
                    state0,
                    i as int,
                    w,
                    h,
                    rf,
                    self.colors@,
                ).0,
                forall|j: int|
                    0 <= j < heads@.len() ==> 0 <= (#[trigger] heads@[j]).x < w as i32 && 0
                        <= heads@[j].y < h as i32,
            decreases n - i,
        {
            let ghost pre_heads = heads@.map_values(|hd: Head| hd@);
            let ghost pre_state = rng_state(rng);
            let x = rng_below(&mut rng, w) as i32;
            let y = rng_below(&mut rng, h) as i32;
            let mut dir = Direction::Up;
            if rf {
                let d = rng_below(&mut rng, 8);
                dir = match d {
                    0 => Direction::Up,
                    1 => Direction::Down,
                    2 => Direction::Left,
                    3 => Direction::Right,
                    4 => Direction::UpLeft,
                    5 => Direction::UpRight,
                    6 => Direction::DownLeft,
                    _ => Direction::DownRight,
                };
                proof {
                    assert(dir == dir_of_index(rng_gen(rng_gen(rng_gen(pre_state, w).1, h).1, 8).0
                        as int));
                }
            }
            let ci = i % self.colors.len();
            let color = self.colors[ci];
            let head = Head {
                x,
                y,
                direction: dir,
                previous_direction: None,
                internal_state: 0,
                color,
                trail: VecDeque::new(),
            };
            heads.push(head);
            i += 1;
            proof {
                let step = spawn_step(pre_state, i - 1, w, h, rf, self.colors@);
                assert(head@ == step.0);
                assert(heads@.map_values(|hd: Head| hd@) =~= pre_heads.push(head@));
                assert(heads@.map_values(|hd: Head| hd@) == spawn_upto(
                    state0,
                    i as int,
                    w,
                    h,
                    rf,
                    self.colors@,
                ).0);
            }
        }
        self.heads = heads;
        proof {
            assert(final(self)@ == (MachineModel {
                heads: spawned_heads(
                    old(self)@.seed,
                    old(self)@.num_heads,
                    old(self).grid_width as u32,
                    old(self).grid_height as u32,
                    old(self).random_facing,
                    old(self)@.colors,
                ),
                ..old(self)@
            }));
        }
    }

    /// A fresh engine: the rule compiled, the grid empty, `head_count`
    /// agents (clamped to 256) spawned inside the default 100x100 viewport
    /// from the given seed, or from a fresh random one when the seed is
    /// empty.
    pub fn new(
        num_heads: usize,
        rule_string: &str,
        seed: &str,
        random_facing: bool,
        autoplay: bool,
        colors: Vec<ColorValue>,
    ) -> (m: TuringMachine)
        requires
            colors@.len() >= 1,
        ensures
            m.wf(),
            m@.cells == Map::<(int, int), CellContent>::empty(),
            m@.dirty == Set::<(int, int)>::empty(),
            m@.table == compiled_table(rule_string@),
            m@.rule == rule_string@,
            m@.running == autoplay,
            m@.steps == 0,
            m@.width == 100,
            m@.height == 100,
            m@.num_heads == clamp_heads(num_heads as int),
            m@.random_facing == random_facing,
            m@.colors == colors@,
            m@.seed.len() > 0,
            seed@.len() > 0 ==> m@.seed == seed@,
            m@.heads == spawned_heads(
                m@.seed,
                clamp_heads(num_heads as int),
                100,
                100,
                random_facing,
                colors@,
            ),
    {
        let nh = if num_heads < 256 {
            num_heads
        } else {
            256
        };
        let seed_string = if seed.is_empty() {
            fresh_seed()
        } else {
            seed.to_owned()
        };
        let rules = crate::rules::parse_rules(rule_string);
        let mut m = TuringMachine {
            grid: Grid::new(),
            heads: Vec::new(),
            rule_string: rule_string.to_owned(),
            rules,
            num_heads: nh,
            running: autoplay,
            steps: 0,
            current_seed: seed_string,
            grid_width: 100,
            grid_height: 100,
            random_facing,
            colors,
            dirty_cells: CoordMap::new(),
        };
        m.spawn_heads();
        m
    }
}

/// What phase one of a step stages for one head: nothing for a frozen
/// head; otherwise the new facing, the wrapped destination, the symbol to
/// write and the mode to enter.
spec fn staged_matches(
    m: MachineModel,
    st: Option<(Direction, i32, i32, usize, usize)>,
    j: int,
    w: int,
    h: int,
) -> bool {
    if head_fires(m, j) {
        &&& st is Some
        &&& {
            let u = st->0;
            let t = head_transition(m, j);
            let nd = spec_apply_turn(t.turn_direction, m.heads[j].direction);
            &&& u.0 == nd
            &&& u.1 as int == wrap_coord(m.heads[j].x + direction_delta(nd).0, w)
            &&& u.2 as int == wrap_coord(m.heads[j].y + direction_delta(nd).1, h)
            &&& u.3 == t.new_cell_state
            &&& u.4 == t.new_internal_state
        }
    } else {
        st is None
    }
}

fn clone_trail(t: &VecDeque<(i32, i32)>) -> (r: VecDeque<(i32, i32)>)
    ensures
        r@ == t@,
{
    let mut r: VecDeque<(i32, i32)> = VecDeque::new();
    let n = t.len();
    let mut i: usize = 0;
    while i < n
        invariant
            n == t@.len(),
            i <= n,
            r@ == t@.take(i as int),
        decreases n - i,
    {
        let p = *t.index(i);
        r.push_back(p);
        proof {
            assert(r@ =~= t@.take(i + 1));
        }
        i += 1;
    }
    proof {
        assert(t@.take(n as int) =~= t@);
    }
    r
}

impl TuringMachine {
    /// Advances the simulation one tick, if running: every agent reads the
    /// pre-tick snapshot, staged writes then staged agent mutations are
    /// applied in agent order, and written plus occupied positions become
    /// dirty.
    #[verifier::loop_isolation(false)]
    pub fn step(&mut self, width: i32, height: i32, trail_length: usize)
        requires
            old(self).wf(),
            width >= 1,
            height >= 1,
        ensures
            final(self).wf(),
            final(self)@ == step_model(old(self)@, width as int, height as int, trail_length as int),
    {
        if !self.running {
            return ;
        }
        let ghost m0 = old(self)@;
        let n = self.heads.len();
        proof {
            assert(m0.heads.len() == n);
            assert(forall|j: int| 0 <= j < n ==> #[trigger] m0.heads[j] == self.heads@[j]@);
        }
        // Phase one: evaluate every head against the pre-tick snapshot.
        let mut staged: Vec<Option<(Direction, i32, i32, usize, usize)>> = Vec::new();
        let mut i: usize = 0;
        while i < n
            invariant
                self == old(self),
                self.wf(),
                m0 == old(self)@,
                n == self.heads@.len(),
                i <= n,
                width >= 1,
                height >= 1,
                staged@.len() == i,
                forall|j: int|
                    0 <= j < i ==> staged_matches(
                        m0,
                        #[trigger] staged@[j],
                        j,
                        width as int,
                        height as int,
                    ),
            decreases n - i,
        {
            proof {
                assert(m0.heads[i as int] == self.heads@[i as int]@);
            }
            let hx = self.heads[i].x;
            let hy = self.heads[i].y;
            let hdir = self.heads[i].direction;
            let hmode = self.heads[i].internal_state;
            let sym = self.grid.get_cell(hx, hy);
            match self.rules.get(hmode, sym) {
                Some(t) => {
                    let tr = *t;
                    let nd = tr.turn_direction.apply(hdir);
                    let moved = nd.apply(hx, hy);
                    let nx = wrap_coordinate(moved.0, width);
                    let ny = wrap_coordinate(moved.1, height);
                    staged.push(Some((nd, nx, ny, tr.new_cell_state, tr.new_internal_state)));
                },
                None => {
                    staged.push(None);
                },
            }
            i += 1;
        }
        // Phase two: apply the staged writes, in head order, and mark the
        // written positions dirty.
        let mut i: usize = 0;
        proof {
            assert(self.grid@ == grid_after(m0, 0));
            assert(self.dirty_cells@.dom() == dirty_writes(m0, 0));
        }
        while i < n
            invariant
                self.heads == old(self).heads,
                self.rules == old(self).rules,
                self.colors == old(self).colors,
                self.rule_string == old(self).rule_string,
                self.current_seed == old(self).current_seed,
                self.num_heads == old(self).num_heads,
                self.running == old(self).running,
                self.steps == old(self).steps,
                self.grid_width == old(self).grid_width,
                self.grid_height == old(self).grid_height,
                self.random_facing == old(self).random_facing,
                old(self).wf(),
                m0 == old(self)@,
                n == self.heads@.len(),
                i <= n,
                staged@.len() == n,
                forall|j: int|
                    0 <= j < n ==> staged_matches(
                        m0,
                        #[trigger] staged@[j],
                        j,
                        width as int,
                        height as int,
                    ),
                self.grid.wf(),
                self.dirty_cells.wf(),
                self.grid@ == grid_after(m0, i as int),
                self.dirty_cells@.dom() == dirty_writes(m0, i as int),
            decreases n - i,
        {
            proof {
                assert(m0.heads[i as int] == self.heads@[i as int]@);
                assert(staged_matches(m0, staged@[i as int], i as int, width as int, height as int));
            }
            let st = staged[i];
            match st {
                Some(u) => {
                    let hx = self.heads[i].x;
                    let hy = self.heads[i].y;
                    let hcolor = self.heads[i].color;
                    self.grid.set_cell(hx, hy, u.3, hcolor);
                    let ghost pre = self.dirty_cells@.dom();
                    self.dirty_cells.insert(hx, hy, ());
                    proof {
                        assert(self.dirty_cells@.dom() =~= pre.insert((hx as int, hy as int)));
                    }
                },
                None => {},
            }
            i += 1;
        }
        // Phase three: apply the staged head mutations.
        let ghost heads2 = Seq::new(m0.heads.len(), |j: int| head_after(m0, j, width as int, height as int, trail_length as int));
        let mut new_heads: Vec<Head> = Vec::new();
        let mut i: usize = 0;
        while i < n
            invariant
                self.heads == old(self).heads,
                old(self).wf(),
                m0 == old(self)@,
                n == self.heads@.len(),
                i <= n,
                width >= 1,
                height >= 1,
                staged@.len() == n,
                forall|j: int|
                    0 <= j < n ==> staged_matches(
                        m0,
                        #[trigger] staged@[j],
                        j,
                        width as int,
                        height as int,
                    ),
                heads2 == Seq::new(m0.heads.len(), |j: int| head_after(m0, j, width as int, height as int, trail_length as int)),
                new_heads@.len() == i,
                forall|j: int| 0 <= j < i ==> (#[trigger] new_heads@[j])@ == heads2[j],
                forall|j: int|
                    0 <= j < i ==> 0 <= (#[trigger] new_heads@[j]).x < i32::MAX && 0
                        <= new_heads@[j].y < i32::MAX,
            decreases n - i,
        {
            proof {
                assert(m0.heads[i as int] == self.heads@[i as int]@);
                assert(staged_matches(m0, staged@[i as int], i as int, width as int, height as int));
            }
            let trail = clone_trail(&self.heads[i].trail);
            let hx = self.heads[i].x;
            let hy = self.heads[i].y;
            let hdir = self.heads[i].direction;
            let st = staged[i];
            match st {
                Some(u) => {
                    let mut h2 = Head {
                        x: hx,
                        y: hy,
                        direction: u.0,
                        previous_direction: Some(hdir),
                        internal_state: u.4,
                        color: self.heads[i].color,
                        trail,
                    };
                    h2.move_to(u.1, u.2, trail_length);
                    new_heads.push(h2);
                },
                None => {
                    new_heads.push(
                        Head {
                            x: hx,
                            y: hy,
                            direction: hdir,
                            previous_direction: self.heads[i].previous_direction,
                            internal_state: self.heads[i].internal_state,
                            color: self.heads[i].color,
                            trail,
                        },
                    );
                },
            }
            proof {
                assert(new_heads@[i as int]@ == head_after(m0, i as int, width as int, height as int, trail_length as int));
            }
            i += 1;
        }
        self.heads = new_heads;
        proof {
            assert(self.heads@.map_values(|hd: Head| hd@) =~= heads2);
        }
        // Phase four: every head's position and trailing positions become
        // dirty.
        let ghost base = self.dirty_cells@.dom();
        let mut i: usize = 0;
        while i < n
            invariant
                n == self.heads@.len(),
                i <= n,
                heads2 == self.heads@.map_values(|hd: Head| hd@),
                self.dirty_cells.wf(),
                self.dirty_cells@.dom() == dirty_heads(heads2, i as int, base),
                self.grid.wf(),
                self.grid@ == grid_after(m0, n as int),
                self.rules == old(self).rules,
                self.colors == old(self).colors,
                self.rule_string == old(self).rule_string,
                self.current_seed == old(self).current_seed,
                self.num_heads == old(self).num_heads,
                self.running == old(self).running,
                self.steps == old(self).steps,
                self.grid_width == old(self).grid_width,
                self.grid_height == old(self).grid_height,
                self.random_facing == old(self).random_facing,
                base == dirty_writes(m0, n as int),
                forall|j: int|
                    0 <= j < self.heads@.len() ==> 0 <= (#[trigger] self.heads@[j]).x < i32::MAX
                        && 0 <= self.heads@[j].y < i32::MAX,
            decreases n - i,
        {
            let hx = self.heads[i].x;
            let hy = self.heads[i].y;
            let ghost pre = self.dirty_cells@.dom();
            self.dirty_cells.insert(hx, hy, ());
            proof {
                assert(self.heads@[i as int]@ == heads2[i as int]);
                assert(self.dirty_cells@.dom() =~= pre.insert((hx as int, hy as int)));
            }
            let tlen = self.heads[i].trail.len();
            let mut j: usize = 0;
            proof {
                assert(self.dirty_cells@.dom() =~= dirty_heads(heads2, i as int, base).insert(
                    (heads2[i as int].x, heads2[i as int].y),
                ).union(trail_coords(heads2[i as int].trail, 0)));
            }
            while j < tlen
                invariant
                    n == self.heads@.len(),
                    i < n,
                    heads2 == self.heads@.map_values(|hd: Head| hd@),
                    tlen == self.heads@[i as int].trail@.len(),
                    j <= tlen,
                    self.dirty_cells.wf(),
                    self.dirty_cells@.dom() == dirty_heads(heads2, i as int, base).insert(
                        (heads2[i as int].x, heads2[i as int].y),
                    ).union(trail_coords(heads2[i as int].trail, j as int)),
                    self.grid.wf(),
                    self.grid@ == grid_after(m0, n as int),
                    self.rules == old(self).rules,
                    self.colors == old(self).colors,
                    self.rule_string == old(self).rule_string,
                    self.current_seed == old(self).current_seed,
                    self.num_heads == old(self).num_heads,
                    self.running == old(self).running,
                    self.steps == old(self).steps,
                    self.grid_width == old(self).grid_width,
                    self.grid_height == old(self).grid_height,
                    self.random_facing == old(self).random_facing,
                    base == dirty_writes(m0, n as int),
                    forall|j: int|
                        0 <= j < self.heads@.len() ==> 0 <= (#[trigger] self.heads@[j]).x < i32::MAX
                            && 0 <= self.heads@[j].y < i32::MAX,
                decreases tlen - j,
            {
                let p = *self.heads[i].trail.index(j);
                let ghost pre2 = self.dirty_cells@.dom();
                self.dirty_cells.insert(p.0, p.1, ());
                proof {
                    assert(self.heads@[i as int]@ == heads2[i as int]);
                    assert(heads2[i as int].trail[j as int] == p);
                    assert(self.dirty_cells@.dom() =~= pre2.insert((p.0 as int, p.1 as int)));
                    assert(pre2.insert((p.0 as int, p.1 as int)) =~= dirty_heads(
                        heads2,
                        i as int,
                        base,
                    ).insert((heads2[i as int].x, heads2[i as int].y)).union(
                        trail_coords(heads2[i as int].trail, j + 1),
                    ));
                }
                j += 1;
            }
            proof {
                assert(trail_coords(heads2[i as int].trail, tlen as int) == trail_coords(
                    heads2[i as int].trail,
                    heads2[i as int].trail.len() as int,
                ));
                assert(dirty_heads(heads2, i + 1, base) == dirty_heads(heads2, i as int, base)
                    .insert((heads2[i as int].x, heads2[i as int].y)).union(
                    trail_coords(heads2[i as int].trail, heads2[i as int].trail.len() as int),
                ));
            }
            i += 1;
        }
        // Advance the tick counter.
        self.steps = if self.steps == u64::MAX {
            0
        } else {
            self.steps + 1
        };
        proof {
            let sm = step_model(m0, width as int, height as int, trail_length as int);
            assert(self@.heads =~= sm.heads);
            assert(self@ == sm);
        }
    }

    /// Adopts a new palette and recolors the population with it, each head
    /// cycled through the palette by its index.
    pub fn update_colors(&mut self, colors: &Vec<ColorValue>)
        requires
            old(self).wf(),
            colors@.len() >= 1,
        ensures
            final(self).wf(),
            final(self)@.colors == colors@,
            final(self)@.heads.len() == old(self)@.heads.len(),
            forall|i: int|
                0 <= i < old(self)@.heads.len() ==> final(self)@.heads[i] == (HeadModel {
                    color: colors@[i % colors@.len() as int],
                    ..old(self)@.heads[i]
                }),
            final(self)@.cells == old(self)@.cells,
            final(self)@.table == old(self)@.table,
            final(self)@.rule == old(self)@.rule,
            final(self)@.seed == old(self)@.seed,
            final(self)@.num_heads == old(self)@.num_heads,
            final(self)@.running == old(self)@.running,
            final(self)@.steps == old(self)@.steps,
            final(self)@.width == old(self)@.width,
            final(self)@.height == old(self)@.height,
            final(self)@.random_facing == old(self)@.random_facing,
            final(self)@.dirty == old(self)@.dirty,
    {
        let n = self.heads.len();
        let mut new_heads: Vec<Head> = Vec::new();
        let mut i: usize = 0;
        while i < n
            invariant
                self.heads == old(self).heads,
                self.grid == old(self).grid,
                self.rules == old(self).rules,
                self.dirty_cells == old(self).dirty_cells,
                old(self).wf(),
                colors@.len() >= 1,
                n == self.heads@.len(),
                i <= n,
                new_heads@.len() == i,
                forall|j: int|
                    0 <= j < i ==> (#[trigger] new_heads@[j])@ == (HeadModel {
                        color: colors@[j % colors@.len() as int],
                        ..old(self)@.heads[j]
                    }),
                forall|j: int|
                    0 <= j < i ==> 0 <= (#[trigger] new_heads@[j]).x < i32::MAX && 0
                        <= new_heads@[j].y < i32::MAX,
            decreases n - i,
        {
            let trail = clone_trail(&self.heads[i].trail);
            let h2 = Head {
                x: self.heads[i].x,
                y: self.heads[i].y,
                direction: self.heads[i].direction,
                previous_direction: self.heads[i].previous_direction,
                internal_state: self.heads[i].internal_state,
                color: colors[i % colors.len()],
                trail,
            };
            new_heads.push(h2);
            proof {
                assert(old(self)@.heads[i as int] == self.heads@[i as int]@);
            }
            i += 1;
        }
        self.heads = new_heads;
        self.colors = colors.clone();
        proof {
            assert(self.colors@ =~= colors@);
        }
    }

    /// A fresh eight-character lowercase alphanumeric seed string, drawn
    /// from the operating system's entropy.
    pub fn generate_random_seed(&self) -> (r: String)
        ensures
            r@.len() == 8,
            forall|i: int| 0 <= i < 8 ==> crate::rng::is_seed_char(#[trigger] r@[i]),
    {
        fresh_seed()
    }

    /// Pauses a running engine, resumes a paused one.
    pub fn toggle_running(&mut self)
        requires
            old(self).wf(),
        ensures
            final(self).wf(),
            final(self)@ == (MachineModel { running: !old(self)@.running, ..old(self)@ }),
    {
        self.running = !self.running;
    }

    /// Symbol under `(x, y)`, the implicit default `0` where nothing was
    /// written.
    pub fn get_cell(&self, x: i32, y: i32) -> (r: usize)
        requires
            self.wf(),
        ensures
            r == cell_symbol(self@.cells, x as int, y as int),
    {
        self.grid.get_cell(x, y)
    }

    /// Recompiles the transition table from a rule string; the old table
    /// is discarded wholesale.
    pub fn parse_rules(&mut self, rule_string: &str)
        requires
            old(self).wf(),
        ensures
            final(self).wf(),
            final(self)@ == (MachineModel { table: compiled_table(rule_string@), ..old(self)@ }),
    {
        self.rules = crate::rules::parse_rules(rule_string);
    }

    /// Marks every head's position and trailing positions dirty.
    #[verifier::loop_isolation(false)]
    pub fn mark_trail_dirty(&mut self)
        requires
            old(self).wf(),
        ensures
            final(self).wf(),
            final(self)@ == (MachineModel {
                dirty: dirty_heads(
                    old(self)@.heads,
                    old(self)@.heads.len() as int,
                    old(self)@.dirty,
                ),
                ..old(self)@
            }),
    {
        let ghost hs = self@.heads;
        let ghost base = self.dirty_cells@.dom();
        let n = self.heads.len();
        let mut i: usize = 0;
        while i < n
            invariant
                self.heads == old(self).heads,
                old(self).wf(),
                hs == old(self)@.heads,
                base == old(self)@.dirty,
                n == self.heads@.len(),
                i <= n,
                self.dirty_cells.wf(),
                self.dirty_cells@.dom() == dirty_heads(hs, i as int, base),
                self.grid == old(self).grid,
                self.rules == old(self).rules,
                self.colors == old(self).colors,
                self.rule_string == old(self).rule_string,
                self.current_seed == old(self).current_seed,
                self.num_heads == old(self).num_heads,
                self.running == old(self).running,
                self.steps == old(self).steps,
                self.grid_width == old(self).grid_width,
                self.grid_height == old(self).grid_height,
                self.random_facing == old(self).random_facing,
            decreases n - i,
        {
            let hx = self.heads[i].x;
            let hy = self.heads[i].y;
            let ghost pre = self.dirty_cells@.dom();
            self.dirty_cells.insert(hx, hy, ());
            proof {
                assert(hs[i as int] == self.heads@[i as int]@);
                assert(self.dirty_cells@.dom() =~= pre.insert((hx as int, hy as int)));
            }
            let tlen = self.heads[i].trail.len();
            let mut j: usize = 0;
            proof {
                assert(self.dirty_cells@.dom() =~= dirty_heads(hs, i as int, base).insert(
                    (hs[i as int].x, hs[i as int].y),
                ).union(trail_coords(hs[i as int].trail, 0)));
            }
            while j < tlen
                invariant
                    self.heads == old(self).heads,
                    hs == old(self)@.heads,
                    n == self.heads@.len(),
                    i < n,
                    tlen == self.heads@[i as int].trail@.len(),
                    j <= tlen,
                    self.dirty_cells.wf(),
                    self.dirty_cells@.dom() == dirty_heads(hs, i as int, base).insert(
                        (hs[i as int].x, hs[i as int].y),
                    ).union(trail_coords(hs[i as int].trail, j as int)),
                    self.grid == old(self).grid,
                    self.rules == old(self).rules,
                    self.colors == old(self).colors,
                    self.rule_string == old(self).rule_string,
                    self.current_seed == old(self).current_seed,
                    self.num_heads == old(self).num_heads,
                    self.running == old(self).running,
                    self.steps == old(self).steps,
                    self.grid_width == old(self).grid_width,
                    self.grid_height == old(self).grid_height,
                    self.random_facing == old(self).random_facing,
                decreases tlen - j,
            {
                let p = *self.heads[i].trail.index(j);
                let ghost pre2 = self.dirty_cells@.dom();
                self.dirty_cells.insert(p.0, p.1, ());
                proof {
                    assert(hs[i as int] == self.heads@[i as int]@);
                    assert(hs[i as int].trail[j as int] == p);
                    assert(self.dirty_cells@.dom() =~= pre2.insert((p.0 as int, p.1 as int)));
                    assert(pre2.insert((p.0 as int, p.1 as int)) =~= dirty_heads(hs, i as int, base)
                        .insert((hs[i as int].x, hs[i as int].y)).union(
                        trail_coords(hs[i as int].trail, j + 1),
                    ));
                }
                j += 1;
            }
            proof {
                assert(dirty_heads(hs, i + 1, base) == dirty_heads(hs, i as int, base).insert(
                    (hs[i as int].x, hs[i as int].y),
                ).union(trail_coords(hs[i as int].trail, hs[i as int].trail.len() as int)));
            }
            i += 1;
        }
        proof {
            assert(self@ == (MachineModel {
                dirty: dirty_heads(old(self)@.heads, old(self)@.heads.len() as int, old(self)@.dirty),
                ..old(self)@
            }));
        }
    }

    /// Empties the dirty set; the consumer calls this after a redraw.
    pub fn clear_dirty_cells(&mut self)
        requires
            old(self).wf(),
        ensures
            final(self).wf(),
            final(self)@ == (MachineModel { dirty: Set::<(int, int)>::empty(), ..old(self)@ }),
    {
        self.dirty_cells.clear();
        proof {
            assert(self.dirty_cells@.dom() =~= Set::<(int, int)>::empty());
        }
    }

    /// Stops the engine, clears grid and dirty set, resets the tick
    /// counter, recompiles the table and respawns the population from the
    /// given seed — or a fresh random one when it is empty.
    pub fn reset(&mut self, seed: &str, rule_string: &str, head_count: usize)
        requires
            old(self).wf(),
        ensures
            final(self).wf(),
            final(self)@.cells == Map::<(int, int), CellContent>::empty(),
            final(self)@.dirty == Set::<(int, int)>::empty(),
            final(self)@.table == compiled_table(rule_string@),
            final(self)@.rule == rule_string@,
            final(self)@.running == false,
            final(self)@.steps == 0,
            final(self)@.width == old(self)@.width,
            final(self)@.height == old(self)@.height,
            final(self)@.num_heads == clamp_heads(head_count as int),
            final(self)@.random_facing == old(self)@.random_facing,
            final(self)@.colors == old(self)@.colors,
            final(self)@.seed.len() > 0,
            seed@.len() > 0 ==> final(self)@.seed == seed@,
            final(self)@.heads == spawned_heads(
                final(self)@.seed,
                clamp_heads(head_count as int),
                old(self).grid_width as u32,
                old(self).grid_height as u32,
                old(self)@.random_facing,
                old(self)@.colors,
            ),
    {
        self.running = false;
        self.steps = 0;
        self.grid.clear();
        self.dirty_cells.clear();
        self.rules = crate::rules::parse_rules(rule_string);
        self.rule_string = rule_string.to_owned();
        self.num_heads = if head_count < 256 {
            head_count
        } else {
            256
        };
        self.current_seed = if seed.is_empty() {
            fresh_seed()
        } else {
            seed.to_owned()
        };
        self.spawn_heads();
        proof {
            assert(self.dirty_cells@.dom() =~= Set::<(int, int)>::empty());
        }
    }

    /// Changes the population size (clamped to 256): the agents are
    /// destroyed and respawned from the current seed, and the grid and
    /// dirty set are cleared, as on any reseed.
    pub fn set_head_count(&mut self, count: usize)
        requires
            old(self).wf(),
        ensures
            final(self).wf(),
            final(self)@.cells == Map::<(int, int), CellContent>::empty(),
            final(self)@.dirty == Set::<(int, int)>::empty(),
            final(self)@.num_heads == clamp_heads(count as int),
            final(self)@.heads == spawned_heads(
                old(self)@.seed,
                clamp_heads(count as int),
                old(self).grid_width as u32,
                old(self).grid_height as u32,
                old(self)@.random_facing,
                old(self)@.colors,
            ),
            final(self)@.table == old(self)@.table,
            final(self)@.rule == old(self)@.rule,
            final(self)@.seed == old(self)@.seed,
            final(self)@.running == old(self)@.running,
            final(self)@.steps == old(self)@.steps,
            final(self)@.width == old(self)@.width,
            final(self)@.height == old(self)@.height,
            final(self)@.random_facing == old(self)@.random_facing,
            final(self)@.colors == old(self)@.colors,
    {
        self.num_heads = if count < 256 {
            count
        } else {
            256
        };
        self.grid.clear();
        self.dirty_cells.clear();
        self.spawn_heads();
        proof {
            assert(self.dirty_cells@.dom() =~= Set::<(int, int)>::empty());
        }
    }

    /// Adopts a new viewport; a change of dimensions clears the grid and
    /// the dirty set, since coordinate meaning changes.
    pub fn update_grid_dimensions(&mut self, width: i32, height: i32)
        requires
            old(self).wf(),
            width >= 1,
            height >= 1,
        ensures
            final(self).wf(),
            final(self)@.width == width as int,
            final(self)@.height == height as int,
            old(self).grid_width == width && old(self).grid_height == height ==> final(self)@
                == old(self)@,
            !(old(self).grid_width == width && old(self).grid_height == height) ==> final(self)@
                == (MachineModel {
                cells: Map::<(int, int), CellContent>::empty(),
                dirty: Set::<(int, int)>::empty(),
                width: width as int,
                height: height as int,
                ..old(self)@
            }),
    {
        if self.grid_width != width || self.grid_height != height {
            self.grid.clear();
            self.dirty_cells.clear();
            proof {
                assert(self.dirty_cells@.dom() =~= Set::<(int, int)>::empty());
            }
        }
        self.grid_width = width;
        self.grid_height = height;
    }
}

/// The engine after `k` steps with a fixed viewport and trail bound.
pub open spec fn run_model(m: MachineModel, k: int, w: int, h: int, tl: int) -> MachineModel
    decreases k,
{
    if k <= 0 {
        m
    } else {
        step_model(run_model(m, k - 1, w, h, tl), w, h, tl)
    }
}

/// Reproducibility: stepping is a function of the engine state alone, so
/// two engines in identical states — as two constructed from the same
/// seed, head count, rule string and viewport are, since `new` pins the
/// initial state to exactly those inputs — hold identical grids and agents
/// after any equal number of steps.
pub proof fn lemma_reproducible(a: MachineModel, b: MachineModel, k: int, w: int, h: int, tl: int)
    requires
        a == b,
    ensures
        run_model(a, k, w, h, tl) == run_model(b, k, w, h, tl),
{
}

/// Wraparound: an agent at `(width - 1, y)` that comes to face right moves
/// to `(0, y)` after one step, not to `width`.
pub proof fn lemma_wraparound_right(m: MachineModel, i: int, w: int, h: int, tl: int)
    requires
        m.running,
        0 <= i < m.heads.len(),
        head_fires(m, i),
        spec_apply_turn(head_transition(m, i).turn_direction, m.heads[i].direction)
            == Direction::Right,
        m.heads[i].x == w - 1,
        0 <= m.heads[i].y < h,
        w >= 1,
        h >= 1,
    ensures
        step_model(m, w, h, tl).heads[i].x == 0,
        step_model(m, w, h, tl).heads[i].y == m.heads[i].y,
{
    let y = m.heads[i].y;
    assert(w % w == 0) by (nonlinear_arith)
        requires
            w >= 1,
    ;
    lemma_mod_multiples_vanish(1, 0, w);
    lemma_small_mod(0nat, w as nat);
    assert(wrap_coord(w, w) == 0);
    lemma_mod_bound(y, h);
    lemma_small_mod(y as nat, h as nat);
    lemma_mod_multiples_vanish(1, y % h, h);
    assert(wrap_coord(y, h) == y);
}

/// Undefined-transition freeze: an agent whose `(mode, symbol)` pair has
/// no table entry has identical position, facing and mode before and after
/// a step.
pub proof fn lemma_undefined_transition_freeze(m: MachineModel, i: int, w: int, h: int, tl: int)
    requires
        m.running,
        0 <= i < m.heads.len(),
        !head_fires(m, i),
    ensures
        step_model(m, w, h, tl).heads[i] == m.heads[i],
{
}

/// Atomicity: two agents on the same cell with the same mode look up the
/// same transition against the pre-tick snapshot; after one step the cell
/// reflects exactly the staged write applied last — written in the second
/// agent's color — and each agent has moved according to its own pre-tick
/// lookup.
pub proof fn lemma_atomic_writes(m: MachineModel, w: int, h: int, tl: int)
    requires
        m.running,
        m.heads.len() == 2,
        m.heads[0].x == m.heads[1].x,
        m.heads[0].y == m.heads[1].y,
        m.heads[0].internal_state == m.heads[1].internal_state,
        head_fires(m, 0),
    ensures
        head_fires(m, 1),
        head_transition(m, 1) == head_transition(m, 0),
        cell_symbol(step_model(m, w, h, tl).cells, m.heads[0].x, m.heads[0].y) == head_transition(
            m,
            0,
        ).new_cell_state,
        head_transition(m, 0).new_cell_state != 0 ==> step_model(m, w, h, tl).cells[(
            m.heads[0].x,
            m.heads[0].y,
        )].color == m.heads[1].color,
        step_model(m, w, h, tl).heads[0] == head_after(m, 0, w, h, tl),
        step_model(m, w, h, tl).heads[1] == head_after(m, 1, w, h, tl),
{
    assert(head_symbol(m, 1) == head_symbol(m, 0));
    let pos = (m.heads[0].x, m.heads[0].y);
    let t = head_transition(m, 0);
    let g1 = grid_after(m, 1);
    let g2 = grid_after(m, 2);
    assert(g2 == (if t.new_cell_state == 0 {
        g1.remove(pos)
    } else {
        g1.insert(pos, CellContent { symbol: t.new_cell_state, color: m.heads[1].color })
    }));
    if t.new_cell_state == 0 {
        assert(!g2.contains_key(pos));
    } else {
        assert(g2[pos].symbol == t.new_cell_state);
    }
    assert(step_model(m, w, h, tl).cells == g2);
}

} // verus!
