//! Mathematical model of the rule language: what each of the textual
//! grammars denotes as a `(mode, symbol) -> transition` map.
//!
//! Dispatch is by lexical shape. A string whose first non-whitespace
//! character is `{` is read as brace notation; failing that, or otherwise if
//! it contains `:` or `>`, as the multi-mode grammar; otherwise as the
//! sequential single-mode grammar.

use vstd::prelude::*;
use crate::direction::{Direction, TurnDirection};
use crate::table::StateTransition;
use crate::chars::{
    spec_is_digit, digit_val, spec_parse_usize, spec_find, spec_split_on, spec_split_top, strip_ws,
    spec_is_ws,
};

verus! {

/// Turn meaning of a single direction character; anything unrecognized is a
/// right turn, by design.
pub open spec fn turn_for_char(c: char) -> TurnDirection {
    if c == 'L' {
        TurnDirection::Left
    } else if c == 'R' {
        TurnDirection::Right
    } else if c == 'U' {
        TurnDirection::UTurn
    } else if c == 'D' {
        TurnDirection::Stay
    } else if c == 'N' {
        TurnDirection::Absolute(Direction::Up)
    } else if c == 'S' {
        TurnDirection::Absolute(Direction::Down)
    } else if c == 'E' {
        TurnDirection::Absolute(Direction::Right)
    } else if c == 'W' {
        TurnDirection::Absolute(Direction::Left)
    } else {
        TurnDirection::Right
    }
}

/// The diagonal compass code spelled by two characters, if any.
pub open spec fn diagonal_of(a: char, b: char) -> Option<Direction> {
    if a == 'N' && b == 'W' {
        Option::Some(Direction::UpLeft)
    } else if a == 'N' && b == 'E' {
        Option::Some(Direction::UpRight)
    } else if a == 'S' && b == 'W' {
        Option::Some(Direction::DownLeft)
    } else if a == 'S' && b == 'E' {
        Option::Some(Direction::DownRight)
    } else {
        Option::None
    }
}

// ---------------------------------------------------------------------------
// Sequential (single-mode) grammar.
// ---------------------------------------------------------------------------

/// Turn directive read at character position `pos` of a sequential rule:
/// a two-character diagonal code when one starts there, else the single
/// character's meaning.
pub open spec fn seq_turn_at(s: Seq<char>, pos: int) -> TurnDirection {
    if pos + 1 < s.len() && diagonal_of(s[pos], s[pos + 1]) is Some {
        TurnDirection::Absolute(diagonal_of(s[pos], s[pos + 1])->0)
    } else {
        turn_for_char(s[pos])
    }
}

/// Number of symbols a sequential rule defines: one per rule character, up
/// to the 256-symbol alphabet limit.
pub open spec fn seq_entry_count(s: Seq<char>) -> int {
    if s.len() < 256 {
        s.len() as int
    } else {
        256
    }
}

/// Transition of a sequential rule for originating symbol `sym`: the turn at
/// position `sym mod len`, writing symbol `(sym + 1) mod len`, staying in
/// mode `0`.
pub open spec fn sequential_entry(s: Seq<char>, sym: int) -> StateTransition {
    StateTransition {
        new_cell_state: ((sym + 1) % (s.len() as int)) as usize,
        turn_direction: seq_turn_at(s, sym % (s.len() as int)),
        new_internal_state: 0,
    }
}

/// Table denoted by the sequential grammar: all of mode `0`, one entry per
/// symbol below `seq_entry_count`; an empty rule denotes the empty table.
pub open spec fn sequential_table(s: Seq<char>) -> Map<(int, int), StateTransition> {
    Map::new(
        |k: (int, int)| k.0 == 0 && 0 <= k.1 < seq_entry_count(s),
        |k: (int, int)| sequential_entry(s, k.1),
    )
}

// ---------------------------------------------------------------------------
// Multi-mode grammar.
// ---------------------------------------------------------------------------

/// Direction tokens of a segment, read left to right, diagonals first.
pub open spec fn tokenize(s: Seq<char>) -> Seq<TurnDirection>
    decreases s.len(),
{
    if s.len() == 0 {
        Seq::empty()
    } else if s.len() >= 2 && diagonal_of(s[0], s[1]) is Some {
        seq![TurnDirection::Absolute(diagonal_of(s[0], s[1])->0)] + tokenize(s.skip(2))
    } else {
        seq![turn_for_char(s[0])] + tokenize(s.skip(1))
    }
}

/// Splits a mode segment at its first `>` into the direction part and the
/// destination mode; without `>` the mode auto-cycles to the next segment
/// (staying put when there is only one).
pub open spec fn segment_dirs_and_mode(seg: Seq<char>, idx: int, total: int) -> (Seq<char>, int) {
    match spec_find(seg, '>') {
        Option::Some(p) => {
            let next = match spec_parse_usize(seg.skip(p + 1)) {
                Option::Some(v) => v as int,
                Option::None => idx,
            };
            (seg.take(p), next)
        },
        Option::None => (
            seg,
            if total > 1 {
                (idx + 1) % total
            } else {
                idx
            },
        ),
    }
}

/// Table denoted by a bare-direction mode segment: the token at position
/// `p` serves originating symbol `p` (alphabet-capped), writing symbol
/// `(p + 1) mod token-count`.
pub open spec fn plain_segment_table(seg: Seq<char>, idx: int, total: int) -> Map<
    (int, int),
    StateTransition,
> {
    let dm = segment_dirs_and_mode(seg, idx, total);
    let tokens = tokenize(dm.0);
    let count = if tokens.len() < 256 {
        tokens.len() as int
    } else {
        256
    };
    Map::new(
        |k: (int, int)| k.0 == idx && 0 <= k.1 < count,
        |k: (int, int)|
            StateTransition {
                new_cell_state: ((k.1 + 1) % (tokens.len() as int)) as usize,
                turn_direction: tokens[k.1],
                new_internal_state: dm.1 as usize,
            },
    )
}

/// Transition denoted by one comma-separated explicit piece, if it has a
/// direction character: an optional trailing destination-symbol digit,
/// an optional `>` destination mode, and the leading direction character.
/// Without a digit the written symbol toggles between `0` and `1`.
pub open spec fn comma_entry(piece: Seq<char>, idx: int, cell_idx: int) -> Option<
    StateTransition,
> {
    let dn = match spec_find(piece, '>') {
        Option::Some(p) => (
            piece.take(p),
            match spec_parse_usize(piece.skip(p + 1)) {
                Option::Some(v) => v as int,
                Option::None => idx,
            },
        ),
        Option::None => (piece, idx),
    };
    let dc = if dn.0.len() > 0 && spec_is_digit(dn.0.last()) {
        (dn.0.drop_last(), digit_val(dn.0.last()))
    } else {
        (dn.0, (cell_idx + 1) % 2)
    };
    if dc.0.len() > 0 {
        Option::Some(
            StateTransition {
                new_cell_state: dc.1 as usize,
                turn_direction: turn_for_char(dc.0[0]),
                new_internal_state: dn.1 as usize,
            },
        )
    } else {
        Option::None
    }
}

/// Table denoted by a comma-separated explicit segment: the piece at list
/// position `c` serves originating symbol `c`.
pub open spec fn comma_segment_map(pieces: Seq<Seq<char>>, idx: int) -> Map<
    (int, int),
    StateTransition,
>
    decreases pieces.len(),
{
    if pieces.len() == 0 {
        Map::empty()
    } else {
        let m = comma_segment_map(pieces.drop_last(), idx);
        match comma_entry(pieces.last(), idx, pieces.len() - 1) {
            Option::Some(t) => m.insert((idx, pieces.len() - 1), t),
            Option::None => m,
        }
    }
}

/// Table denoted by one mode segment.
pub open spec fn segment_table(seg: Seq<char>, idx: int, total: int) -> Map<
    (int, int),
    StateTransition,
> {
    if seg.contains(',') {
        comma_segment_map(spec_split_on(seg, ','), idx)
    } else {
        plain_segment_table(seg, idx, total)
    }
}

pub open spec fn segments_map(segs: Seq<Seq<char>>, total: int) -> Map<
    (int, int),
    StateTransition,
>
    decreases segs.len(),
{
    if segs.len() == 0 {
        Map::empty()
    } else {
        segments_map(segs.drop_last(), total).union_prefer_right(
            segment_table(segs.last(), segs.len() - 1, total),
        )
    }
}

/// Table denoted by the multi-mode grammar: segments split on `:`, the
/// segment at position `m` describing mode `m`.
pub open spec fn multi_table(s: Seq<char>) -> Map<(int, int), StateTransition> {
    let segs = spec_split_on(s, ':');
    segments_map(segs, segs.len() as int)
}

// ---------------------------------------------------------------------------
// Brace (standard) notation.
// ---------------------------------------------------------------------------

/// The turn directive encoded by a brace-notation flag; only `1`, `2`, `4`
/// and `8` are valid.
pub open spec fn turn_flag(flag: int) -> Option<TurnDirection> {
    if flag == 1 {
        Option::Some(TurnDirection::Stay)
    } else if flag == 2 {
        Option::Some(TurnDirection::Right)
    } else if flag == 4 {
        Option::Some(TurnDirection::UTurn)
    } else if flag == 8 {
        Option::Some(TurnDirection::Left)
    } else {
        Option::None
    }
}

/// Transition encoded by the inside of one `{symbol,flag,mode}` cell rule.
pub open spec fn brace_triplet(s: Seq<char>) -> Option<StateTransition> {
    let parts = spec_split_on(s, ',');
    if parts.len() != 3 {
        Option::None
    } else {
        match (spec_parse_usize(parts[0]), spec_parse_usize(parts[1]), spec_parse_usize(parts[2])) {
            (Option::Some(sym), Option::Some(flag), Option::Some(mode)) => match turn_flag(
                flag as int,
            ) {
                Option::Some(t) => Option::Some(
                    StateTransition {
                        new_cell_state: sym,
                        turn_direction: t,
                        new_internal_state: mode,
                    },
                ),
                Option::None => Option::None,
            },
            _ => Option::None,
        }
    }
}

/// Transition encoded by one brace-wrapped cell rule.
pub open spec fn brace_cell(cell: Seq<char>) -> Option<StateTransition> {
    if cell.len() >= 2 && cell[0] == '{' && cell.last() == '}' {
        brace_triplet(cell.subrange(1, cell.len() - 1))
    } else {
        Option::None
    }
}

/// Table contributed by the cell rules of one state block: the cell at
/// position `c` serves originating symbol `c` of mode `idx`.
pub open spec fn brace_cells_map(cells: Seq<Seq<char>>, idx: int) -> Option<
    Map<(int, int), StateTransition>,
>
    decreases cells.len(),
{
    if cells.len() == 0 {
        Option::Some(Map::empty())
    } else {
        match (brace_cells_map(cells.drop_last(), idx), brace_cell(cells.last())) {
            (Option::Some(m), Option::Some(t)) => Option::Some(
                m.insert((idx, cells.len() - 1), t),
            ),
            _ => Option::None,
        }
    }
}

/// Table contributed by one brace-wrapped state block.
pub open spec fn brace_state(state: Seq<char>, idx: int) -> Option<
    Map<(int, int), StateTransition>,
> {
    if state.len() >= 2 && state[0] == '{' && state.last() == '}' {
        match spec_split_top(state.subrange(1, state.len() - 1)) {
            Option::Some(cells) => brace_cells_map(cells, idx),
            Option::None => Option::None,
        }
    } else {
        Option::None
    }
}

pub open spec fn brace_states_map(states: Seq<Seq<char>>) -> Option<
    Map<(int, int), StateTransition>,
>
    decreases states.len(),
{
    if states.len() == 0 {
        Option::Some(Map::empty())
    } else {
        match (brace_states_map(states.drop_last()), brace_state(states.last(), states.len() - 1)) {
            (Option::Some(m1), Option::Some(m2)) => Option::Some(m1.union_prefer_right(m2)),
            _ => Option::None,
        }
    }
}

/// Table denoted by brace notation, whitespace ignored: the state block at
/// position `m` describes mode `m`. Nothing on any structural malformation.
pub open spec fn brace_table(s: Seq<char>) -> Option<Map<(int, int), StateTransition>> {
    let cleaned = strip_ws(s);
    if cleaned.len() >= 2 && cleaned[0] == '{' && cleaned.last() == '}' {
        match spec_split_top(cleaned.subrange(1, cleaned.len() - 1)) {
            Option::Some(states) => brace_states_map(states),
            Option::None => Option::None,
        }
    } else {
        Option::None
    }
}

// ---------------------------------------------------------------------------
// Dispatch.
// ---------------------------------------------------------------------------

pub open spec fn first_non_ws(s: Seq<char>) -> Option<char>
    decreases s.len(),
{
    if s.len() == 0 {
        Option::None
    } else if spec_is_ws(s[0]) {
        first_non_ws(s.drop_first())
    } else {
        Option::Some(s[0])
    }
}

/// A rule string is read as brace notation when its first non-whitespace
/// character is `{`.
pub open spec fn rule_is_brace(s: Seq<char>) -> bool {
    first_non_ws(s) == Option::Some('{')
}

/// Grammar tried when brace notation is not chosen or fails to parse.
pub open spec fn fallback_table(s: Seq<char>) -> Map<(int, int), StateTransition> {
    if s.contains(':') || s.contains('>') {
        multi_table(s)
    } else {
        sequential_table(s)
    }
}

/// The canonical table compiled from a rule string, whichever grammar its
/// shape selects; malformed brace notation falls back to the others.
pub open spec fn compiled_table(s: Seq<char>) -> Map<(int, int), StateTransition> {
    if rule_is_brace(s) {
        match brace_table(s) {
            Option::Some(t) => t,
            Option::None => fallback_table(s),
        }
    } else {
        fallback_table(s)
    }
}

proof fn lemma_mode0_range_card(n: int)
    requires
        0 <= n,
    ensures
        Set::new(|k: (int, int)| k.0 == 0 && 0 <= k.1 < n).finite(),
        Set::new(|k: (int, int)| k.0 == 0 && 0 <= k.1 < n).len() == n,
    decreases n,
{
    if n == 0 {
        assert(Set::new(|k: (int, int)| k.0 == 0 && 0 <= k.1 < n) =~= Set::empty());
    } else {
        lemma_mode0_range_card(n - 1);
        assert(Set::new(|k: (int, int)| k.0 == 0 && 0 <= k.1 < n) =~= Set::new(
            |k: (int, int)| k.0 == 0 && 0 <= k.1 < n - 1,
        ).insert((0, n - 1)));
    }
}

/// Every rule string that the sequential grammar reads — one whose first
/// non-whitespace character is not `{` and which holds neither `:` nor `>` —
/// compiles to a table of exactly `min(256, len)` entries, all keyed to mode
/// `0`, entry `s` writing symbol `(s + 1) mod len` and staying in mode `0`.
pub proof fn lemma_sequential_table_shape(s: Seq<char>)
    requires
        !rule_is_brace(s),
        !s.contains(':'),
        !s.contains('>'),
        s.len() <= usize::MAX,
    ensures
        compiled_table(s) == sequential_table(s),
        compiled_table(s).dom().finite(),
        compiled_table(s).dom().len() == seq_entry_count(s),
        forall|k: (int, int)| #[trigger]
            compiled_table(s).contains_key(k) <==> (k.0 == 0 && 0 <= k.1 < seq_entry_count(s)),
        forall|k: (int, int)| #[trigger]
            compiled_table(s).contains_key(k) ==> compiled_table(s)[k].new_cell_state == (k.1 + 1)
                % (s.len() as int) && compiled_table(s)[k].new_internal_state == 0,
{
    lemma_mode0_range_card(seq_entry_count(s));
    assert(compiled_table(s).dom() =~= Set::new(
        |k: (int, int)| k.0 == 0 && 0 <= k.1 < seq_entry_count(s),
    ));
}

} // verus!
