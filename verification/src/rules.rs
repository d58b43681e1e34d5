//! The rule compiler: turns a rule string, in whichever grammar its shape
//! selects, into the canonical transition table of `rule_model`.

use vstd::prelude::*;
use crate::direction::{Direction, TurnDirection};
use crate::table::{RuleTable, StateTransition};
use crate::chars::{
    str_to_chars, remove_whitespace, sub_chars, contains_char, find_char, parse_usize, spec_find,
    split_on, split_by_top_level_comma, vecs_view, spec_split_on,
};
use crate::rule_model::{
    turn_for_char, diagonal_of, seq_turn_at, seq_entry_count, sequential_entry, sequential_table,
    tokenize, segment_dirs_and_mode, plain_segment_table, comma_entry, comma_segment_map,
    segment_table, segments_map, multi_table, brace_cell, brace_cells_map, brace_state,
    brace_states_map, brace_table, first_non_ws, rule_is_brace, fallback_table, compiled_table,
};

verus! {

/// Turn directive of a single direction character.
fn char_turn(c: char) -> (r: TurnDirection)
    ensures
        r == turn_for_char(c),
{
    match c {
        'L' => TurnDirection::Left,
        'R' => TurnDirection::Right,
        'U' => TurnDirection::UTurn,
        'D' => TurnDirection::Stay,
        'N' => TurnDirection::Absolute(Direction::Up),
        'S' => TurnDirection::Absolute(Direction::Down),
        'E' => TurnDirection::Absolute(Direction::Right),
        'W' => TurnDirection::Absolute(Direction::Left),
        _ => TurnDirection::Right,
    }
}

/// Diagonal compass direction spelled by a two-character code, if any.
fn diagonal_pair(a: char, b: char) -> (r: Option<Direction>)
    ensures
        r == diagonal_of(a, b),
{
    if a == 'N' && b == 'W' {
        Some(Direction::UpLeft)
    } else if a == 'N' && b == 'E' {
        Some(Direction::UpRight)
    } else if a == 'S' && b == 'W' {
        Some(Direction::DownLeft)
    } else if a == 'S' && b == 'E' {
        Some(Direction::DownRight)
    } else {
        None
    }
}

/// Turn directive read at position `pos` of a sequential rule.
fn token_at(chars: &Vec<char>, pos: usize) -> (r: TurnDirection)
    requires
        pos < chars@.len(),
    ensures
        r == seq_turn_at(chars@, pos as int),
{
    let n = chars.len();
    if pos < n - 1 {
        match diagonal_pair(chars[pos], chars[pos + 1]) {
            Some(d) => TurnDirection::Absolute(d),
            None => char_turn(chars[pos]),
        }
    } else {
        char_turn(chars[pos])
    }
}

spec fn sequential_table_upto(s: Seq<char>, m: int) -> Map<(int, int), StateTransition> {
    Map::new(
        |k: (int, int)| k.0 == 0 && 0 <= k.1 < m,
        |k: (int, int)| sequential_entry(s, k.1),
    )
}

/// Compiles a rule in the sequential single-mode grammar: one entry per rule
/// character up to the alphabet limit, all in mode `0`.
pub fn parse_string_rules(chars: &Vec<char>) -> (t: RuleTable)
    ensures
        t.wf(),
        t@ == sequential_table(chars@),
{
    let mut t = RuleTable::new();
    let n = chars.len();
    if n == 0 {
        proof {
            assert(sequential_table(chars@) =~= Map::<(int, int), StateTransition>::empty());
        }
        return t;
    }
    let count: usize = if n < 256 {
        n
    } else {
        256
    };
    let mut s: usize = 0;
    proof {
        assert(t@ =~= sequential_table_upto(chars@, 0));
    }
    while s < count
        invariant
            n == chars@.len(),
            n >= 1,
            count == seq_entry_count(chars@),
            s <= count,
            t.wf(),
            t@ == sequential_table_upto(chars@, s as int),
        decreases count - s,
    {
        let pos = s % n;
        let turn = token_at(chars, pos);
        let tr = StateTransition {
            new_cell_state: (s + 1) % n,
            turn_direction: turn,
            new_internal_state: 0,
        };
        t.insert(0, s, tr);
        proof {
            assert(tr == sequential_entry(chars@, s as int));
            assert(t@ =~= sequential_table_upto(chars@, s + 1));
        }
        s += 1;
    }
    proof {
        assert(t@ =~= sequential_table(chars@));
    }
    t
}

/// Direction tokens of a segment, diagonals taking two characters.
fn tokenize_dirs(dirs: &Vec<char>) -> (r: Vec<TurnDirection>)
    ensures
        r@ == tokenize(dirs@),
{
    let mut r: Vec<TurnDirection> = Vec::new();
    let n = dirs.len();
    let mut i: usize = 0;
    proof {
        assert(dirs@.skip(0) =~= dirs@);
        assert(r@ + tokenize(dirs@) =~= tokenize(dirs@));
    }
    while i < n
        invariant
            n == dirs@.len(),
            i <= n,
            tokenize(dirs@) == r@ + tokenize(dirs@.skip(i as int)),
        decreases n - i,
    {
        let ghost rest = dirs@.skip(i as int);
        if i + 1 < n {
            match diagonal_pair(dirs[i], dirs[i + 1]) {
                Some(d) => {
                    proof {
                        assert(rest[0] == dirs@[i as int]);
                        assert(rest[1] == dirs@[i + 1]);
                        assert(tokenize(rest) == seq![
                            TurnDirection::Absolute(diagonal_of(rest[0], rest[1])->0),
                        ] + tokenize(rest.skip(2)));
                        assert(rest.skip(2) =~= dirs@.skip(i + 2));
                    }
                    r.push(TurnDirection::Absolute(d));
                    i += 2;
                },
                None => {
                    proof {
                        assert(rest[0] == dirs@[i as int]);
                        assert(tokenize(rest) == seq![turn_for_char(rest[0])] + tokenize(
                            rest.skip(1),
                        ));
                        assert(rest.skip(1) =~= dirs@.skip(i + 1));
                    }
                    let turn = char_turn(dirs[i]);
                    r.push(turn);
                    i += 1;
                },
            }
        } else {
            proof {
                assert(rest.len() == 1);
                assert(rest[0] == dirs@[i as int]);
                assert(tokenize(rest) == seq![turn_for_char(rest[0])] + tokenize(rest.skip(1)));
                assert(rest.skip(1) =~= dirs@.skip(i + 1));
            }
            let turn = char_turn(dirs[i]);
            r.push(turn);
            i += 1;
        }
        proof {
            assert(tokenize(dirs@) =~= r@ + tokenize(dirs@.skip(i as int)));
        }
    }
    proof {
        assert(dirs@.skip(n as int) =~= Seq::<char>::empty());
        assert(tokenize(dirs@) =~= r@);
    }
    r
}

/// Explicit transition of one comma-separated piece, as `comma_entry`
/// denotes it.
fn piece_entry(piece: &Vec<char>, idx: usize, cell_idx: usize) -> (r: Option<StateTransition>)
    requires
        cell_idx < usize::MAX,
    ensures
        r == comma_entry(piece@, idx as int, cell_idx as int),
{
    let plen = piece.len();
    let (dirs, next_state): (Vec<char>, usize) = match find_char(piece, '>') {
        Some(p) => {
            let after = sub_chars(piece, p + 1, plen);
            let ns = match parse_usize(&after) {
                Some(v) => v,
                None => idx,
            };
            proof {
                assert(after@ =~= piece@.skip(p + 1));
            }
            (sub_chars(piece, 0, p), ns)
        },
        None => (sub_chars(piece, 0, plen), idx),
    };
    proof {
        assert(piece@.subrange(0, piece@.len() as int) =~= piece@);
        assert(match spec_find(piece@, '>') {
            Option::Some(p) => dirs@ =~= piece@.take(p),
            Option::None => dirs@ =~= piece@,
        });
    }
    let dlen = dirs.len();
    let (dpart, next_cell): (Vec<char>, usize) = if dlen > 0 {
        let lc = dirs[dlen - 1];
        let lcu = lc as u32;
        if 48 <= lcu && lcu <= 57 {
            let dp = sub_chars(&dirs, 0, dlen - 1);
            proof {
                assert(dp@ =~= dirs@.drop_last());
            }
            (dp, (lcu - 48) as usize)
        } else {
            (dirs, (cell_idx + 1) % 2)
        }
    } else {
        (dirs, (cell_idx + 1) % 2)
    };
    if dpart.len() > 0 {
        let turn = char_turn(dpart[0]);
        Some(
            StateTransition {
                new_cell_state: next_cell,
                turn_direction: turn,
                new_internal_state: next_state,
            },
        )
    } else {
        None
    }
}

spec fn plain_upto(seg: Seq<char>, idx: int, total: int, m: int) -> Map<
    (int, int),
    StateTransition,
> {
    let dm = segment_dirs_and_mode(seg, idx, total);
    let tokens = tokenize(dm.0);
    Map::new(
        |k: (int, int)| k.0 == idx && 0 <= k.1 < m,
        |k: (int, int)|
            StateTransition {
                new_cell_state: ((k.1 + 1) % (tokens.len() as int)) as usize,
                turn_direction: tokens[k.1],
                new_internal_state: dm.1 as usize,
            },
    )
}

/// Compiles one mode segment of the multi-mode grammar into `table`.
pub fn parse_state_rule(seg: &Vec<char>, idx: usize, total: usize, table: &mut RuleTable)
    requires
        old(table).wf(),
        idx < total,
    ensures
        final(table).wf(),
        final(table)@ == old(table)@.union_prefer_right(
            segment_table(seg@, idx as int, total as int),
        ),
{
    if contains_char(seg, ',') {
        let pieces = split_on(seg, ',');
        let m = pieces.len();
        let mut c: usize = 0;
        proof {
            assert(vecs_view(pieces).take(0) =~= Seq::<Seq<char>>::empty());
            assert(table@ =~= table@.union_prefer_right(
                comma_segment_map(vecs_view(pieces).take(0), idx as int),
            ));
        }
        while c < m
            invariant
                old(table).wf(),
                table.wf(),
                m == pieces@.len(),
                c <= m,
                table@ == old(table)@.union_prefer_right(
                    comma_segment_map(vecs_view(pieces).take(c as int), idx as int),
                ),
            decreases m - c,
        {
            let ghost partial = comma_segment_map(vecs_view(pieces).take(c as int), idx as int);
            let entry = piece_entry(&pieces[c], idx, c);
            proof {
                assert(pieces@[c as int]@ == vecs_view(pieces)[c as int]);
                assert(vecs_view(pieces).take(c + 1).drop_last() =~= vecs_view(pieces).take(
                    c as int,
                ));
                assert(vecs_view(pieces).take(c + 1).last() == vecs_view(pieces)[c as int]);
            }
            match entry {
                Some(tr) => {
                    table.insert(idx, c, tr);
                    proof {
                        assert(table@ =~= old(table)@.union_prefer_right(
                            partial.insert((idx as int, c as int), tr),
                        ));
                        assert(comma_segment_map(vecs_view(pieces).take(c + 1), idx as int)
                            == partial.insert((idx as int, c as int), tr));
                    }
                },
                None => {
                    proof {
                        assert(comma_segment_map(vecs_view(pieces).take(c + 1), idx as int)
                            == partial);
                    }
                },
            }
            c += 1;
        }
        proof {
            assert(vecs_view(pieces).take(m as int) =~= vecs_view(pieces));
            assert(seg@.contains(','));
        }
        return ;
    }
    let slen = seg.len();
    let (dirs, next_mode): (Vec<char>, usize) = match find_char(seg, '>') {
        Some(p) => {
            let after = sub_chars(seg, p + 1, slen);
            let ns = match parse_usize(&after) {
                Some(v) => v,
                None => idx,
            };
            proof {
                assert(after@ =~= seg@.skip(p + 1));
            }
            (sub_chars(seg, 0, p), ns)
        },
        None => {
            let next = if total > 1 {
                (idx + 1) % total
            } else {
                idx
            };
            (sub_chars(seg, 0, slen), next)
        },
    };
    proof {
        assert(seg@.subrange(0, seg@.len() as int) =~= seg@);
        assert(match spec_find(seg@, '>') {
            Option::Some(p) => dirs@ =~= seg@.take(p),
            Option::None => dirs@ =~= seg@,
        });
        assert(dirs@ == segment_dirs_and_mode(seg@, idx as int, total as int).0);
        assert(next_mode as int == segment_dirs_and_mode(seg@, idx as int, total as int).1);
    }
    let tokens = tokenize_dirs(&dirs);
    let tlen = tokens.len();
    let count: usize = if tlen < 256 {
        tlen
    } else {
        256
    };
    let mut p: usize = 0;
    proof {
        assert(table@ =~= table@.union_prefer_right(
            plain_upto(seg@, idx as int, total as int, 0),
        ));
    }
    while p < count
        invariant
            old(table).wf(),
            table.wf(),
            p <= count,
            count <= tlen,
            tlen == tokens@.len(),
            tokens@ == tokenize(segment_dirs_and_mode(seg@, idx as int, total as int).0),
            next_mode as int == segment_dirs_and_mode(seg@, idx as int, total as int).1,
            table@ == old(table)@.union_prefer_right(
                plain_upto(seg@, idx as int, total as int, p as int),
            ),
        decreases count - p,
    {
        let tr = StateTransition {
            new_cell_state: (p + 1) % tlen,
            turn_direction: tokens[p],
            new_internal_state: next_mode,
        };
        table.insert(idx, p, tr);
        proof {
            assert(table@ =~= old(table)@.union_prefer_right(
                plain_upto(seg@, idx as int, total as int, p + 1),
            ));
        }
        p += 1;
    }
    proof {
        assert(!seg@.contains(','));
        assert(plain_upto(seg@, idx as int, total as int, count as int) =~= plain_segment_table(
            seg@,
            idx as int,
            total as int,
        ));
    }
}

/// Compiles a rule in the multi-mode grammar: segments split on `:`, the
/// segment at position `m` describing mode `m`.
pub fn parse_state_transition_rules(chars: &Vec<char>) -> (t: RuleTable)
    ensures
        t.wf(),
        t@ == multi_table(chars@),
{
    let segs = split_on(chars, ':');
    let total = segs.len();
    let mut t = RuleTable::new();
    let mut idx: usize = 0;
    proof {
        assert(vecs_view(segs).take(0) =~= Seq::<Seq<char>>::empty());
    }
    while idx < total
        invariant
            t.wf(),
            total == segs@.len(),
            idx <= total,
            vecs_view(segs) == spec_split_on(chars@, ':'),
            t@ == segments_map(vecs_view(segs).take(idx as int), total as int),
        decreases total - idx,
    {
        parse_state_rule(&segs[idx], idx, total, &mut t);
        proof {
            assert(segs@[idx as int]@ == vecs_view(segs)[idx as int]);
            assert(vecs_view(segs).take(idx + 1).drop_last() =~= vecs_view(segs).take(idx as int));
            assert(vecs_view(segs).take(idx + 1).last() == vecs_view(segs)[idx as int]);
        }
        idx += 1;
    }
    proof {
        assert(vecs_view(segs).take(total as int) =~= vecs_view(segs));
    }
    t
}

proof fn lemma_cells_map_none(cells: Seq<Seq<char>>, idx: int, i: int)
    requires
        0 <= i < cells.len(),
        brace_cell(cells[i]) is None,
    ensures
        brace_cells_map(cells, idx) is None,
    decreases cells.len(),
{
    if i == cells.len() - 1 {
    } else {
        assert(cells.drop_last()[i] == cells[i]);
        lemma_cells_map_none(cells.drop_last(), idx, i);
    }
}

proof fn lemma_states_map_none(states: Seq<Seq<char>>, i: int)
    requires
        0 <= i < states.len(),
        brace_state(states[i], i) is None,
    ensures
        brace_states_map(states) is None,
    decreases states.len(),
{
    if i == states.len() - 1 {
    } else {
        assert(states.drop_last()[i] == states[i]);
        lemma_states_map_none(states.drop_last(), i);
    }
}

/// Compiles a rule in brace notation, or reports a structural malformation
/// so the caller can fall back to the other grammars.
pub fn parse_brace_notation(chars: &Vec<char>) -> (r: Option<RuleTable>)
    ensures
        match r {
            Some(t) => t.wf() && brace_table(chars@) == Option::Some(t@),
            None => brace_table(chars@) is None,
        },
{
    let cleaned = remove_whitespace(chars);
    let clen = cleaned.len();
    if clen < 2 || cleaned[0] != '{' || cleaned[clen - 1] != '}' {
        return None;
    }
    let content = sub_chars(&cleaned, 1, clen - 1);
    let states: Vec<Vec<char>> = match split_by_top_level_comma(&content) {
        Some(s) => s,
        None => {
            return None;
        },
    };
    let mut t = RuleTable::new();
    let ns = states.len();
    let mut si: usize = 0;
    proof {
        assert(vecs_view(states).take(0) =~= Seq::<Seq<char>>::empty());
    }
    while si < ns
        invariant
            t.wf(),
            ns == states@.len(),
            si <= ns,
            brace_table(chars@) == brace_states_map(vecs_view(states)),
            brace_states_map(vecs_view(states).take(si as int)) == Option::Some(t@),
        decreases ns - si,
    {
        let ghost svv = vecs_view(states);
        let ghost outer = t@;
        let state = &states[si];
        proof {
            assert(state@ == svv[si as int]);
            assert(svv.take(si + 1).drop_last() =~= svv.take(si as int));
            assert(svv.take(si + 1).last() == svv[si as int]);
        }
        let stlen = state.len();
        if stlen < 2 || state[0] != '{' || state[stlen - 1] != '}' {
            proof {
                lemma_states_map_none(svv, si as int);
            }
            return None;
        }
        let scontent = sub_chars(state, 1, stlen - 1);
        let cells: Vec<Vec<char>> = match split_by_top_level_comma(&scontent) {
            Some(c) => c,
            None => {
                proof {
                    lemma_states_map_none(svv, si as int);
                }
                return None;
            },
        };
        let nc = cells.len();
        let mut ci: usize = 0;
        proof {
            assert(vecs_view(cells).take(0) =~= Seq::<Seq<char>>::empty());
            assert(outer.union_prefer_right(Map::<(int, int), StateTransition>::empty()) =~= outer);
        }
        while ci < nc
            invariant
                t.wf(),
                ns == states@.len(),
                si < ns,
                svv == vecs_view(states),
                nc == cells@.len(),
                ci <= nc,
                brace_table(chars@) == brace_states_map(svv),
                brace_states_map(svv.take(si as int)) == Option::Some(outer),
                brace_state(svv[si as int], si as int) == brace_cells_map(
                    vecs_view(cells),
                    si as int,
                ),
                brace_cells_map(vecs_view(cells).take(ci as int), si as int) is Some,
                t@ == outer.union_prefer_right(
                    brace_cells_map(vecs_view(cells).take(ci as int), si as int)->0,
                ),
            decreases nc - ci,
        {
            let ghost cvv = vecs_view(cells);
            let ghost partial = brace_cells_map(cvv.take(ci as int), si as int)->0;
            let cell = &cells[ci];
            proof {
                assert(cell@ == cvv[ci as int]);
                assert(cvv.take(ci + 1).drop_last() =~= cvv.take(ci as int));
                assert(cvv.take(ci + 1).last() == cvv[ci as int]);
            }
            let celen = cell.len();
            if celen < 2 || cell[0] != '{' || cell[celen - 1] != '}' {
                proof {
                    lemma_cells_map_none(cvv, si as int, ci as int);
                    lemma_states_map_none(svv, si as int);
                }
                return None;
            }
            let inner = sub_chars(cell, 1, celen - 1);
            let parts = split_on(&inner, ',');
            let ghost pvv = vecs_view(parts);
            let mut bad: bool = parts.len() != 3;
            let mut tr = StateTransition {
                new_cell_state: 0,
                turn_direction: TurnDirection::Stay,
                new_internal_state: 0,
            };
            if !bad {
                proof {
                    assert(pvv[0] == parts@[0]@);
                    assert(pvv[1] == parts@[1]@);
                    assert(pvv[2] == parts@[2]@);
                }
                match (parse_usize(&parts[0]), parse_usize(&parts[1]), parse_usize(&parts[2])) {
                    (Some(sym), Some(flag), Some(mode)) => {
                        let turn: Option<TurnDirection> = if flag == 1 {
                            Some(TurnDirection::Stay)
                        } else if flag == 2 {
                            Some(TurnDirection::Right)
                        } else if flag == 4 {
                            Some(TurnDirection::UTurn)
                        } else if flag == 8 {
                            Some(TurnDirection::Left)
                        } else {
                            None
                        };
                        match turn {
                            Some(td) => {
                                tr = StateTransition {
                                    new_cell_state: sym,
                                    turn_direction: td,
                                    new_internal_state: mode,
                                };
                            },
                            None => {
                                bad = true;
                            },
                        }
                    },
                    _ => {
                        bad = true;
                    },
                }
            }
            if bad {
                proof {
                    assert(brace_cell(cvv[ci as int]) is None);
                    lemma_cells_map_none(cvv, si as int, ci as int);
                    lemma_states_map_none(svv, si as int);
                }
                return None;
            }
            proof {
                assert(brace_cell(cvv[ci as int]) == Option::Some(tr));
            }
            t.insert(si, ci, tr);
            proof {
                assert(brace_cells_map(cvv.take(ci + 1), si as int) == Option::Some(
                    partial.insert((si as int, ci as int), tr),
                ));
                assert(t@ =~= outer.union_prefer_right(
                    partial.insert((si as int, ci as int), tr),
                ));
            }
            ci += 1;
        }
        proof {
            assert(vecs_view(cells).take(nc as int) =~= vecs_view(cells));
            assert(brace_states_map(svv.take(si + 1)) == Option::Some(t@));
        }
        si += 1;
    }
    proof {
        assert(vecs_view(states).take(ns as int) =~= vecs_view(states));
    }
    Some(t)
}

/// Compiles with the grammar selected by content when brace notation is not
/// in play: multi-mode when the string holds `:` or `>`, else sequential.
pub fn parse_fallback_rules(chars: &Vec<char>) -> (t: RuleTable)
    ensures
        t.wf(),
        t@ == fallback_table(chars@),
{
    if contains_char(chars, ':') || contains_char(chars, '>') {
        parse_state_transition_rules(chars)
    } else {
        parse_string_rules(chars)
    }
}

pub fn starts_with_brace(v: &Vec<char>) -> (r: bool)
    ensures
        r == rule_is_brace(v@),
{
    let n = v.len();
    let mut i: usize = 0;
    proof {
        assert(v@.skip(0) =~= v@);
    }
    while i < n
        invariant
            n == v@.len(),
            i <= n,
            first_non_ws(v@) == first_non_ws(v@.skip(i as int)),
        decreases n - i,
    {
        let c = v[i];
        proof {
            assert(v@.skip(i as int)[0] == v@[i as int]);
            assert(v@.skip(i as int).drop_first() =~= v@.skip(i + 1));
        }
        if !(c == ' ' || c == '\t' || c == '\n' || c == '\r') {
            return c == '{';
        }
        i += 1;
    }
    proof {
        assert(v@.skip(n as int).len() == 0);
    }
    false
}

/// Compiles a rule string into the canonical transition table, dispatching
/// on its lexical shape; malformed brace notation falls back to the other
/// grammars against the original string.
pub fn parse_rules(rule_string: &str) -> (t: RuleTable)
    ensures
        t.wf(),
        t@ == compiled_table(rule_string@),
{
    let chars = str_to_chars(rule_string);
    if starts_with_brace(&chars) {
        match parse_brace_notation(&chars) {
            Some(t) => t,
            None => parse_fallback_rules(&chars),
        }
    } else {
        parse_fallback_rules(&chars)
    }
}

} // verus!
