//! The random rule generator: draws candidate rule strings in the shapes
//! the compiler's grammars accept, scores them, and keeps the best.

use vstd::prelude::*;
use rand::rngs::StdRng;
use crate::chars::{str_to_chars, contains_char, chars_to_string, split_on, vecs_view,
spec_split_on};
use crate::rng::{rng_below, rng_from_entropy};

verus! {

/// The single-character direction tokens candidates are built from.
pub open spec fn is_dir_char(c: char) -> bool {
    c == 'L' || c == 'R' || c == 'U' || c == 'D' || c == 'N' || c == 'S' || c == 'W' || c == 'E'
}

/// A character a generated rule string may hold: a direction token, a
/// mode separator, a transition marker or a destination digit.
pub open spec fn is_rule_char(c: char) -> bool {
    is_dir_char(c) || c == ':' || c == '>' || c == ',' || ('0' <= c && c <= '9')
}

fn dir_char(d: u32) -> (c: char)
    requires
        d < 8,
    ensures
        is_dir_char(c),
{
    match d {
        0 => 'L',
        1 => 'R',
        2 => 'U',
        3 => 'D',
        4 => 'N',
        5 => 'S',
        6 => 'W',
        _ => 'E',
    }
}

/// Occurrences of `c` in `s`.
pub open spec fn count_char(s: Seq<char>, c: char) -> int
    decreases s.len(),
{
    if s.len() == 0 {
        0
    } else {
        count_char(s.drop_last(), c) + if s.last() == c {
            1int
        } else {
            0int
        }
    }
}

fn count_occurrences(v: &Vec<char>, c: char) -> (r: usize)
    ensures
        r == count_char(v@, c),
        r <= v@.len(),
{
    proof {
        lemma_count_char_bound(v@, c);
    }
    let n = v.len();
    let mut r: usize = 0;
    let mut i: usize = 0;
    while i < n
        invariant
            n == v@.len(),
            i <= n,
            r == count_char(v@.take(i as int), c),
            r <= i,
        decreases n - i,
    {
        proof {
            assert(v@.take(i + 1).drop_last() =~= v@.take(i as int));
            assert(v@.take(i + 1).last() == v@[i as int]);
        }
        if v[i] == c {
            r += 1;
        }
        i += 1;
    }
    proof {
        assert(v@.take(n as int) =~= v@);
    }
    r
}

proof fn lemma_count_char_bound(s: Seq<char>, c: char)
    ensures
        0 <= count_char(s, c) <= s.len(),
    decreases s.len(),
{
    if s.len() > 0 {
        lemma_count_char_bound(s.drop_last(), c);
    }
}

/// Sum of the lengths of the per-mode segments: the rule's total length,
/// the `:` separators not counted.
pub open spec fn segment_length_sum(parts: Seq<Seq<char>>) -> int
    decreases parts.len(),
{
    if parts.len() == 0 {
        0
    } else {
        segment_length_sum(parts.drop_last()) + parts.last().len()
    }
}

/// The heuristic score of a candidate rule: `10` when the total length
/// over the mode segments lies in `[4, 12]`, twice the left/right balance
/// `5 - min(5, |L - R|)`, and `3` per distinct turn character among
/// `L`, `R`, `U`, `D`.
pub open spec fn spec_score(s: Seq<char>) -> int {
    let total = segment_length_sum(spec_split_on(s, ':'));
    let lc = count_char(s, 'L');
    let rc = count_char(s, 'R');
    let diff = if lc >= rc {
        lc - rc
    } else {
        rc - lc
    };
    let balance = if diff >= 5 {
        0int
    } else {
        5 - diff
    };
    let uniq = (if s.contains('L') {
        1int
    } else {
        0int
    }) + (if s.contains('R') {
        1int
    } else {
        0int
    }) + (if s.contains('U') {
        1int
    } else {
        0int
    }) + (if s.contains('D') {
        1int
    } else {
        0int
    });
    (if 4 <= total <= 12 {
        10int
    } else {
        0int
    }) + balance * 2 + uniq * 3
}

/// Scores a candidate rule for its potential to behave interestingly.
pub fn score_rule_potential(rule: &str) -> (r: u32)
    ensures
        r as int == spec_score(rule@),
        r <= 32,
{
    let v = str_to_chars(rule);
    let parts = split_on(&v, ':');
    let np = parts.len();
    let mut total: usize = 0;
    let mut overflowed: bool = false;
    let mut i: usize = 0;
    while i < np
        invariant
            np == parts@.len(),
            i <= np,
            !overflowed ==> total == segment_length_sum(vecs_view(parts).take(i as int)),
            overflowed ==> segment_length_sum(vecs_view(parts).take(i as int)) > 12,
            total <= usize::MAX - 1,
        decreases np - i,
    {
        proof {
            assert(vecs_view(parts).take(i + 1).drop_last() =~= vecs_view(parts).take(i as int));
            assert(vecs_view(parts).take(i + 1).last() == vecs_view(parts)[i as int]);
            assert(parts@[i as int]@ == vecs_view(parts)[i as int]);
            lemma_segment_sum_nonneg(vecs_view(parts).take(i as int));
        }
        let sl = parts[i].len();
        if sl > 12 || total > 12 {
            overflowed = true;
            total = 13;
        } else {
            total += sl;
        }
        i += 1;
    }
    proof {
        assert(vecs_view(parts).take(np as int) =~= vecs_view(parts));
        lemma_segment_sum_nonneg(vecs_view(parts));
    }
    let in_range: bool = !overflowed && 4 <= total && total <= 12;
    let lc = count_occurrences(&v, 'L');
    let rc = count_occurrences(&v, 'R');
    let diff = if lc >= rc {
        lc - rc
    } else {
        rc - lc
    };
    let balance: u32 = if diff >= 5 {
        0
    } else {
        (5 - diff) as u32
    };
    let mut uniq: u32 = 0;
    if contains_char(&v, 'L') {
        uniq += 1;
    }
    if contains_char(&v, 'R') {
        uniq += 1;
    }
    if contains_char(&v, 'U') {
        uniq += 1;
    }
    if contains_char(&v, 'D') {
        uniq += 1;
    }
    let base: u32 = if in_range {
        10
    } else {
        0
    };
    base + balance * 2 + uniq * 3
}

proof fn lemma_segment_sum_nonneg(parts: Seq<Seq<char>>)
    ensures
        segment_length_sum(parts) >= 0,
    decreases parts.len(),
{
    if parts.len() > 0 {
        lemma_segment_sum_nonneg(parts.drop_last());
    }
}

/// A basic candidate: a short direction-token sequence, nudged toward
/// left/right balance when it comes out lopsided.
fn generate_basic_rule(rng: &mut StdRng) -> (r: Vec<char>)
    ensures
        2 <= r@.len() <= 10,
        forall|i: int| 0 <= i < r@.len() ==> is_dir_char(#[trigger] r@[i]),
{
    let length = (rng_below(rng, 8) + 2) as usize;
    let mut rule: Vec<char> = Vec::new();
    let mut left: usize = 0;
    let mut right: usize = 0;
    let mut i: usize = 0;
    while i < length
        invariant
            2 <= length <= 9,
            i <= length,
            rule@.len() == i,
            forall|j: int| 0 <= j < rule@.len() ==> is_dir_char(#[trigger] rule@[j]),
            left <= i,
            right <= i,
        decreases length - i,
    {
        let d = rng_below(rng, 8);
        let c = dir_char(d);
        rule.push(c);
        if c == 'L' {
            left += 1;
        }
        if c == 'R' {
            right += 1;
        }
        i += 1;
    }
    let diff = if left >= right {
        left - right
    } else {
        right - left
    };
    if diff > length / 2 {
        rule.push(
            if left > right {
                'R'
            } else {
                'L'
            },
        );
    }
    rule
}

/// A contrasting candidate: biased away from the dominant turn direction
/// of a base rule, to avoid monostable spinning.
#[verifier::loop_isolation(false)]
fn generate_contrasting_rule(rng: &mut StdRng, base_rule: &Vec<char>) -> (r: Vec<char>)
    ensures
        2 <= r@.len() <= 4,
        forall|i: int| 0 <= i < r@.len() ==> is_dir_char(#[trigger] r@[i]),
        count_char(base_rule@, 'L') > count_char(base_rule@, 'R') ==> !r@.contains('L'),
        count_char(base_rule@, 'L') <= count_char(base_rule@, 'R') ==> !r@.contains('R'),
{
    let lc = count_occurrences(base_rule, 'L');
    let rc = count_occurrences(base_rule, 'R');
    let has_mostly_left = lc > rc;
    let excluded = if has_mostly_left {
        'L'
    } else {
        'R'
    };
    let length = (rng_below(rng, 3) + 2) as usize;
    let mut rule: Vec<char> = Vec::new();
    let mut i: usize = 0;
    while i < length
        invariant
            2 <= length <= 4,
            i <= length,
            rule@.len() == i,
            forall|j: int|
                0 <= j < rule@.len() ==> is_dir_char(#[trigger] rule@[j]) && rule@[j] != excluded,
        decreases length - i,
    {
        let d = rng_below(rng, 7);
        let c = if has_mostly_left {
            match d {
                0 => 'R',
                1 => 'U',
                2 => 'D',
                3 => 'N',
                4 => 'S',
                5 => 'W',
                _ => 'E',
            }
        } else {
            match d {
                0 => 'L',
                1 => 'U',
                2 => 'D',
                3 => 'N',
                4 => 'S',
                5 => 'W',
                _ => 'E',
            }
        };
        rule.push(c);
        i += 1;
    }
    rule
}

/// A multi-mode candidate: two or three mode segments joined with `:`, the
/// later ones contrasting with the first, some with an explicit `>`
/// destination mode.
fn generate_multi_state_rule(rng: &mut StdRng) -> (r: Vec<char>)
    ensures
        r@.len() >= 2,
        forall|i: int| 0 <= i < r@.len() ==> is_rule_char(#[trigger] r@[i]),
{
    let states = (rng_below(rng, 2) + 2) as usize;
    let first = generate_basic_rule(rng);
    let mut out: Vec<char> = Vec::new();
    let mut i: usize = 0;
    while i < states
        invariant
            2 <= states <= 3,
            i <= states,
            2 <= first@.len() <= 10,
            forall|j: int| 0 <= j < first@.len() ==> is_dir_char(#[trigger] first@[j]),
            i >= 1 ==> out@.len() >= 2,
            forall|j: int| 0 <= j < out@.len() ==> is_rule_char(#[trigger] out@[j]),
        decreases states - i,
    {
        if i > 0 {
            out.push(':');
        }
        let base: Vec<char> = if i == 0 {
            let mut copy: Vec<char> = Vec::new();
            let mut k: usize = 0;
            while k < first.len()
                invariant
                    k <= first@.len(),
                    copy@ == first@.take(k as int),
                    forall|j: int| 0 <= j < first@.len() ==> is_dir_char(#[trigger] first@[j]),
                decreases first@.len() - k,
            {
                copy.push(first[k]);
                proof {
                    assert(copy@ =~= first@.take(k + 1));
                }
                k += 1;
            }
            proof {
                assert(first@.take(first@.len() as int) =~= first@);
            }
            copy
        } else {
            generate_contrasting_rule(rng, &first)
        };
        let mut k: usize = 0;
        while k < base.len()
            invariant
                k <= base@.len(),
                base@.len() >= 2,
                forall|j: int| 0 <= j < base@.len() ==> is_dir_char(#[trigger] base@[j]),
                out@.len() >= k,
                forall|j: int| 0 <= j < out@.len() ==> is_rule_char(#[trigger] out@[j]),
            decreases base@.len() - k,
        {
            out.push(base[k]);
            k += 1;
        }
        if rng_below(rng, 2) == 0 {
            let target = ((i + 1) % states) as u8;
            out.push('>');
            out.push((48 + target) as char);
        }
        i += 1;
    }
    out
}

/// An explicit-transition candidate: a comma-separated list of
/// `direction>mode` pieces cycling through two or three modes, one or two
/// of which get a second piece.
fn generate_explicit_rule(rng: &mut StdRng) -> (r: Vec<char>)
    ensures
        r@.len() >= 3,
        forall|i: int| 0 <= i < r@.len() ==> is_rule_char(#[trigger] r@[i]),
{
    let states = (rng_below(rng, 2) + 2) as usize;
    let multi = (rng_below(rng, 2) + 1) as usize;
    let first_multi = rng_below(rng, states as u32) as usize;
    let second_multi = if multi == 2 {
        ((first_multi + 1 + rng_below(rng, states as u32 - 1) as usize) % states) as usize
    } else {
        states
    };
    let mut out: Vec<char> = Vec::new();
    let mut i: usize = 0;
    while i < states
        invariant
            2 <= states <= 3,
            i <= states,
            i >= 1 ==> out@.len() >= 3,
            forall|j: int| 0 <= j < out@.len() ==> is_rule_char(#[trigger] out@[j]),
        decreases states - i,
    {
        let reps: usize = if i == first_multi || i == second_multi {
            2
        } else {
            1
        };
        let mut k: usize = 0;
        while k < reps
            invariant
                k <= reps,
                reps <= 2,
                i < states,
                states <= 3,
                (i > 0 || k > 0) ==> out@.len() >= 3,
                forall|j: int| 0 <= j < out@.len() ==> is_rule_char(#[trigger] out@[j]),
            decreases reps - k,
        {
            if i > 0 || k > 0 {
                out.push(',');
            }
            let d = rng_below(rng, 8);
            out.push(dir_char(d));
            out.push('>');
            let next = ((i + 1) % states) as u8;
            out.push((48 + next) as char);
            k += 1;
        }
        i += 1;
    }
    out
}

/// Draws five candidate rule strings — mostly basic token sequences, some
/// multi-mode, occasionally explicit lists — scores each, and returns the
/// best scorer (later candidates win ties). The result is never empty.
pub fn generate_random_rule() -> (r: String)
    ensures
        r@.len() >= 2,
        forall|i: int| 0 <= i < r@.len() ==> is_rule_char(#[trigger] r@[i]),
{
    let mut rng = rng_from_entropy();
    let mut best: Vec<char> = generate_candidate(&mut rng);
    let s = chars_to_string(&best);
    let mut best_score = score_rule_potential(s.as_str());
    let mut i: usize = 0;
    while i < 4
        invariant
            i <= 4,
            best@.len() >= 2,
            forall|j: int| 0 <= j < best@.len() ==> is_rule_char(#[trigger] best@[j]),
        decreases 4 - i,
    {
        let cand = generate_candidate(&mut rng);
        let cs = chars_to_string(&cand);
        let score = score_rule_potential(cs.as_str());
        if score >= best_score {
            best = cand;
            best_score = score;
        }
        i += 1;
    }
    chars_to_string(&best)
}

/// One candidate, drawn from the three families with weights of roughly
/// seventy, twenty and ten percent.
fn generate_candidate(rng: &mut StdRng) -> (r: Vec<char>)
    ensures
        r@.len() >= 2,
        forall|i: int| 0 <= i < r@.len() ==> is_rule_char(#[trigger] r@[i]),
{
    let fam = rng_below(rng, 10);
    if fam <= 6 {
        let r = generate_basic_rule(rng);
        proof {
            assert(forall|i: int| 0 <= i < r@.len() ==> is_rule_char(#[trigger] r@[i]));
        }
        r
    } else if fam <= 8 {
        generate_multi_state_rule(rng)
    } else {
        generate_explicit_rule(rng)
    }
}

} // verus!
