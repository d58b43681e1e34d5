//! The pre-compile validation pass: checks rule strings, colors, glyphs
//! and key bindings, reporting violations as a list of messages so the
//! caller can choose to reject the input or fall back to defaults.

use vstd::prelude::*;
use crate::chars::{
    str_to_chars, sub_chars, split_on, parse_usize, find_char, spec_find, spec_split_on,
    spec_parse_usize, all_digits, spec_is_digit, vecs_view,
};
use crate::color::{validate_color, spec_color_valid};
use crate::config::Config;
use crate::rule_model::{diagonal_of, first_non_ws};
use crate::rulegen::is_dir_char;

verus! {

/// A token the direction grammar accepts at one position: a direction
/// character or a destination digit.
pub open spec fn is_dir_or_digit(c: char) -> bool {
    is_dir_char(c) || spec_is_digit(c)
}

/// The direction part scans cleanly from position `i`: two-character
/// diagonals, direction characters and digits only.
pub open spec fn dir_scan_valid(s: Seq<char>, i: int) -> bool
    decreases s.len() - i,
{
    if i >= s.len() || i < 0 {
        true
    } else if i + 1 < s.len() && diagonal_of(s[i], s[i + 1]) is Some {
        dir_scan_valid(s, i + 2)
    } else if is_dir_or_digit(s[i]) {
        dir_scan_valid(s, i + 1)
    } else {
        false
    }
}

/// A single direction string is valid: an optional `>` followed by digits
/// only, and a cleanly scanning direction part before it.
pub open spec fn direction_string_valid(s: Seq<char>) -> bool {
    match spec_find(s, '>') {
        Option::Some(p) => all_digits(s.skip(p + 1)) && dir_scan_valid(s.take(p), 0),
        Option::None => dir_scan_valid(s, 0),
    }
}

/// Checks one direction string, reporting the first offending character
/// or a malformed destination mode.
pub fn validate_direction_string(rule: &str) -> (r: Result<(), String>)
    ensures
        r is Ok <==> direction_string_valid(rule@),
{
    let v = str_to_chars(rule);
    validate_direction_chars(&v)
}

#[verifier::loop_isolation(false)]
fn validate_direction_chars(v: &Vec<char>) -> (r: Result<(), String>)
    ensures
        r is Ok <==> direction_string_valid(v@),
{
    let n = v.len();
    let dirs: Vec<char> = match find_char(v, '>') {
        Some(p) => {
            let after = sub_chars(v, p + 1, n);
            proof {
                assert(after@ =~= v@.skip(p + 1));
            }
            let m = after.len();
            let mut k: usize = 0;
            while k < m
                invariant
                    m == after@.len(),
                    k <= m,
                    forall|j: int| 0 <= j < k ==> spec_is_digit(#[trigger] after@[j]),
                decreases m - k,
            {
                let cu = after[k] as u32;
                if cu < 48 || cu > 57 {
                    proof {
                        assert(!all_digits(after@));
                    }
                    return Err("invalid state number in rule".to_owned());
                }
                k += 1;
            }
            sub_chars(v, 0, p)
        },
        None => sub_chars(v, 0, n),
    };
    proof {
        assert(v@.subrange(0, v@.len() as int) =~= v@);
        assert(match spec_find(v@, '>') {
            Option::Some(p) => dirs@ =~= v@.take(p),
            Option::None => dirs@ =~= v@,
        });
    }
    let dn = dirs.len();
    let mut i: usize = 0;
    while i < dn
        invariant
            dn == dirs@.len(),
            i <= dn,
            dir_scan_valid(dirs@, 0) == dir_scan_valid(dirs@, i as int),
        decreases dn - i,
    {
        if i + 1 < dn {
            let a = dirs[i];
            let b = dirs[i + 1];
            if (a == 'N' && b == 'W') || (a == 'N' && b == 'E') || (a == 'S' && b == 'W') || (a
                == 'S' && b == 'E') {
                i += 2;
                continue ;
            }
        }
        let c = dirs[i];
        let cu = c as u32;
        let ok = c == 'L' || c == 'R' || c == 'U' || c == 'D' || c == 'N' || c == 'S' || c == 'E'
            || c == 'W' || (48 <= cu && cu <= 57);
        if !ok {
            proof {
                assert(!is_dir_or_digit(dirs@[i as int]));
                assert(!dir_scan_valid(dirs@, i as int));
            }
            return Err("invalid character in rule".to_owned());
        }
        i += 1;
    }
    Ok(())
}

/// Whitespace removal as the brace-notation validator performs it: spaces
/// and newlines only.
pub open spec fn vsn_clean(s: Seq<char>) -> Seq<char> {
    s.filter(|c: char| c != ' ' && c != '\n')
}

/// Brace depth never goes negative and closes at zero.
pub open spec fn depth_scan(s: Seq<char>, i: int, depth: int) -> bool
    decreases s.len() - i,
{
    if i >= s.len() || i < 0 {
        depth == 0
    } else if s[i] == '{' {
        depth_scan(s, i + 1, depth + 1)
    } else if s[i] == '}' {
        depth - 1 >= 0 && depth_scan(s, i + 1, depth - 1)
    } else {
        depth_scan(s, i + 1, depth)
    }
}

/// The content of an innermost group starting behind its `{`, and the
/// position just past its closing `}`.
pub open spec fn group_collect(s: Seq<char>, j: int, depth: int, acc: Seq<char>) -> (Seq<
    char,
>, int)
    decreases s.len() - j,
{
    if j >= s.len() || j < 0 {
        (acc, j)
    } else {
        let d2 = if s[j] == '{' {
            depth + 1
        } else if s[j] == '}' {
            depth - 1
        } else {
            depth
        };
        if d2 > 0 {
            group_collect(s, j + 1, d2, acc.push(s[j]))
        } else {
            (acc, j + 1)
        }
    }
}

proof fn lemma_group_collect_advances(s: Seq<char>, j: int, depth: int, acc: Seq<char>)
    requires
        0 <= j,
    ensures
        group_collect(s, j, depth, acc).1 >= j,
        j < s.len() ==> group_collect(s, j, depth, acc).1 >= j + 1,
    decreases s.len() - j,
{
    if j < s.len() {
        let d2 = if s[j] == '{' {
            depth + 1
        } else if s[j] == '}' {
            depth - 1
        } else {
            depth
        };
        if d2 > 0 {
            lemma_group_collect_advances(s, j + 1, d2, acc.push(s[j]));
        }
    }
}

/// The fields of one `{symbol,flag,mode}` triplet are sound: a cell state
/// up to `255`, a turn flag of `1`, `2`, `4` or `8`, and a numeric mode.
pub open spec fn triplet_fields_ok(parts: Seq<Seq<char>>) -> bool {
    &&& match spec_parse_usize(parts[0]) {
        Option::Some(v) => v <= 255,
        Option::None => false,
    }
    &&& match spec_parse_usize(parts[1]) {
        Option::Some(f) => f == 1 || f == 2 || f == 4 || f == 8,
        Option::None => false,
    }
    &&& spec_parse_usize(parts[2]) is Some
}

/// A triplet checks out when it has three comma-separated fields and they
/// are sound; content of any other arity is not a triplet and passes.
pub open spec fn triplet_ok(content: Seq<char>) -> bool {
    let parts = spec_split_on(content, ',');
    parts.len() == 3 ==> triplet_fields_ok(parts)
}

/// Every innermost group that looks like a triplet has sound fields.
pub open spec fn triplets_scan(s: Seq<char>, i: int) -> bool
    decreases s.len() - i,
{
    if i >= s.len() || i < 0 {
        true
    } else if i + 2 < s.len() && s[i] == '{' && s[i + 1] != '{' {
        let g = group_collect(s, i + 1, 1, Seq::empty());
        let next = if i < g.1 && g.1 <= s.len() {
            g.1
        } else {
            i + 1
        };
        triplet_ok(g.0) && triplets_scan(s, next)
    } else {
        triplets_scan(s, i + 1)
    }
}

/// A brace-notation rule the validator accepts: wrapped in braces once
/// spaces and newlines are removed, braces balanced, every triplet group
/// sound.
pub open spec fn standard_notation_valid(s: Seq<char>) -> bool {
    let cl = vsn_clean(s);
    &&& cl.len() >= 1
    &&& cl[0] == '{'
    &&& cl.last() == '}'
    &&& depth_scan(cl, 0, 0)
    &&& triplets_scan(cl, 0)
}

/// Checks the inside of one brace-notation cell group.
pub fn validate_triplet(content: &Vec<char>) -> (r: Result<(), String>)
    ensures
        r is Ok <==> triplet_ok(content@),
{
    let parts = split_on(content, ',');
    if parts.len() != 3 {
        proof {
            assert(vecs_view(parts).len() == parts@.len());
        }
        return Ok(());
    }
    proof {
        assert(vecs_view(parts)[0] == parts@[0]@);
        assert(vecs_view(parts)[1] == parts@[1]@);
        assert(vecs_view(parts)[2] == parts@[2]@);
    }
    match parse_usize(&parts[0]) {
        Some(v) => {
            if v > 255 {
                return Err("cell state is out of range".to_owned());
            }
        },
        None => {
            return Err("invalid cell state".to_owned());
        },
    }
    match parse_usize(&parts[1]) {
        Some(f) => {
            if !(f == 1 || f == 2 || f == 4 || f == 8) {
                return Err("invalid turn direction: must be 1, 2, 4, or 8".to_owned());
            }
        },
        None => {
            return Err("invalid turn direction".to_owned());
        },
    }
    if parse_usize(&parts[2]).is_none() {
        return Err("invalid internal state".to_owned());
    }
    Ok(())
}

/// Checks a rule in brace notation: brace shape, balance, and every
/// triplet group.
#[verifier::loop_isolation(false)]
pub fn validate_standard_notation(rule: &str) -> (r: Result<(), String>)
    ensures
        r is Ok <==> standard_notation_valid(rule@),
{
    let v = str_to_chars(rule);
    let n0 = v.len();
    let mut cl: Vec<char> = Vec::new();
    let mut i: usize = 0;
    proof {
        assert(v@.take(0) =~= Seq::<char>::empty());
        reveal(Seq::filter);
    }
    while i < n0
        invariant
            i <= n0,
            cl@ == vsn_clean(v@.take(i as int)),
        decreases n0 - i,
    {
        let c = v[i];
        proof {
            let pred = |c: char| c != ' ' && c != '\n';
            assert(v@.take(i + 1) =~= v@.take(i as int) + seq![v@[i as int]]);
            Seq::<char>::filter_distributes_over_add(v@.take(i as int), seq![v@[i as int]], pred);
            reveal(Seq::filter);
            let single = seq![v@[i as int]];
            assert(single.drop_last() =~= Seq::<char>::empty());
            assert(Seq::<char>::empty().filter(pred) =~= Seq::<char>::empty());
            assert(single.filter(pred) == if pred(v@[i as int]) {
                Seq::<char>::empty().push(v@[i as int])
            } else {
                Seq::<char>::empty()
            });
        }
        if !(c == ' ' || c == '\n') {
            cl.push(c);
        }
        i += 1;
    }
    proof {
        assert(v@.take(n0 as int) =~= v@);
    }
    let n = cl.len();
    if n == 0 || cl[0] != '{' || cl[n - 1] != '}' {
        return Err("standard notation must start and end with braces".to_owned());
    }
    let mut depth: usize = 0;
    let mut i: usize = 0;
    while i < n
        invariant
            i <= n,
            depth <= i,
            depth_scan(cl@, 0, 0) == depth_scan(cl@, i as int, depth as int),
        decreases n - i,
    {
        let c = cl[i];
        if c == '{' {
            depth += 1;
        } else if c == '}' {
            if depth == 0 {
                return Err("unmatched closing brace".to_owned());
            }
            depth -= 1;
        }
        i += 1;
    }
    if depth != 0 {
        return Err("unmatched braces".to_owned());
    }
    let mut i: usize = 0;
    while i < n
        invariant
            i <= n,
            triplets_scan(cl@, 0) == triplets_scan(cl@, i as int),
        decreases n - i,
    {
        if n - i > 2 && cl[i] == '{' && cl[i + 1] != '{' {
            let mut j: usize = i + 1;
            let mut gdepth: usize = 1;
            let mut content: Vec<char> = Vec::new();
            let ghost g = group_collect(cl@, i + 1, 1, Seq::<char>::empty());
            proof {
                lemma_group_collect_advances(cl@, i + 1, 1, Seq::<char>::empty());
            }
            while j < n && gdepth > 0
                invariant
                    i + 1 <= j <= n,
                    gdepth <= j,
                    gdepth > 0 ==> g == group_collect(cl@, j as int, gdepth as int, content@),
                    gdepth == 0 ==> g == (content@, j as int),
                decreases n - j,
            {
                let c = cl[j];
                if c == '{' {
                    gdepth += 1;
                } else if c == '}' {
                    gdepth -= 1;
                }
                if gdepth > 0 {
                    content.push(c);
                }
                j += 1;
            }
            proof {
                assert(g == (content@, j as int));
                assert(g.1 > i);
            }
            if validate_triplet(&content).is_err() {
                return Err("invalid triplet".to_owned());
            }
            i = j;
            proof {
                assert(triplets_scan(cl@, g.1) == triplets_scan(cl@, i as int));
            }
        } else {
            i += 1;
        }
    }
    Ok(())
}

/// Every part of a `:`-separated segment list is a valid direction
/// string.
pub open spec fn parts_direction_valid(parts: Seq<Seq<char>>) -> bool {
    forall|i: int| 0 <= i < parts.len() ==> direction_string_valid(#[trigger] parts[i])
}

/// A rule string the validator accepts, whichever grammar its shape
/// selects. The empty rule is accepted; it requests a generated one.
pub open spec fn rule_string_valid(s: Seq<char>) -> bool {
    if s.len() == 0 {
        true
    } else if first_non_ws(s) == Option::Some('{') {
        standard_notation_valid(s)
    } else if s.contains(',') {
        forall|i: int|
            0 <= i < spec_split_on(s, ',').len() ==> (#[trigger] spec_split_on(s, ',')[i]).len()
                > 0 && parts_direction_valid(spec_split_on(spec_split_on(s, ',')[i], ':'))
    } else {
        forall|i: int|
            0 <= i < spec_split_on(s, ':').len() ==> (#[trigger] spec_split_on(s, ':')[i]).len()
                > 0 && direction_string_valid(spec_split_on(s, ':')[i])
    }
}

/// Checks a rule string against whichever grammar its shape selects.
#[verifier::loop_isolation(false)]
pub fn validate_rule_string(rule: &str) -> (r: Result<(), String>)
    ensures
        r is Ok <==> rule_string_valid(rule@),
{
    let v = str_to_chars(rule);
    if v.len() == 0 {
        return Ok(());
    }
    if crate::rules::starts_with_brace(&v) {
        return validate_standard_notation(rule);
    }
    if crate::chars::contains_char(&v, ',') {
        let combos = split_on(&v, ',');
        let nc = combos.len();
        let mut i: usize = 0;
        while i < nc
            invariant
                i <= nc,
                forall|j: int|
                    0 <= j < i ==> (#[trigger] vecs_view(combos)[j]).len() > 0
                        && parts_direction_valid(spec_split_on(vecs_view(combos)[j], ':')),
            decreases nc - i,
        {
            proof {
                assert(combos@[i as int]@ == vecs_view(combos)[i as int]);
            }
            if combos[i].len() == 0 {
                return Err("rule combination cannot be empty".to_owned());
            }
            let parts = split_on(&combos[i], ':');
            let np = parts.len();
            let mut k: usize = 0;
            while k < np
                invariant
                    i < nc,
                    k <= np,
                    forall|j: int|
                        0 <= j < k ==> direction_string_valid(#[trigger] vecs_view(parts)[j]),
                decreases np - k,
            {
                proof {
                    assert(parts@[k as int]@ == vecs_view(parts)[k as int]);
                }
                if validate_direction_chars(&parts[k]).is_err() {
                    return Err("invalid character in rule".to_owned());
                }
                k += 1;
            }
            i += 1;
        }
        return Ok(());
    }
    let parts = split_on(&v, ':');
    let np = parts.len();
    let mut i: usize = 0;
    while i < np
        invariant
            i <= np,
            forall|j: int|
                0 <= j < i ==> (#[trigger] vecs_view(parts)[j]).len() > 0 && direction_string_valid(
                    vecs_view(parts)[j],
                ),
        decreases np - i,
    {
        proof {
            assert(parts@[i as int]@ == vecs_view(parts)[i as int]);
        }
        if parts[i].len() == 0 {
            return Err("state rule cannot be empty".to_owned());
        }
        if validate_direction_chars(&parts[i]).is_err() {
            return Err("invalid character in rule".to_owned());
        }
        i += 1;
    }
    Ok(())
}

/// Every palette entry parses in one of the supported color formats.
pub open spec fn colors_valid(colors: Seq<String>) -> bool {
    forall|i: int| 0 <= i < colors.len() ==> spec_color_valid((#[trigger] colors[i])@)
}

/// Every glyph list entry is non-empty.
pub open spec fn glyphs_nonempty(glyphs: Seq<String>) -> bool {
    forall|i: int| 0 <= i < glyphs.len() ==> (#[trigger] glyphs[i])@.len() > 0
}

/// The bound key strings the validator checks, in order.
pub open spec fn control_keys(c: &Config) -> Seq<Seq<char>> {
    seq![
        c.controls.quit@,
        c.controls.toggle@,
        c.controls.reset@,
        c.controls.faster@,
        c.controls.slower@,
        c.controls.config_reload@,
        c.controls.help@,
        c.controls.statusbar@,
        c.controls.randomize_seed@,
        c.controls.randomize_rule@,
    ]
}

/// A configuration the validator accepts: a valid rule, exclusive glyph
/// modes, parsable colors, a head count within bounds, non-empty glyphs,
/// and non-empty, pairwise-distinct key bindings.
pub open spec fn config_valid(c: &Config) -> bool {
    &&& rule_string_valid(c.simulation.rule@)
    &&& !(c.display.direction_based_chars && c.display.randomize_heads)
    &&& !(c.display.direction_based_chars && c.display.randomize_trails)
    &&& colors_valid(c.display.colors@)
    &&& 1 <= c.simulation.heads <= 256
    &&& c.display.head_char@.len() > 0
    &&& glyphs_nonempty(c.display.head_char@)
    &&& c.display.trail_char@.len() > 0
    &&& glyphs_nonempty(c.display.trail_char@)
    &&& c.display.cell_char@.len() > 0
    &&& forall|i: int| 0 <= i < 10 ==> (#[trigger] control_keys(c)[i]).len() > 0
    &&& forall|i: int, j: int| 0 <= i < j < 10 ==> control_keys(c)[i] != control_keys(c)[j]
}

fn all_colors_valid(colors: &Vec<String>) -> (r: bool)
    ensures
        r == colors_valid(colors@),
{
    let n = colors.len();
    let mut i: usize = 0;
    while i < n
        invariant
            n == colors@.len(),
            i <= n,
            forall|j: int| 0 <= j < i ==> spec_color_valid((#[trigger] colors@[j])@),
        decreases n - i,
    {
        if validate_color(colors[i].as_str()).is_err() {
            return false;
        }
        i += 1;
    }
    true
}

fn all_glyphs_nonempty(glyphs: &Vec<String>) -> (r: bool)
    ensures
        r == glyphs_nonempty(glyphs@),
{
    let n = glyphs.len();
    let mut i: usize = 0;
    while i < n
        invariant
            n == glyphs@.len(),
            i <= n,
            forall|j: int| 0 <= j < i ==> (#[trigger] glyphs@[j])@.len() > 0,
        decreases n - i,
    {
        if glyphs[i].as_str().is_empty() {
            return false;
        }
        i += 1;
    }
    true
}

/// Checks a whole configuration, collecting one message per violation;
/// the list comes back in place of a single exception so the caller can
/// decide policy.
pub fn validate_config(config: &Config) -> (r: Result<(), Vec<String>>)
    ensures
        r is Ok <==> config_valid(config),
        r is Err ==> r->Err_0@.len() > 0,
{
    let mut errors: Vec<String> = Vec::new();
    let rule_ok = validate_rule_string(config.simulation.rule.as_str()).is_ok();
    if !rule_ok {
        errors.push("simulation.rule: invalid rule string".to_owned());
    }
    let modes_heads_ok = !(config.display.direction_based_chars && config.display.randomize_heads);
    if !modes_heads_ok {
        errors.push(
            "display: only one of direction_based_chars or randomize_heads can be true".to_owned(),
        );
    }
    let modes_trails_ok = !(config.display.direction_based_chars
        && config.display.randomize_trails);
    if !modes_trails_ok {
        errors.push(
            "display: only one of direction_based_chars or randomize_trails can be true".to_owned(),
        );
    }
    let colors_ok = all_colors_valid(&config.display.colors);
    if !colors_ok {
        errors.push("display.colors: invalid color format".to_owned());
    }
    let heads_ok = 1 <= config.simulation.heads && config.simulation.heads <= 256;
    if !heads_ok {
        errors.push("simulation.heads: must be between 1 and 256".to_owned());
    }
    let head_char_ok = config.display.head_char.len() > 0 && all_glyphs_nonempty(
        &config.display.head_char,
    );
    if !head_char_ok {
        errors.push(
            "display.head_char: cannot be empty or contain empty strings".to_owned(),
        );
    }
    let trail_char_ok = config.display.trail_char.len() > 0 && all_glyphs_nonempty(
        &config.display.trail_char,
    );
    if !trail_char_ok {
        errors.push(
            "display.trail_char: cannot be empty or contain empty strings".to_owned(),
        );
    }
    let cell_char_ok = !config.display.cell_char.as_str().is_empty();
    if !cell_char_ok {
        errors.push("display.cell_char: cannot be empty".to_owned());
    }
    let mut keys: Vec<&String> = Vec::new();
    keys.push(&config.controls.quit);
    keys.push(&config.controls.toggle);
    keys.push(&config.controls.reset);
    keys.push(&config.controls.faster);
    keys.push(&config.controls.slower);
    keys.push(&config.controls.config_reload);
    keys.push(&config.controls.help);
    keys.push(&config.controls.statusbar);
    keys.push(&config.controls.randomize_seed);
    keys.push(&config.controls.randomize_rule);
    proof {
        assert(forall|i: int| 0 <= i < 10 ==> #[trigger] keys@[i]@ == control_keys(config)[i]);
    }
    let mut keys_ok = true;
    let mut i: usize = 0;
    while i < 10
        invariant
            keys@.len() == 10,
            forall|k: int| 0 <= k < 10 ==> #[trigger] keys@[k]@ == control_keys(config)[k],
            i <= 10,
            keys_ok == (forall|k: int|
                0 <= k < i ==> (#[trigger] control_keys(config)[k]).len() > 0),
        decreases 10 - i,
    {
        if keys[i].as_str().is_empty() {
            keys_ok = false;
        }
        i += 1;
    }
    if !keys_ok {
        errors.push("controls: key binding cannot be empty".to_owned());
    }
    let mut distinct_ok = true;
    let mut i: usize = 0;
    while i < 10
        invariant
            keys@.len() == 10,
            forall|k: int| 0 <= k < 10 ==> #[trigger] keys@[k]@ == control_keys(config)[k],
            i <= 10,
            distinct_ok == (forall|a: int, b: int|
                0 <= a < b < 10 && a < i ==> control_keys(config)[a] != control_keys(config)[b]),
        decreases 10 - i,
    {
        let mut j: usize = i + 1;
        while j < 10
            invariant
                keys@.len() == 10,
                forall|k: int| 0 <= k < 10 ==> #[trigger] keys@[k]@ == control_keys(config)[k],
                i < j <= 10,
                distinct_ok == (forall|a: int, b: int|
                    0 <= a < b < 10 && (a < i || (a == i && b < j)) ==> control_keys(config)[a]
                        != control_keys(config)[b]),
            decreases 10 - j,
        {
            if keys[i].eq(keys[j]) {
                distinct_ok = false;
            }
            j += 1;
        }
        i += 1;
    }
    if !distinct_ok {
        errors.push("controls: duplicate key binding".to_owned());
    }
    if errors.len() == 0 {
        Ok(())
    } else {
        Err(errors)
    }
}

} // verus!
