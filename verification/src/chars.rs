//! Character-level utilities shared by the rule compiler and the validator:
//! conversion of strings to character vectors, whitespace stripping,
//! splitting, and decimal parsing.

use vstd::prelude::*;

verus! {

/// Whitespace as far as rule strings are concerned.
pub open spec fn spec_is_ws(c: char) -> bool {
    c == ' ' || c == '\t' || c == '\n' || c == '\r'
}

pub open spec fn spec_is_digit(c: char) -> bool {
    48 <= c as u32 <= 57
}

pub open spec fn digit_val(c: char) -> int {
    c as u32 - 48
}

pub open spec fn all_digits(s: Seq<char>) -> bool {
    forall|i: int| 0 <= i < s.len() ==> spec_is_digit(#[trigger] s[i])
}

/// Value of a digit string read in base ten.
pub open spec fn digits_value(s: Seq<char>) -> int
    decreases s.len(),
{
    if s.len() == 0 {
        0
    } else {
        digits_value(s.drop_last()) * 10 + digit_val(s.last())
    }
}

/// What `str::parse::<usize>` returns on `s`: the base-ten value when `s` is
/// one or more digits and the value fits, nothing otherwise.
pub open spec fn spec_parse_usize(s: Seq<char>) -> Option<usize> {
    if s.len() == 0 || !all_digits(s) || digits_value(s) > usize::MAX {
        Option::None
    } else {
        Option::Some(digits_value(s) as usize)
    }
}

proof fn lemma_digits_nonneg(s: Seq<char>)
    requires
        all_digits(s),
    ensures
        digits_value(s) >= 0,
    decreases s.len(),
{
    if s.len() > 0 {
        assert(all_digits(s.drop_last())) by {
            assert(forall|i: int| 0 <= i < s.len() - 1 ==> s.drop_last()[i] == s[i]);
        }
        lemma_digits_nonneg(s.drop_last());
    }
}

proof fn lemma_digits_monotone(s: Seq<char>, i: int)
    requires
        all_digits(s),
        0 <= i <= s.len(),
    ensures
        digits_value(s) >= digits_value(s.take(i)),
    decreases s.len() - i,
{
    if i == s.len() {
        assert(s.take(i) =~= s);
    } else {
        lemma_digits_monotone(s, i + 1);
        assert(s.take(i + 1).drop_last() =~= s.take(i));
        assert(s.take(i + 1).last() == s[i]);
        assert(all_digits(s.take(i))) by {
            assert(forall|j: int| 0 <= j < i ==> s.take(i)[j] == s[j]);
        }
        lemma_digits_nonneg(s.take(i));
        assert(digits_value(s.take(i + 1)) == digits_value(s.take(i)) * 10 + digit_val(s[i]));
        assert(digit_val(s[i]) >= 0);
        assert(digits_value(s.take(i)) * 10 >= digits_value(s.take(i))) by (nonlinear_arith)
            requires
                digits_value(s.take(i)) >= 0,
        ;
    }
}

/// The characters of `s`, in order.
pub fn str_to_chars(s: &str) -> (v: Vec<char>)
    ensures
        v@ == s@,
{
    let n = s.unicode_len();
    let mut v: Vec<char> = Vec::new();
    let mut i: usize = 0;
    while i < n
        invariant
            n == s@.len(),
            i <= n,
            v@ == s@.take(i as int),
        decreases n - i,
    {
        let c = s.get_char(i);
        v.push(c);
        proof {
            assert(v@ =~= s@.take(i + 1));
        }
        i += 1;
    }
    proof {
        assert(v@ =~= s@);
    }
    v
}

/// `s` with every whitespace character removed.
pub open spec fn strip_ws(s: Seq<char>) -> Seq<char> {
    s.filter(|c: char| !spec_is_ws(c))
}

pub fn remove_whitespace(v: &Vec<char>) -> (r: Vec<char>)
    ensures
        r@ == strip_ws(v@),
{
    broadcast use vstd::seq_lib::group_seq_lib_default;

    let mut r: Vec<char> = Vec::new();
    let n = v.len();
    let mut i: usize = 0;
    proof {
        assert(v@.take(0) =~= Seq::<char>::empty());
        reveal(Seq::filter);
    }
    while i < n
        invariant
            n == v@.len(),
            i <= n,
            r@ == strip_ws(v@.take(i as int)),
        decreases n - i,
    {
        let c = v[i];
        proof {
            let pred = |c: char| !spec_is_ws(c);
            assert(v@.take(i + 1) =~= v@.take(i as int) + seq![v@[i as int]]);
            Seq::<char>::filter_distributes_over_add(v@.take(i as int), seq![v@[i as int]], pred);
            reveal(Seq::filter);
            let single = seq![v@[i as int]];
            assert(single.drop_last() =~= Seq::<char>::empty());
            assert(Seq::<char>::empty().filter(pred) =~= Seq::<char>::empty());
            assert(single.filter(pred) == if pred(v@[i as int]) {
                Seq::<char>::empty().push(v@[i as int])
            } else {
                Seq::<char>::empty()
            });
            assert(strip_ws(v@.take(i + 1)) == strip_ws(v@.take(i as int)) + single.filter(pred));
        }
        if !(c == ' ' || c == '\t' || c == '\n' || c == '\r') {
            r.push(c);
        }
        i += 1;
    }
    proof {
        assert(v@.take(n as int) =~= v@);
    }
    r
}

pub open spec fn trim_front(s: Seq<char>) -> Seq<char>
    decreases s.len(),
{
    if s.len() > 0 && spec_is_ws(s[0]) {
        trim_front(s.drop_first())
    } else {
        s
    }
}

pub open spec fn trim_back(s: Seq<char>) -> Seq<char>
    decreases s.len(),
{
    if s.len() > 0 && spec_is_ws(s.last()) {
        trim_back(s.drop_last())
    } else {
        s
    }
}

/// `s` without leading and trailing whitespace: what `str::trim` leaves.
pub open spec fn spec_trim(s: Seq<char>) -> Seq<char> {
    trim_back(trim_front(s))
}

/// Removes leading and trailing whitespace.
pub fn trim_chars(v: &Vec<char>) -> (r: Vec<char>)
    ensures
        r@ == spec_trim(v@),
{
    let n = v.len();
    let mut a: usize = 0;
    proof {
        assert(v@.skip(0) =~= v@);
    }
    while a < n && (v[a] == ' ' || v[a] == '\t' || v[a] == '\n' || v[a] == '\r')
        invariant
            n == v@.len(),
            a <= n,
            trim_front(v@) == trim_front(v@.skip(a as int)),
        decreases n - a,
    {
        proof {
            assert(v@.skip(a as int)[0] == v@[a as int]);
            assert(v@.skip(a as int).drop_first() =~= v@.skip(a + 1));
        }
        a += 1;
    }
    proof {
        if a < n {
            assert(v@.skip(a as int)[0] == v@[a as int]);
        }
        assert(trim_front(v@) == v@.skip(a as int));
    }
    let mut b: usize = n;
    proof {
        assert(v@.subrange(a as int, n as int) =~= v@.skip(a as int));
    }
    while b > a && (v[b - 1] == ' ' || v[b - 1] == '\t' || v[b - 1] == '\n' || v[b - 1] == '\r')
        invariant
            n == v@.len(),
            a <= b <= n,
            trim_back(v@.skip(a as int)) == trim_back(v@.subrange(a as int, b as int)),
        decreases b,
    {
        proof {
            assert(v@.subrange(a as int, b as int).last() == v@[b - 1]);
            assert(v@.subrange(a as int, b as int).drop_last() =~= v@.subrange(a as int, b - 1));
        }
        b -= 1;
    }
    proof {
        if b > a {
            assert(v@.subrange(a as int, b as int).last() == v@[b - 1]);
        }
        assert(trim_back(v@.subrange(a as int, b as int)) == v@.subrange(a as int, b as int));
    }
    sub_chars(v, a, b)
}

/// A copy of `v[from..to]`.
pub fn sub_chars(v: &Vec<char>, from: usize, to: usize) -> (r: Vec<char>)
    requires
        from <= to <= v@.len(),
    ensures
        r@ == v@.subrange(from as int, to as int),
{
    let mut r: Vec<char> = Vec::new();
    let mut i: usize = from;
    while i < to
        invariant
            from <= i <= to <= v@.len(),
            r@ == v@.subrange(from as int, i as int),
        decreases to - i,
    {
        r.push(v[i]);
        proof {
            assert(v@.subrange(from as int, i + 1) =~= v@.subrange(from as int, i as int)
                + seq![v@[i as int]]);
        }
        i += 1;
    }
    r
}

pub fn contains_char(v: &Vec<char>, c: char) -> (r: bool)
    ensures
        r == v@.contains(c),
{
    let n = v.len();
    let mut i: usize = 0;
    while i < n
        invariant
            n == v@.len(),
            i <= n,
            forall|j: int| 0 <= j < i ==> v@[j] != c,
        decreases n - i,
    {
        if v[i] == c {
            return true;
        }
        i += 1;
    }
    false
}

/// First index of `c` in `v`, if any: what `str::find` reports.
pub open spec fn spec_find(s: Seq<char>, c: char) -> Option<int>
    decreases s.len(),
{
    if s.len() == 0 {
        Option::None
    } else if s[0] == c {
        Option::Some(0)
    } else {
        match spec_find(s.drop_first(), c) {
            Option::Some(i) => Option::Some(i + 1),
            Option::None => Option::None,
        }
    }
}

proof fn lemma_find_from(s: Seq<char>, c: char, i: int)
    requires
        0 <= i <= s.len(),
        forall|j: int| 0 <= j < i ==> s[j] != c,
    ensures
        spec_find(s, c) == match spec_find(s.skip(i), c) {
            Option::Some(k) => Option::Some(k + i),
            Option::None => Option::None::<int>,
        },
    decreases i,
{
    if i > 0 {
        lemma_find_from(s, c, i - 1);
        assert(s.skip(i - 1).len() > 0);
        assert(s.skip(i - 1)[0] == s[i - 1]);
        assert(s.skip(i - 1).drop_first() =~= s.skip(i));
    } else {
        assert(s.skip(0) =~= s);
    }
}

pub fn find_char(v: &Vec<char>, c: char) -> (r: Option<usize>)
    ensures
        match r {
            Some(i) => spec_find(v@, c) == Option::Some(i as int) && i < v@.len() && v@[i as int]
                == c,
            None => spec_find(v@, c) == Option::None::<int>,
        },
{
    let n = v.len();
    let mut i: usize = 0;
    while i < n
        invariant
            n == v@.len(),
            i <= n,
            forall|j: int| 0 <= j < i ==> v@[j] != c,
        decreases n - i,
    {
        if v[i] == c {
            proof {
                lemma_find_from(v@, c, i as int);
                assert(v@.skip(i as int)[0] == c);
            }
            return Some(i);
        }
        i += 1;
    }
    proof {
        lemma_find_from(v@, c, n as int);
        assert(v@.skip(n as int).len() == 0);
    }
    None
}

pub open spec fn split_from(s: Seq<char>, sep: char, start: int, cur: int) -> Seq<Seq<char>>
    decreases s.len() - cur,
{
    if cur >= s.len() || cur < 0 || start < 0 || start > cur {
        seq![s.subrange(start, s.len() as int)]
    } else if s[cur] == sep {
        seq![s.subrange(start, cur)] + split_from(s, sep, cur + 1, cur + 1)
    } else {
        split_from(s, sep, start, cur + 1)
    }
}

/// The segments of `s` between occurrences of `sep`, empty segments kept:
/// what `str::split` yields.
pub open spec fn spec_split_on(s: Seq<char>, sep: char) -> Seq<Seq<char>> {
    split_from(s, sep, 0, 0)
}

/// The character sequences held by a vector of character vectors.
pub open spec fn vecs_view(r: Vec<Vec<char>>) -> Seq<Seq<char>> {
    Seq::new(r@.len(), |i: int| r@[i]@)
}

/// Splits on every occurrence of `sep`, keeping empty segments.
pub fn split_on(v: &Vec<char>, sep: char) -> (r: Vec<Vec<char>>)
    ensures
        vecs_view(r) == spec_split_on(v@, sep),
        r@.len() >= 1,
{
    let n = v.len();
    let mut acc: Vec<Vec<char>> = Vec::new();
    let mut cur: Vec<char> = Vec::new();
    let mut start: usize = 0;
    let mut i: usize = 0;
    proof {
        assert(cur@ =~= v@.subrange(0, 0));
        assert(vecs_view(acc) =~= Seq::<Seq<char>>::empty());
    }
    while i < n
        invariant
            n == v@.len(),
            0 <= start <= i <= n,
            cur@ == v@.subrange(start as int, i as int),
            spec_split_on(v@, sep) == vecs_view(acc) + split_from(v@, sep, start as int, i as int),
        decreases n - i,
    {
        let c = v[i];
        if c == sep {
            proof {
                assert(split_from(v@, sep, start as int, i as int) == seq![
                    v@.subrange(start as int, i as int),
                ] + split_from(v@, sep, i + 1, i + 1));
            }
            let ghost pre = vecs_view(acc);
            let ghost seg = cur@;
            acc.push(cur);
            cur = Vec::new();
            proof {
                assert(vecs_view(acc) =~= pre.push(seg));
                assert(pre + (seq![seg] + split_from(v@, sep, i + 1, i + 1)) =~= pre.push(seg)
                    + split_from(v@, sep, i + 1, i + 1));
            }
            start = i + 1;
            i += 1;
            proof {
                assert(cur@ =~= v@.subrange(start as int, i as int));
            }
        } else {
            proof {
                assert(split_from(v@, sep, start as int, i as int) == split_from(
                    v@,
                    sep,
                    start as int,
                    i + 1,
                ));
                assert(v@.subrange(start as int, i + 1) =~= v@.subrange(start as int, i as int)
                    + seq![v@[i as int]]);
            }
            cur.push(c);
            i += 1;
        }
    }
    proof {
        assert(split_from(v@, sep, start as int, n as int) == seq![
            v@.subrange(start as int, n as int),
        ]);
    }
    let ghost pre = vecs_view(acc);
    let ghost seg = cur@;
    acc.push(cur);
    proof {
        assert(vecs_view(acc) =~= pre.push(seg));
        assert(pre + seq![seg] =~= pre.push(seg));
    }
    acc
}

pub open spec fn split_top_from(
    s: Seq<char>,
    i: int,
    depth: int,
    cur: Seq<char>,
    acc: Seq<Seq<char>>,
) -> Option<Seq<Seq<char>>>
    decreases s.len() - i,
{
    if i >= s.len() || i < 0 {
        if depth != 0 {
            Option::None
        } else if cur.len() > 0 {
            Option::Some(acc.push(cur))
        } else {
            Option::Some(acc)
        }
    } else if s[i] == '{' {
        split_top_from(s, i + 1, depth + 1, cur.push('{'), acc)
    } else if s[i] == '}' {
        if depth <= 0 {
            Option::None
        } else {
            split_top_from(s, i + 1, depth - 1, cur.push('}'), acc)
        }
    } else if s[i] == ',' && depth == 0 {
        split_top_from(
            s,
            i + 1,
            0,
            Seq::empty(),
            if cur.len() > 0 {
                acc.push(cur)
            } else {
                acc
            },
        )
    } else {
        split_top_from(s, i + 1, depth, cur.push(s[i]), acc)
    }
}

/// The non-empty segments of `s` between commas that sit outside braces,
/// or nothing when braces are unbalanced.
pub open spec fn spec_split_top(s: Seq<char>) -> Option<Seq<Seq<char>>> {
    split_top_from(s, 0, 0, Seq::empty(), Seq::empty())
}

/// Splits on commas at brace depth zero, dropping empty segments; reports
/// unbalanced braces as `None`.
pub fn split_by_top_level_comma(v: &Vec<char>) -> (r: Option<Vec<Vec<char>>>)
    ensures
        match r {
            Some(parts) => spec_split_top(v@) == Option::Some(vecs_view(parts)),
            None => spec_split_top(v@) == Option::None::<Seq<Seq<char>>>,
        },
{
    let n = v.len();
    let mut acc: Vec<Vec<char>> = Vec::new();
    let mut cur: Vec<char> = Vec::new();
    let mut depth: usize = 0;
    let mut i: usize = 0;
    proof {
        assert(cur@ =~= Seq::<char>::empty());
        assert(vecs_view(acc) =~= Seq::<Seq<char>>::empty());
    }
    while i < n
        invariant
            n == v@.len(),
            i <= n,
            depth <= i,
            spec_split_top(v@) == split_top_from(v@, i as int, depth as int, cur@, vecs_view(acc)),
        decreases n - i,
    {
        let c = v[i];
        if c == '{' {
            depth += 1;
            cur.push(c);
        } else if c == '}' {
            if depth == 0 {
                return None;
            }
            depth -= 1;
            cur.push(c);
        } else if c == ',' && depth == 0 {
            if cur.len() > 0 {
                let ghost pre = vecs_view(acc);
                let ghost seg = cur@;
                let done = cur;
                acc.push(done);
                proof {
                    assert(vecs_view(acc) =~= pre.push(seg));
                }
            }
            cur = Vec::new();
            proof {
                assert(cur@ =~= Seq::<char>::empty());
            }
        } else {
            cur.push(c);
        }
        i += 1;
    }
    if depth != 0 {
        return None;
    }
    if cur.len() > 0 {
        let ghost pre = vecs_view(acc);
        let ghost seg = cur@;
        acc.push(cur);
        proof {
            assert(vecs_view(acc) =~= pre.push(seg));
        }
        return Some(acc);
    }
    Some(acc)
}

/// Relies on `String`'s `FromIterator` of `char`: collecting characters
/// builds the string of exactly those characters, in order.
#[verifier::external_body]
pub fn chars_to_string(v: &Vec<char>) -> (r: String)
    ensures
        r@ == v@,
{
    v.iter().collect()
}

/// Parses a decimal `usize` exactly as `str::parse::<usize>` does.
pub fn parse_usize(v: &Vec<char>) -> (r: Option<usize>)
    ensures
        r == spec_parse_usize(v@),
{
    let n = v.len();
    if n == 0 {
        return None;
    }
    let mut acc: u128 = 0;
    let mut i: usize = 0;
    while i < n
        invariant
            n == v@.len(),
            i <= n,
            all_digits(v@.take(i as int)),
            acc == digits_value(v@.take(i as int)),
            acc <= usize::MAX,
        decreases n - i,
    {
        let c = v[i];
        let cu = c as u32;
        if cu < 48 || cu > 57 {
            return None;
        }
        proof {
            assert(v@.take(i + 1).drop_last() =~= v@.take(i as int));
            assert(v@.take(i + 1).last() == v@[i as int]);
        }
        acc = acc * 10 + (cu - 48) as u128;
        i += 1;
        if acc > usize::MAX as u128 {
            proof {
                if all_digits(v@) {
                    lemma_digits_monotone(v@, i as int);
                }
            }
            return None;
        }
    }
    proof {
        assert(v@.take(n as int) =~= v@);
    }
    Some(acc as usize)
}

} // verus!
