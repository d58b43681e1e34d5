//! Colors as the simulation carries them: a parsed, plain representation of
//! the palette strings a configuration supplies.

use vstd::prelude::*;
use crate::chars::{
    str_to_chars, sub_chars, split_on, parse_usize, trim_chars, spec_parse_usize, spec_split_on,
    spec_trim, spec_is_digit, vecs_view,
};

verus! {

/// A terminal color: true color, a 256-color palette index, or the default
/// white used for unparsable palette entries.
#[derive(Clone, Copy, Debug, PartialEq, Eq, Structural)]
pub enum ColorValue {
    Rgb(u8, u8, u8),
    Indexed(u8),
    White,
}

/// What `str::parse::<u8>` returns on `s`.
pub open spec fn spec_parse_u8(s: Seq<char>) -> Option<u8> {
    match spec_parse_usize(s) {
        Option::Some(v) => if v <= 255 {
            Option::Some(v as u8)
        } else {
            Option::None
        },
        Option::None => Option::None,
    }
}

pub open spec fn spec_is_hex_digit(c: char) -> bool {
    spec_is_digit(c) || (97 <= c as u32 <= 102) || (65 <= c as u32 <= 70)
}

pub open spec fn hex_val(c: char) -> int {
    if spec_is_digit(c) {
        c as u32 - 48
    } else if 97 <= c as u32 <= 102 {
        c as u32 - 87
    } else {
        c as u32 - 55
    }
}

/// Byte value of two hex digits.
pub open spec fn hex_byte(a: char, b: char) -> int {
    hex_val(a) * 16 + hex_val(b)
}

/// A `#RRGGBB` string: seven characters, all six after `#` hex digits.
pub open spec fn is_hex_color(s: Seq<char>) -> bool {
    s.len() == 7 && s[0] == '#' && forall|i: int| 1 <= i < 7 ==> spec_is_hex_digit(#[trigger] s[i])
}

/// Shaped like `rgb(...)`.
pub open spec fn is_rgb_shape(s: Seq<char>) -> bool {
    s.len() >= 5 && s[0] == 'r' && s[1] == 'g' && s[2] == 'b' && s[3] == '(' && s.last() == ')'
}

/// The comma-separated components inside `rgb(...)`, trimmed.
pub open spec fn rgb_parts(s: Seq<char>) -> Seq<Seq<char>> {
    spec_split_on(s.subrange(4, s.len() - 1), ',').map_values(|p: Seq<char>| spec_trim(p))
}

/// The three byte components of an `rgb(r,g,b)` string, when all parse.
pub open spec fn rgb_values(s: Seq<char>) -> Option<(u8, u8, u8)> {
    let ps = rgb_parts(s);
    if ps.len() != 3 {
        Option::None
    } else {
        match (spec_parse_u8(ps[0]), spec_parse_u8(ps[1]), spec_parse_u8(ps[2])) {
            (Option::Some(r), Option::Some(g), Option::Some(b)) => Option::Some((r, g, b)),
            _ => Option::None,
        }
    }
}

/// Color denoted by a palette string: hex, `rgb(...)`, a bare palette
/// index, or white for anything else.
pub open spec fn spec_parse_color(s: Seq<char>) -> ColorValue {
    if is_hex_color(s) {
        ColorValue::Rgb(
            hex_byte(s[1], s[2]) as u8,
            hex_byte(s[3], s[4]) as u8,
            hex_byte(s[5], s[6]) as u8,
        )
    } else if is_rgb_shape(s) && rgb_values(s) is Some {
        let rgb = rgb_values(s)->0;
        ColorValue::Rgb(rgb.0, rgb.1, rgb.2)
    } else {
        match spec_parse_u8(s) {
            Option::Some(v) => ColorValue::Indexed(v),
            Option::None => ColorValue::White,
        }
    }
}

/// A palette string the validator accepts: `#RRGGBB` whenever it starts with
/// `#` and has seven characters, else well-formed `rgb(r,g,b)`, else a bare
/// palette index.
pub open spec fn spec_color_valid(s: Seq<char>) -> bool {
    if s.len() == 7 && s[0] == '#' {
        is_hex_color(s)
    } else if is_rgb_shape(s) {
        rgb_values(s) is Some
    } else {
        spec_parse_u8(s) is Some
    }
}

/// Parses a decimal byte exactly as `str::parse::<u8>` does.
pub fn parse_u8(v: &Vec<char>) -> (r: Option<u8>)
    ensures
        r == spec_parse_u8(v@),
{
    match parse_usize(v) {
        Some(x) => if x <= 255 {
            Some(x as u8)
        } else {
            None
        },
        None => None,
    }
}

fn hex_digit_val(c: char) -> (r: Option<u8>)
    ensures
        match r {
            Some(v) => spec_is_hex_digit(c) && v == hex_val(c),
            None => !spec_is_hex_digit(c),
        },
{
    let cu = c as u32;
    if 48 <= cu && cu <= 57 {
        Some((cu - 48) as u8)
    } else if 97 <= cu && cu <= 102 {
        Some((cu - 87) as u8)
    } else if 65 <= cu && cu <= 70 {
        Some((cu - 55) as u8)
    } else {
        None
    }
}

/// Interprets a palette color string; anything unparsable is white.
pub fn parse_color(color_str: &str) -> (r: ColorValue)
    ensures
        r == spec_parse_color(color_str@),
{
    let v = str_to_chars(color_str);
    let n = v.len();
    if n == 7 && v[0] == '#' {
        let d1 = hex_digit_val(v[1]);
        let d2 = hex_digit_val(v[2]);
        let d3 = hex_digit_val(v[3]);
        let d4 = hex_digit_val(v[4]);
        let d5 = hex_digit_val(v[5]);
        let d6 = hex_digit_val(v[6]);
        match (d1, d2, d3, d4, d5, d6) {
            (Some(a), Some(b), Some(c), Some(d), Some(e), Some(f)) => {
                proof {
                    assert(is_hex_color(v@)) by {
                        assert(spec_is_hex_digit(v@[1]) && spec_is_hex_digit(v@[2])
                            && spec_is_hex_digit(v@[3]) && spec_is_hex_digit(v@[4])
                            && spec_is_hex_digit(v@[5]) && spec_is_hex_digit(v@[6]));
                    }
                }
                return ColorValue::Rgb(a * 16 + b, c * 16 + d, e * 16 + f);
            },
            _ => {
                return ColorValue::White;
            },
        }
    }
    if n >= 5 && v[0] == 'r' && v[1] == 'g' && v[2] == 'b' && v[3] == '(' && v[n - 1] == ')' {
        let inner = sub_chars(&v, 4, n - 1);
        let parts = split_on(&inner, ',');
        if parts.len() == 3 {
            let p0 = trim_chars(&parts[0]);
            let p1 = trim_chars(&parts[1]);
            let p2 = trim_chars(&parts[2]);
            proof {
                assert(rgb_parts(v@) =~= vecs_view(parts).map_values(|p: Seq<char>| spec_trim(p)));
                assert(rgb_parts(v@)[0] == spec_trim(vecs_view(parts)[0]));
                assert(rgb_parts(v@)[1] == spec_trim(vecs_view(parts)[1]));
                assert(rgb_parts(v@)[2] == spec_trim(vecs_view(parts)[2]));
            }
            match (parse_u8(&p0), parse_u8(&p1), parse_u8(&p2)) {
                (Some(r), Some(g), Some(b)) => {
                    return ColorValue::Rgb(r, g, b);
                },
                _ => {
                    return ColorValue::White;
                },
            }
        } else {
            proof {
                assert(rgb_parts(v@).len() == vecs_view(parts).len());
            }
            return ColorValue::White;
        }
    }
    match parse_u8(&v) {
        Some(idx) => ColorValue::Indexed(idx),
        None => ColorValue::White,
    }
}

/// Checks a palette string, reporting the format that failed.
pub fn validate_color(color_str: &str) -> (r: Result<(), String>)
    ensures
        r is Ok <==> spec_color_valid(color_str@),
{
    let v = str_to_chars(color_str);
    let n = v.len();
    if n == 7 && v[0] == '#' {
        let mut i: usize = 1;
        while i < 7
            invariant
                v@ == color_str@,
                v@.len() == 7,
                v@[0] == '#',
                1 <= i <= 7,
                forall|j: int| 1 <= j < i ==> spec_is_hex_digit(#[trigger] v@[j]),
            decreases 7 - i,
        {
            if hex_digit_val(v[i]).is_none() {
                proof {
                    assert(!spec_is_hex_digit(v@[i as int]));
                    assert(!is_hex_color(v@));
                }
                return Err("invalid hex color format".to_owned());
            }
            i += 1;
        }
        return Ok(());
    }
    if n >= 5 && v[0] == 'r' && v[1] == 'g' && v[2] == 'b' && v[3] == '(' && v[n - 1] == ')' {
        let inner = sub_chars(&v, 4, n - 1);
        let parts = split_on(&inner, ',');
        if parts.len() != 3 {
            proof {
                assert(rgb_parts(v@).len() == vecs_view(parts).len());
            }
            return Err("RGB format must have 3 components".to_owned());
        }
        let p0 = trim_chars(&parts[0]);
        let p1 = trim_chars(&parts[1]);
        let p2 = trim_chars(&parts[2]);
        proof {
            assert(rgb_parts(v@) =~= vecs_view(parts).map_values(|p: Seq<char>| spec_trim(p)));
            assert(rgb_parts(v@)[0] == spec_trim(vecs_view(parts)[0]));
            assert(rgb_parts(v@)[1] == spec_trim(vecs_view(parts)[1]));
            assert(rgb_parts(v@)[2] == spec_trim(vecs_view(parts)[2]));
        }
        match (parse_u8(&p0), parse_u8(&p1), parse_u8(&p2)) {
            (Some(_), Some(_), Some(_)) => {
                return Ok(());
            },
            _ => {
                return Err("invalid RGB component".to_owned());
            },
        }
    }
    if parse_u8(&v).is_some() {
        return Ok(());
    }
    Err("invalid color format: supported formats are #RRGGBB, rgb(r,g,b), or 0-255".to_owned())
}

} // verus!
