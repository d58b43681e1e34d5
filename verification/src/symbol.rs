//! The cell-symbol alphabet: a small integer index with a canonical
//! printable rendering.

use vstd::prelude::*;

verus! {

/// Canonical rendering of a symbol index: `0..26` maps to `'A'..='Z'`,
/// `26..52` to `'a'..='z'`, anything larger to the sentinel `'?'`.
pub open spec fn spec_index_to_symbol(index: int) -> char {
    if 0 <= index < 26 {
        ((65 + index) as u8) as char
    } else if 26 <= index < 52 {
        ((97 + (index - 26)) as u8) as char
    } else {
        '?'
    }
}

/// Renders a symbol index as its canonical character.
pub fn index_to_symbol(index: usize) -> (c: char)
    ensures
        c == spec_index_to_symbol(index as int),
{
    if index < 26 {
        (65 + index as u8) as char
    } else if index < 52 {
        (97 + (index - 26) as u8) as char
    } else {
        '?'
    }
}

} // verus!
