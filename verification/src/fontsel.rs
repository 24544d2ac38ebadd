//! The font rule: which configured font family one character takes.

use vstd::prelude::*;
use crate::model::{font_choice, is_cjk_punct, is_digit_char, is_latin_like};
use crate::sampler::Sampler;

verus! {

/// Whether `c` belongs to the fixed CJK punctuation set.
pub fn cjk_punct(c: char) -> (r: bool)
    ensures
        r == is_cjk_punct(c),
{
    c == '\u{3002}' || c == '\u{ff0c}' || c == '\u{3001}' || c == '\u{ff1b}' || c == '\u{ff1a}'
        || c == '\u{ff01}' || c == '\u{ff1f}' || c == '\u{2018}' || c == '\u{2019}'
        || c == '\u{201c}' || c == '\u{201d}' || c == '\u{ff08}' || c == '\u{ff09}'
}

/// Whether `c` is an ASCII decimal digit.
pub fn digit(c: char) -> (r: bool)
    ensures
        r == is_digit_char(c),
{
    let u = c as u32;
    48 <= u && u <= 57
}

/// Whether `c` is an ASCII letter or one of `.`, `(`, `)`.
pub fn latin_like(c: char) -> (r: bool)
    ensures
        r == is_latin_like(c),
{
    let u = c as u32;
    (65 <= u && u <= 90) || (97 <= u && u <= 122) || c == '.' || c == '(' || c == ')'
}

/// Selects a font and reports which index the fallback drew (0 whenever the
/// rule is deterministic for `c`).
pub(crate) fn select_font_inner(c: char, fonts: &Vec<String>, sampler: &Sampler) -> (r: (
    String,
    Ghost<int>,
))
    requires
        fonts@.len() > 0,
    ensures
        0 <= r.1@ < fonts@.len(),
        r.0@ == font_choice(c, fonts.deep_view(), r.1@),
        sampler is Minimum ==> r.1@ == 0,
{
    proof {
        assert(forall|i: int|
            0 <= i < fonts@.len() ==> #[trigger] fonts.deep_view()[i] == fonts@[i]@);
    }
    if cjk_punct(c) {
        (fonts[fonts.len() - 1].clone(), Ghost(0))
    } else if digit(c) {
        (fonts[0].clone(), Ghost(0))
    } else if latin_like(c) {
        (fonts[fonts.len() - 1].clone(), Ghost(0))
    } else {
        let i = sampler.pick_index(fonts.len());
        (fonts[i].clone(), Ghost(i as int))
    }
}

/// The Font Selector: CJK punctuation, ASCII letters and `.()` take the
/// last configured font, digits the first, and every other character a
/// uniformly random entry — deterministic for the named classes whatever
/// the source, and wholly deterministic with the `Minimum` source.
pub fn select_font_for_char(c: char, fonts: &Vec<String>, sampler: &Sampler) -> (r: String)
    requires
        fonts@.len() > 0,
    ensures
        exists|i: int| 0 <= i < fonts@.len() && r@ == font_choice(c, fonts.deep_view(), i),
        is_cjk_punct(c) || is_latin_like(c) ==> r@ == fonts.deep_view().last(),
        is_digit_char(c) ==> r@ == fonts.deep_view().first(),
        sampler is Minimum ==> r@ == font_choice(c, fonts.deep_view(), 0),
{
    let (name, idx) = select_font_inner(c, fonts, sampler);
    name
}

} // verus!
