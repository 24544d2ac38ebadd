//! The mathematical model of the renderer.
//!
//! Everything the executable code produces is pinned, character for
//! character, to the spec functions here.  Randomness is modelled by a ghost
//! record of the draws (`CharChoice` per character, `ParaChoice` per
//! paragraph): given the text, the settings and the draws, the output is the
//! unique string [`render_spec`] describes.

use vstd::prelude::*;
use crate::settings::TextSettings;

verus! {

// ---------------------------------------------------------------------------
// Decimal notation
// ---------------------------------------------------------------------------

/// A decimal digit as the character that prints it.
pub open spec fn digit_char(d: int) -> char {
    if d == 0 {
        '0'
    } else if d == 1 {
        '1'
    } else if d == 2 {
        '2'
    } else if d == 3 {
        '3'
    } else if d == 4 {
        '4'
    } else if d == 5 {
        '5'
    } else if d == 6 {
        '6'
    } else if d == 7 {
        '7'
    } else if d == 8 {
        '8'
    } else {
        '9'
    }
}

/// Decimal notation of a non-negative integer, most significant digit first.
pub open spec fn dec_nat(n: int) -> Seq<char>
    recommends
        n >= 0,
    decreases n,
{
    if n < 10 {
        seq![digit_char(n)]
    } else {
        dec_nat(n / 10).push(digit_char(n % 10))
    }
}

/// Decimal notation of an integer: a minus sign before the magnitude when
/// negative.
pub open spec fn dec_int(v: int) -> Seq<char> {
    if v < 0 {
        seq!['-'] + dec_nat(-v)
    } else {
        dec_nat(v)
    }
}

// ---------------------------------------------------------------------------
// HTML escaping
// ---------------------------------------------------------------------------

/// One character of content, HTML-escaped: the four markup-special
/// characters become entities, everything else stands as itself.
pub open spec fn esc_char(c: char) -> Seq<char> {
    if c == '<' {
        "&lt;"@
    } else if c == '>' {
        "&gt;"@
    } else if c == '&' {
        "&amp;"@
    } else if c == '"' {
        "&quot;"@
    } else {
        seq![c]
    }
}

/// A whole sequence of characters, HTML-escaped.
pub open spec fn esc(s: Seq<char>) -> Seq<char>
    decreases s.len(),
{
    if s.len() == 0 {
        Seq::empty()
    } else {
        esc(s.drop_last()) + esc_char(s.last())
    }
}

// ---------------------------------------------------------------------------
// Character classes and the font rule
// ---------------------------------------------------------------------------

/// The fixed CJK punctuation set that always takes the last font:
/// ideographic period, the two commas, semicolon, colon, exclamation and
/// question marks, curly single and double quotes, and full-width
/// parentheses.
pub open spec fn is_cjk_punct(c: char) -> bool {
    ||| c == '\u{3002}'
    ||| c == '\u{ff0c}'
    ||| c == '\u{3001}'
    ||| c == '\u{ff1b}'
    ||| c == '\u{ff1a}'
    ||| c == '\u{ff01}'
    ||| c == '\u{ff1f}'
    ||| c == '\u{2018}'
    ||| c == '\u{2019}'
    ||| c == '\u{201c}'
    ||| c == '\u{201d}'
    ||| c == '\u{ff08}'
    ||| c == '\u{ff09}'
}

/// An ASCII decimal digit.
pub open spec fn is_digit_char(c: char) -> bool {
    48 <= c as u32 && c as u32 <= 57
}

/// An ASCII letter, or one of `.`, `(`, `)`: the class that always takes the
/// last font.
pub open spec fn is_latin_like(c: char) -> bool {
    ||| (65 <= c as u32 && c as u32 <= 90)
    ||| (97 <= c as u32 && c as u32 <= 122)
    ||| c == '.'
    ||| c == '('
    ||| c == ')'
}

/// The font rule: CJK punctuation and Latin-like characters take the last
/// entry, digits the first, and everything else the entry at the drawn
/// index `idx`.
pub open spec fn font_choice(c: char, names: Seq<Seq<char>>, idx: int) -> Seq<char>
    recommends
        names.len() > 0,
        0 <= idx < names.len(),
{
    if is_cjk_punct(c) {
        names.last()
    } else if is_digit_char(c) {
        names.first()
    } else if is_latin_like(c) {
        names.last()
    } else {
        names[idx]
    }
}

// ---------------------------------------------------------------------------
// Recorded random draws
// ---------------------------------------------------------------------------

/// The draws made for one character: a fallback font index, a size index,
/// the two style coin flips, and the two symmetric jitters.
pub ghost struct CharChoice {
    pub font_idx: int,
    pub size_idx: int,
    pub italic: bool,
    pub bold: bool,
    pub pos_jitter: int,
    pub sp_jitter: int,
}

/// The draws made for one paragraph: its line-height jitter and the
/// per-character draws.
pub ghost struct ParaChoice {
    pub line_jitter: int,
    pub chars: Seq<CharChoice>,
}

/// Each per-character draw lies within the bounds the settings allow.
pub open spec fn char_choice_valid(cc: CharChoice, s: TextSettings) -> bool {
    &&& 0 <= cc.font_idx < s.font_names@.len()
    &&& 0 <= cc.size_idx < s.font_sizes@.len()
    &&& -(s.position_offset_random as int) <= cc.pos_jitter <= s.position_offset_random as int
    &&& -(s.spacing_offset_random as int) <= cc.sp_jitter <= s.spacing_offset_random as int
}

/// The paragraph draw covers its line exactly and stays within bounds.
pub open spec fn para_choice_valid(pc: ParaChoice, line: Seq<char>, s: TextSettings) -> bool {
    &&& -(s.line_spacing_random as int) <= pc.line_jitter <= s.line_spacing_random as int
    &&& pc.chars.len() == line.len()
    &&& forall|k: int| 0 <= k < pc.chars.len() ==> char_choice_valid(#[trigger] pc.chars[k], s)
}

/// The whole record of draws covers the split text exactly.
pub open spec fn choices_valid(ch: Seq<ParaChoice>, t: Seq<char>, s: TextSettings) -> bool {
    &&& ch.len() == lines_of(t).len()
    &&& forall|p: int| 0 <= p < ch.len() ==> para_choice_valid(#[trigger] ch[p], lines_of(t)[p], s)
}

/// The draws a source fixed to its minimum makes for one character.
pub open spec fn min_char_choice(s: TextSettings) -> CharChoice {
    CharChoice {
        font_idx: 0,
        size_idx: 0,
        italic: s.italic_probability == 1,
        bold: s.bold_probability == 1,
        pos_jitter: -(s.position_offset_random as int),
        sp_jitter: -(s.spacing_offset_random as int),
    }
}

/// The draws a source fixed to its minimum makes for one paragraph.
pub open spec fn min_para_choice(line: Seq<char>, s: TextSettings) -> ParaChoice {
    ParaChoice {
        line_jitter: -(s.line_spacing_random as int),
        chars: Seq::new(line.len(), |k: int| min_char_choice(s)),
    }
}

/// The draws a source fixed to its minimum makes for a whole text.
pub open spec fn min_choices(t: Seq<char>, s: TextSettings) -> Seq<ParaChoice> {
    Seq::new(lines_of(t).len(), |p: int| min_para_choice(lines_of(t)[p], s))
}

// ---------------------------------------------------------------------------
// Splitting the text into lines
// ---------------------------------------------------------------------------

/// How often `c` occurs in `t`.
pub open spec fn count_char(t: Seq<char>, c: char) -> int
    decreases t.len(),
{
    if t.len() == 0 {
        0
    } else {
        count_char(t.drop_last(), c) + if t.last() == c {
            1int
        } else {
            0int
        }
    }
}

/// The text split on `'\n'`, every piece kept: empty text is one empty
/// line, and each newline ends the line before it.
pub open spec fn lines_of(t: Seq<char>) -> Seq<Seq<char>>
    decreases t.len(),
{
    if t.len() == 0 {
        seq![Seq::<char>::empty()]
    } else if t.last() == '\n' {
        lines_of(t.drop_last()).push(Seq::<char>::empty())
    } else {
        let prev = lines_of(t.drop_last());
        prev.update(prev.len() - 1, prev.last().push(t.last()))
    }
}

// ---------------------------------------------------------------------------
// The markup itself
// ---------------------------------------------------------------------------

/// An HTML tag: the inner text between one `<` and one `>`.
pub open spec fn tag(inner: Seq<char>) -> Seq<char> {
    seq!['<'] + inner + seq!['>']
}

/// The CSS font-style keyword for the italic flag.
pub open spec fn style_word(b: bool) -> Seq<char> {
    if b {
        "italic"@
    } else {
        "normal"@
    }
}

/// The CSS font-weight keyword for the bold flag.
pub open spec fn weight_word(b: bool) -> Seq<char> {
    if b {
        "bold"@
    } else {
        "normal"@
    }
}

/// The inside of one character's opening span tag: the inline style built
/// from the drawn font, size, slant, weight and the two offsets.
pub open spec fn span_inner(c: char, s: TextSettings, cc: CharChoice) -> Seq<char> {
    "span style=\"display:inline-block;font-family:'"@
        + esc(font_choice(c, s.font_names.deep_view(), cc.font_idx)) + "';font-size:"@ + dec_int(
        s.font_sizes@[cc.size_idx] as int,
    ) + "px;font-style:"@ + style_word(cc.italic) + ";font-weight:"@ + weight_word(cc.bold)
        + ";position:relative;top:"@ + dec_int(s.position_offset as int + cc.pos_jitter)
        + "px;letter-spacing:"@ + dec_int(s.spacing_offset as int + cc.sp_jitter) + "px;\""@
}

/// One character rendered as a styled span around its escaped content.
pub open spec fn span_html(c: char, s: TextSettings, cc: CharChoice) -> Seq<char> {
    tag(span_inner(c, s, cc)) + esc_char(c) + tag("/span"@)
}

/// All of a line's characters rendered as spans, in order.
pub open spec fn spans_html(line: Seq<char>, s: TextSettings, ccs: Seq<CharChoice>) -> Seq<char>
    recommends
        ccs.len() == line.len(),
    decreases line.len(),
{
    if line.len() == 0 {
        Seq::empty()
    } else {
        spans_html(line.drop_last(), s, ccs.drop_last()) + span_html(line.last(), s, ccs.last())
    }
}

/// A paragraph's line height: the base spacing plus the drawn jitter,
/// clamped to be non-negative.
pub open spec fn line_height_of(s: TextSettings, jitter: int) -> int {
    if s.line_spacing as int + jitter < 0 {
        0
    } else {
        s.line_spacing as int + jitter
    }
}

/// The inside of a paragraph's opening tag: its line height and indent.
pub open spec fn para_inner(line_height: int, s: TextSettings) -> Seq<char> {
    "p style=\"line-height:"@ + dec_int(line_height) + "px;text-indent:"@ + dec_int(
        s.indent_size as int,
    ) + "em;margin:0;padding:0;\""@
}

/// One paragraph: its block element around the line's spans.
pub open spec fn para_html(line: Seq<char>, s: TextSettings, pc: ParaChoice) -> Seq<char> {
    tag(para_inner(line_height_of(s, pc.line_jitter), s)) + spans_html(line, s, pc.chars) + tag(
        "/p"@,
    )
}

/// Every paragraph of the split text, rendered.
pub open spec fn paras_html(lines: Seq<Seq<char>>, s: TextSettings, ch: Seq<ParaChoice>) -> Seq<
    Seq<char>,
>
    recommends
        ch.len() == lines.len(),
{
    Seq::new(lines.len(), |p: int| para_html(lines[p], s, ch[p]))
}

/// The pieces joined with a cosmetic newline between consecutive blocks.
pub open spec fn join_nl(items: Seq<Seq<char>>) -> Seq<char>
    decreases items.len(),
{
    if items.len() == 0 {
        Seq::empty()
    } else if items.len() == 1 {
        items[0]
    } else {
        join_nl(items.drop_last()) + seq!['\n'] + items.last()
    }
}

/// The inside of the fixed outer wrapper.
pub open spec fn div_inner() -> Seq<char> {
    "div style=\"font-size:18px;white-space:pre-wrap;word-break:break-all;\""@
}

/// The whole output: the fixed outer wrapper around the joined paragraph
/// blocks, as determined by the text, the settings and the recorded draws.
pub open spec fn render_spec(t: Seq<char>, s: TextSettings, ch: Seq<ParaChoice>) -> Seq<char>
    recommends
        choices_valid(ch, t, s),
{
    tag(div_inner()) + join_nl(paras_html(lines_of(t), s, ch)) + tag("/div"@)
}

/// The output `out` is what some in-bounds record of draws produces from
/// `t` and `s`.
pub open spec fn rendered_from(t: Seq<char>, s: TextSettings, out: Seq<char>) -> bool {
    exists|ch: Seq<ParaChoice>| choices_valid(ch, t, s) && out == render_spec(t, s, ch)
}

/// Concatenation of character sequences is associative.
pub proof fn seq_add_assoc(a: Seq<char>, b: Seq<char>, c: Seq<char>)
    ensures
        (a + b) + c == a + (b + c),
{
    assert((a + b) + c =~= a + (b + c));
}

} // verus!
