//! Structural laws of the rendered markup.
//!
//! Three facts hold of every output, whatever the random draws were: the
//! markup's angle brackets are balanced, the number of paragraph blocks is
//! exactly the text's newline count plus one, and the number of character
//! spans is exactly the number of the text's characters that are not
//! newlines.  The laws are stated over [`render_spec`], and carried over to
//! the renderer's actual output through [`rendered_from`].

use vstd::prelude::*;
use crate::model::{
    count_char, dec_int, dec_nat, digit_char, div_inner, esc, esc_char, font_choice, join_nl,
    line_height_of, lines_of, para_html, para_inner, paras_html, render_spec, rendered_from,
    span_html, span_inner, spans_html, style_word, tag, weight_word, CharChoice, ParaChoice,
};
use crate::settings::TextSettings;

verus! {

// ---------------------------------------------------------------------------
// Angle-bracket depth and pair counting
// ---------------------------------------------------------------------------

/// The contribution of one character to the open-tag depth.
pub open spec fn angle_val(c: char) -> int {
    if c == '<' {
        1
    } else if c == '>' {
        -1
    } else {
        0
    }
}

/// The net open-tag depth over a whole sequence.
pub open spec fn angle_sum(s: Seq<char>) -> int
    decreases s.len(),
{
    if s.len() == 0 {
        0
    } else {
        angle_sum(s.drop_last()) + angle_val(s.last())
    }
}

/// Every prefix closes no more tags than it has opened.
pub open spec fn angle_prefix_ok(s: Seq<char>) -> bool {
    forall|i: int| 0 <= i <= s.len() ==> angle_sum(#[trigger] s.take(i)) >= 0
}

/// Balanced markup: depth ends at zero and never dips below it.
pub open spec fn balanced(s: Seq<char>) -> bool {
    angle_sum(s) == 0 && angle_prefix_ok(s)
}

/// Not an angle bracket anywhere.
pub open spec fn angle_free(s: Seq<char>) -> bool {
    forall|i: int| 0 <= i < s.len() ==> angle_val(#[trigger] s[i]) == 0
}

/// How often the two-character pattern `a` directly followed by `b`
/// occurs.  With `a == '<'`, counting the pattern `<p` counts paragraph
/// openings and `<s` span openings.
pub open spec fn count_pair(s: Seq<char>, a: char, b: char) -> int
    decreases s.len(),
{
    if s.len() < 2 {
        0
    } else {
        count_pair(s.drop_last(), a, b) + if s[s.len() - 2] == a && s.last() == b {
            1int
        } else {
            0int
        }
    }
}

/// The pattern occurrences a concatenation adds at the seam.
pub open spec fn boundary_pair(x: Seq<char>, y: Seq<char>, a: char, b: char) -> int {
    if x.len() > 0 && y.len() > 0 && x.last() == a && y.first() == b {
        1
    } else {
        0
    }
}

// ---------------------------------------------------------------------------
// Base lemmas
// ---------------------------------------------------------------------------

/// Depth adds over concatenation.
pub proof fn lemma_angle_sum_concat(x: Seq<char>, y: Seq<char>)
    ensures
        angle_sum(x + y) == angle_sum(x) + angle_sum(y),
    decreases y.len(),
{
    if y.len() == 0 {
        assert(x + y =~= x);
    } else {
        lemma_angle_sum_concat(x, y.drop_last());
        assert((x + y).drop_last() =~= x + y.drop_last());
        assert((x + y).last() == y.last());
    }
}

/// A prefix of an angle-free sequence is angle-free.
pub proof fn lemma_angle_free_take(s: Seq<char>, i: int)
    requires
        angle_free(s),
        0 <= i <= s.len(),
    ensures
        angle_free(s.take(i)),
{
    assert forall|j: int| 0 <= j < s.take(i).len() implies angle_val(#[trigger] s.take(i)[j])
        == 0 by {
        assert(s.take(i)[j] == s[j]);
    }
}

/// An angle-free sequence has depth zero.
pub proof fn lemma_angle_free_sum(s: Seq<char>)
    requires
        angle_free(s),
    ensures
        angle_sum(s) == 0,
    decreases s.len(),
{
    if s.len() > 0 {
        lemma_angle_free_take(s, s.len() - 1);
        assert(s.drop_last() =~= s.take(s.len() - 1));
        lemma_angle_free_sum(s.drop_last());
        assert(angle_val(s.last()) == 0);
    }
}

/// An angle-free sequence is balanced.
pub proof fn lemma_angle_free_balanced(s: Seq<char>)
    requires
        angle_free(s),
    ensures
        balanced(s),
{
    lemma_angle_free_sum(s);
    assert forall|i: int| 0 <= i <= s.len() implies angle_sum(#[trigger] s.take(i)) >= 0 by {
        lemma_angle_free_take(s, i);
        lemma_angle_free_sum(s.take(i));
    }
}

/// Concatenation keeps angle-freeness.
pub proof fn lemma_angle_free_concat(x: Seq<char>, y: Seq<char>)
    requires
        angle_free(x),
        angle_free(y),
    ensures
        angle_free(x + y),
{
    assert forall|i: int| 0 <= i < (x + y).len() implies angle_val(#[trigger] (x + y)[i]) == 0 by {
        if i < x.len() {
            assert((x + y)[i] == x[i]);
        } else {
            assert((x + y)[i] == y[i - x.len()]);
        }
    }
}

/// Concatenation keeps balance.
pub proof fn lemma_balanced_concat(x: Seq<char>, y: Seq<char>)
    requires
        balanced(x),
        balanced(y),
    ensures
        balanced(x + y),
{
    lemma_angle_sum_concat(x, y);
    assert forall|i: int| 0 <= i <= (x + y).len() implies angle_sum(#[trigger] (x + y).take(i))
        >= 0 by {
        if i <= x.len() {
            assert((x + y).take(i) =~= x.take(i));
        } else {
            assert((x + y).take(i) =~= x + y.take(i - x.len()));
            lemma_angle_sum_concat(x, y.take(i - x.len()));
        }
    }
}

/// A tag around angle-free inner text is balanced.
pub proof fn lemma_tag_balanced(inner: Seq<char>)
    requires
        angle_free(inner),
    ensures
        balanced(tag(inner)),
{
    lemma_angle_sum_concat(seq!['<'], inner);
    lemma_angle_sum_concat(seq!['<'] + inner, seq!['>']);
    lemma_angle_free_sum(inner);
    assert(seq!['<'].drop_last() =~= Seq::<char>::empty());
    assert(seq!['>'].drop_last() =~= Seq::<char>::empty());
    assert(angle_sum(Seq::<char>::empty()) == 0);
    assert(angle_sum(seq!['<']) == 1);
    assert(angle_sum(seq!['>']) == -1);
    assert(angle_sum(tag(inner)) == 0);
    assert forall|i: int| 0 <= i <= tag(inner).len() implies angle_sum(
        #[trigger] tag(inner).take(i),
    ) >= 0 by {
        if i == 0 {
            assert(tag(inner).take(i) =~= Seq::<char>::empty());
        } else if i <= 1 + inner.len() {
            assert(tag(inner).take(i) =~= seq!['<'] + inner.take(i - 1));
            lemma_angle_free_take(inner, i - 1);
            lemma_angle_sum_concat(seq!['<'], inner.take(i - 1));
            lemma_angle_free_sum(inner.take(i - 1));
        } else {
            assert(tag(inner).take(i) =~= tag(inner));
        }
    }
}

/// Pair counts add over concatenation, up to the seam.
pub proof fn lemma_count_pair_concat(x: Seq<char>, y: Seq<char>, a: char, b: char)
    ensures
        count_pair(x + y, a, b) == count_pair(x, a, b) + count_pair(y, a, b) + boundary_pair(
            x,
            y,
            a,
            b,
        ),
    decreases y.len(),
{
    if y.len() == 0 {
        assert(x + y =~= x);
    } else if y.len() == 1 {
        if x.len() == 0 {
            assert(x + y =~= y);
        } else {
            assert((x + y).drop_last() =~= x);
            assert((x + y)[(x + y).len() - 2] == x.last());
            assert((x + y).last() == y.first());
        }
    } else {
        lemma_count_pair_concat(x, y.drop_last(), a, b);
        assert((x + y).drop_last() =~= x + y.drop_last());
        assert((x + y)[(x + y).len() - 2] == y[y.len() - 2]);
        assert((x + y).last() == y.last());
        assert(y.drop_last().first() == y.first());
    }
}

/// An angle-free sequence opens nothing: no `<`-led pair occurs in it.
pub proof fn lemma_count_pair_angle_free(s: Seq<char>, b: char)
    requires
        angle_free(s),
    ensures
        count_pair(s, '<', b) == 0,
    decreases s.len(),
{
    if s.len() >= 2 {
        lemma_angle_free_take(s, s.len() - 1);
        assert(s.drop_last() =~= s.take(s.len() - 1));
        lemma_count_pair_angle_free(s.drop_last(), b);
        assert(angle_val(s[s.len() - 2]) == 0);
    }
}

/// A tag on angle-free inner text holds exactly one `<`-led pair: the one
/// its own opening bracket makes with the inner text's first character.
pub proof fn lemma_count_pair_tag(inner: Seq<char>, b: char)
    requires
        angle_free(inner),
        inner.len() > 0,
    ensures
        count_pair(tag(inner), '<', b) == if inner.first() == b {
            1int
        } else {
            0int
        },
{
    lemma_count_pair_concat(seq!['<'], inner, '<', b);
    lemma_count_pair_concat(seq!['<'] + inner, seq!['>'], '<', b);
    lemma_count_pair_angle_free(inner, b);
    assert((seq!['<'] + inner).last() == inner.last());
    assert(angle_val(inner.last()) == 0);
    assert((seq!['<'] + inner).first() == '<');
}

// ---------------------------------------------------------------------------
// Angle-freeness of the content pieces
// ---------------------------------------------------------------------------

/// An escaped character never contains an angle bracket: the special
/// characters become entities, everything else was no bracket already.
pub proof fn lemma_esc_char_angle_free(c: char)
    ensures
        angle_free(esc_char(c)),
        esc_char(c).len() > 0,
{
    reveal_strlit("&lt;");
    reveal_strlit("&gt;");
    reveal_strlit("&amp;");
    reveal_strlit("&quot;");
    if c == '<' {
        assert forall|i: int| 0 <= i < esc_char(c).len() implies angle_val(#[trigger] esc_char(c)[i])
            == 0 by {}
    } else if c == '>' {
        assert forall|i: int| 0 <= i < esc_char(c).len() implies angle_val(#[trigger] esc_char(c)[i])
            == 0 by {}
    } else if c == '&' {
        assert forall|i: int| 0 <= i < esc_char(c).len() implies angle_val(#[trigger] esc_char(c)[i])
            == 0 by {}
    } else if c == '"' {
        assert forall|i: int| 0 <= i < esc_char(c).len() implies angle_val(#[trigger] esc_char(c)[i])
            == 0 by {}
    } else {
        assert(esc_char(c) =~= seq![c]);
        assert(angle_val(seq![c][0]) == 0);
    }
}

/// Escaped content never contains an angle bracket.
pub proof fn lemma_esc_angle_free(s: Seq<char>)
    ensures
        angle_free(esc(s)),
    decreases s.len(),
{
    if s.len() == 0 {
        assert(angle_free(esc(s)));
    } else {
        lemma_esc_angle_free(s.drop_last());
        lemma_esc_char_angle_free(s.last());
        lemma_angle_free_concat(esc(s.drop_last()), esc_char(s.last()));
    }
}

/// Decimal digits are no angle brackets.
pub proof fn lemma_dec_nat_angle_free(n: int)
    ensures
        angle_free(dec_nat(n)),
        dec_nat(n).len() > 0,
    decreases n,
{
    if n < 10 {
        assert(angle_val(digit_char(n)) == 0);
        assert(angle_free(seq![digit_char(n)]));
    } else {
        lemma_dec_nat_angle_free(n / 10);
        assert(angle_val(digit_char(n % 10)) == 0);
        assert(dec_nat(n) =~= dec_nat(n / 10) + seq![digit_char(n % 10)]);
        lemma_angle_free_concat(dec_nat(n / 10), seq![digit_char(n % 10)]);
    }
}

/// Decimal notation, sign included, is angle-free.
pub proof fn lemma_dec_int_angle_free(v: int)
    ensures
        angle_free(dec_int(v)),
        dec_int(v).len() > 0,
{
    if v < 0 {
        lemma_dec_nat_angle_free(-v);
        assert(angle_val('-') == 0);
        assert(angle_free(seq!['-']));
        lemma_angle_free_concat(seq!['-'], dec_nat(-v));
    } else {
        lemma_dec_nat_angle_free(v);
    }
}

/// The fixed CSS pieces of the markup contain no angle bracket, and the
/// pieces that open an element start with the element's name.
pub proof fn lemma_literal_facts()
    ensures
        angle_free("span style=\"display:inline-block;font-family:'"@),
        "span style=\"display:inline-block;font-family:'"@.len() > 0,
        "span style=\"display:inline-block;font-family:'"@.first() == 's',
        angle_free("';font-size:"@),
        angle_free("px;font-style:"@),
        angle_free(";font-weight:"@),
        angle_free(";position:relative;top:"@),
        angle_free("px;letter-spacing:"@),
        angle_free("px;\""@),
        angle_free("italic"@),
        angle_free("normal"@),
        angle_free("bold"@),
        angle_free("/span"@),
        "/span"@.len() > 0,
        "/span"@.first() == '/',
        angle_free("p style=\"line-height:"@),
        "p style=\"line-height:"@.len() > 0,
        "p style=\"line-height:"@.first() == 'p',
        angle_free("px;text-indent:"@),
        angle_free("em;margin:0;padding:0;\""@),
        angle_free("/p"@),
        "/p"@.len() > 0,
        "/p"@.first() == '/',
        angle_free(div_inner()),
        div_inner().len() > 0,
        div_inner().first() == 'd',
        angle_free("/div"@),
        "/div"@.len() > 0,
        "/div"@.first() == '/',
{
    reveal_strlit("span style=\"display:inline-block;font-family:'");
    reveal_strlit("';font-size:");
    reveal_strlit("px;font-style:");
    reveal_strlit(";font-weight:");
    reveal_strlit(";position:relative;top:");
    reveal_strlit("px;letter-spacing:");
    reveal_strlit("px;\"");
    reveal_strlit("italic");
    reveal_strlit("normal");
    reveal_strlit("bold");
    reveal_strlit("/span");
    reveal_strlit("p style=\"line-height:");
    reveal_strlit("px;text-indent:");
    reveal_strlit("em;margin:0;padding:0;\"");
    reveal_strlit("/p");
    reveal_strlit("div style=\"font-size:18px;white-space:pre-wrap;word-break:break-all;\"");
    reveal_strlit("/div");
}

// ---------------------------------------------------------------------------
// Facts about the assembled pieces
// ---------------------------------------------------------------------------

/// A span's style text is angle-free and starts with the element name.
pub proof fn lemma_span_inner_facts(c: char, s: TextSettings, cc: CharChoice)
    ensures
        angle_free(span_inner(c, s, cc)),
        span_inner(c, s, cc).len() > 0,
        span_inner(c, s, cc).first() == 's',
{
    lemma_literal_facts();
    let f = esc(font_choice(c, s.font_names.deep_view(), cc.font_idx));
    let d1 = dec_int(s.font_sizes@[cc.size_idx] as int);
    let d2 = dec_int(s.position_offset as int + cc.pos_jitter);
    let d3 = dec_int(s.spacing_offset as int + cc.sp_jitter);
    let w1 = style_word(cc.italic);
    let w2 = weight_word(cc.bold);
    lemma_esc_angle_free(font_choice(c, s.font_names.deep_view(), cc.font_idx));
    lemma_dec_int_angle_free(s.font_sizes@[cc.size_idx] as int);
    lemma_dec_int_angle_free(s.position_offset as int + cc.pos_jitter);
    lemma_dec_int_angle_free(s.spacing_offset as int + cc.sp_jitter);
    let l0 = "span style=\"display:inline-block;font-family:'"@;
    let x1 = l0 + f;
    lemma_angle_free_concat(l0, f);
    let x2 = x1 + "';font-size:"@;
    lemma_angle_free_concat(x1, "';font-size:"@);
    let x3 = x2 + d1;
    lemma_angle_free_concat(x2, d1);
    let x4 = x3 + "px;font-style:"@;
    lemma_angle_free_concat(x3, "px;font-style:"@);
    let x5 = x4 + w1;
    lemma_angle_free_concat(x4, w1);
    let x6 = x5 + ";font-weight:"@;
    lemma_angle_free_concat(x5, ";font-weight:"@);
    let x7 = x6 + w2;
    lemma_angle_free_concat(x6, w2);
    let x8 = x7 + ";position:relative;top:"@;
    lemma_angle_free_concat(x7, ";position:relative;top:"@);
    let x9 = x8 + d2;
    lemma_angle_free_concat(x8, d2);
    let x10 = x9 + "px;letter-spacing:"@;
    lemma_angle_free_concat(x9, "px;letter-spacing:"@);
    let x11 = x10 + d3;
    lemma_angle_free_concat(x10, d3);
    let x12 = x11 + "px;\""@;
    lemma_angle_free_concat(x11, "px;\""@);
    assert(span_inner(c, s, cc) == x12);
    assert(x12.first() == l0.first());
}

/// One rendered span is balanced, holds exactly one span opening and no
/// paragraph opening, and runs from `<` to `>`.
pub proof fn lemma_span_facts(c: char, s: TextSettings, cc: CharChoice)
    ensures
        balanced(span_html(c, s, cc)),
        count_pair(span_html(c, s, cc), '<', 'p') == 0,
        count_pair(span_html(c, s, cc), '<', 's') == 1,
        span_html(c, s, cc).len() > 0,
        span_html(c, s, cc).first() == '<',
        span_html(c, s, cc).last() == '>',
{
    lemma_span_inner_facts(c, s, cc);
    lemma_literal_facts();
    lemma_esc_char_angle_free(c);
    let inner = span_inner(c, s, cc);
    let t1 = tag(inner);
    let e = esc_char(c);
    let t2 = tag("/span"@);
    lemma_tag_balanced(inner);
    lemma_angle_free_balanced(e);
    lemma_tag_balanced("/span"@);
    lemma_balanced_concat(t1, e);
    lemma_balanced_concat(t1 + e, t2);
    lemma_count_pair_tag(inner, 'p');
    lemma_count_pair_tag(inner, 's');
    lemma_count_pair_tag("/span"@, 'p');
    lemma_count_pair_tag("/span"@, 's');
    lemma_count_pair_angle_free(e, 'p');
    lemma_count_pair_angle_free(e, 's');
    assert(t1.last() == '>');
    assert((t1 + e).last() == e.last());
    assert(angle_val(e.last()) == 0);
    lemma_count_pair_concat(t1, e, '<', 'p');
    lemma_count_pair_concat(t1 + e, t2, '<', 'p');
    lemma_count_pair_concat(t1, e, '<', 's');
    lemma_count_pair_concat(t1 + e, t2, '<', 's');
    assert(span_html(c, s, cc).first() == t1.first());
    assert(t1.first() == '<');
    assert(span_html(c, s, cc).last() == t2.last());
    assert(t2.last() == '>');
}

/// A line's spans are balanced, open one span per character and no
/// paragraph, and (when non-empty) run from `<` to `>`.
pub proof fn lemma_spans_facts(line: Seq<char>, s: TextSettings, ccs: Seq<CharChoice>)
    ensures
        balanced(spans_html(line, s, ccs)),
        count_pair(spans_html(line, s, ccs), '<', 'p') == 0,
        count_pair(spans_html(line, s, ccs), '<', 's') == line.len(),
        line.len() == 0 ==> spans_html(line, s, ccs) == Seq::<char>::empty(),
        line.len() > 0 ==> spans_html(line, s, ccs).len() > 0 && spans_html(line, s, ccs).first()
            == '<' && spans_html(line, s, ccs).last() == '>',
    decreases line.len(),
{
    if line.len() == 0 {
        lemma_angle_free_balanced(Seq::<char>::empty());
    } else {
        lemma_spans_facts(line.drop_last(), s, ccs.drop_last());
        lemma_span_facts(line.last(), s, ccs.last());
        let prev = spans_html(line.drop_last(), s, ccs.drop_last());
        let sp = span_html(line.last(), s, ccs.last());
        lemma_balanced_concat(prev, sp);
        lemma_count_pair_concat(prev, sp, '<', 'p');
        lemma_count_pair_concat(prev, sp, '<', 's');
        if line.len() == 1 {
            assert(prev + sp =~= sp);
        } else {
            assert((prev + sp).first() == prev.first());
        }
        assert((prev + sp).last() == sp.last());
    }
}

/// A paragraph block is balanced, opens exactly one paragraph and one span
/// per character of its line, and runs from `<` to `>`.
pub proof fn lemma_para_facts(line: Seq<char>, s: TextSettings, pc: ParaChoice)
    ensures
        balanced(para_html(line, s, pc)),
        count_pair(para_html(line, s, pc), '<', 'p') == 1,
        count_pair(para_html(line, s, pc), '<', 's') == line.len(),
        para_html(line, s, pc).len() > 0,
        para_html(line, s, pc).first() == '<',
        para_html(line, s, pc).last() == '>',
{
    lemma_literal_facts();
    let lh = line_height_of(s, pc.line_jitter);
    lemma_dec_int_angle_free(lh);
    lemma_dec_int_angle_free(s.indent_size as int);
    let m0 = "p style=\"line-height:"@;
    let y1 = m0 + dec_int(lh);
    lemma_angle_free_concat(m0, dec_int(lh));
    let y2 = y1 + "px;text-indent:"@;
    lemma_angle_free_concat(y1, "px;text-indent:"@);
    let y3 = y2 + dec_int(s.indent_size as int);
    lemma_angle_free_concat(y2, dec_int(s.indent_size as int));
    let y4 = y3 + "em;margin:0;padding:0;\""@;
    lemma_angle_free_concat(y3, "em;margin:0;padding:0;\""@);
    let pi = para_inner(lh, s);
    assert(pi == y4);
    assert(pi.first() == m0.first());
    lemma_tag_balanced(pi);
    lemma_count_pair_tag(pi, 'p');
    lemma_count_pair_tag(pi, 's');
    lemma_tag_balanced("/p"@);
    lemma_count_pair_tag("/p"@, 'p');
    lemma_count_pair_tag("/p"@, 's');
    lemma_spans_facts(line, s, pc.chars);
    let tp = tag(pi);
    let sp = spans_html(line, s, pc.chars);
    let tc = tag("/p"@);
    lemma_balanced_concat(tp, sp);
    lemma_balanced_concat(tp + sp, tc);
    assert(tp.last() == '>');
    lemma_count_pair_concat(tp, sp, '<', 'p');
    lemma_count_pair_concat(tp, sp, '<', 's');
    if line.len() == 0 {
        assert(tp + sp =~= tp);
    } else {
        assert((tp + sp).last() == sp.last());
    }
    lemma_count_pair_concat(tp + sp, tc, '<', 'p');
    lemma_count_pair_concat(tp + sp, tc, '<', 's');
    assert(para_html(line, s, pc).first() == tp.first());
    assert(para_html(line, s, pc).last() == tc.last());
    assert(tc.last() == '>');
}

/// Total length of a sequence of lines.
pub open spec fn sum_lens(ss: Seq<Seq<char>>) -> int
    decreases ss.len(),
{
    if ss.len() == 0 {
        0
    } else {
        sum_lens(ss.drop_last()) + ss.last().len()
    }
}

/// The joined paragraph blocks are balanced, open one paragraph per line
/// and one span per character, and (when any line exists) run from `<`
/// to `>`.
pub proof fn lemma_join_facts(lines: Seq<Seq<char>>, s: TextSettings, ch: Seq<ParaChoice>)
    requires
        ch.len() == lines.len(),
    ensures
        balanced(join_nl(paras_html(lines, s, ch))),
        count_pair(join_nl(paras_html(lines, s, ch)), '<', 'p') == lines.len(),
        count_pair(join_nl(paras_html(lines, s, ch)), '<', 's') == sum_lens(lines),
        lines.len() > 0 ==> join_nl(paras_html(lines, s, ch)).len() > 0 && join_nl(
            paras_html(lines, s, ch),
        ).first() == '<' && join_nl(paras_html(lines, s, ch)).last() == '>',
    decreases lines.len(),
{
    let items = paras_html(lines, s, ch);
    if lines.len() == 0 {
        lemma_angle_free_balanced(Seq::<char>::empty());
    } else if lines.len() == 1 {
        assert(join_nl(items) == items[0]);
        assert(items[0] == para_html(lines[0], s, ch[0]));
        lemma_para_facts(lines[0], s, ch[0]);
        assert(lines.drop_last() =~= Seq::<Seq<char>>::empty());
        assert(lines.last() == lines[0]);
        assert(sum_lens(Seq::<Seq<char>>::empty()) == 0);
        assert(sum_lens(lines) == sum_lens(lines.drop_last()) + lines.last().len());
    } else {
        lemma_join_facts(lines.drop_last(), s, ch.drop_last());
        assert forall|p: int| 0 <= p < lines.len() - 1 implies #[trigger] paras_html(
            lines.drop_last(),
            s,
            ch.drop_last(),
        )[p] == items.drop_last()[p] by {
            assert(lines.drop_last()[p] == lines[p]);
            assert(ch.drop_last()[p] == ch[p]);
        }
        assert(paras_html(lines.drop_last(), s, ch.drop_last()) =~= items.drop_last());
        lemma_para_facts(lines.last(), s, ch.last());
        let jp = join_nl(items.drop_last());
        let nl = seq!['\n'];
        let it = items.last();
        assert(items.last() == para_html(lines.last(), s, ch.last()));
        assert(join_nl(items) == (jp + nl) + it);
        assert(angle_free(nl));
        lemma_angle_free_balanced(nl);
        lemma_balanced_concat(jp, nl);
        lemma_balanced_concat(jp + nl, it);
        assert(count_pair(nl, '<', 'p') == 0);
        assert(count_pair(nl, '<', 's') == 0);
        lemma_count_pair_concat(jp, nl, '<', 'p');
        lemma_count_pair_concat(jp, nl, '<', 's');
        assert((jp + nl).last() == '\n');
        lemma_count_pair_concat(jp + nl, it, '<', 'p');
        lemma_count_pair_concat(jp + nl, it, '<', 's');
        assert(join_nl(items).first() == jp.first());
        assert(join_nl(items).last() == it.last());
        assert(sum_lens(lines) == sum_lens(lines.drop_last()) + lines.last().len());
    }
}

/// The split has one line more than the text has newlines.
pub proof fn lemma_lines_len(t: Seq<char>)
    ensures
        lines_of(t).len() == count_char(t, '\n') + 1,
        count_char(t, '\n') >= 0,
    decreases t.len(),
{
    if t.len() > 0 {
        lemma_lines_len(t.drop_last());
    }
}

/// The lines hold, between them, every character of the text except its
/// newlines.
pub proof fn lemma_lines_sum(t: Seq<char>)
    ensures
        sum_lens(lines_of(t)) == t.len() - count_char(t, '\n'),
    decreases t.len(),
{
    if t.len() == 0 {
        assert(seq![Seq::<char>::empty()].drop_last() =~= Seq::<Seq<char>>::empty());
        assert(sum_lens(Seq::<Seq<char>>::empty()) == 0);
        assert(sum_lens(seq![Seq::<char>::empty()]) == 0);
    } else if t.last() == '\n' {
        lemma_lines_sum(t.drop_last());
        let prev = lines_of(t.drop_last());
        let pushed = prev.push(Seq::<char>::empty());
        assert(pushed.drop_last() =~= prev);
        assert(sum_lens(pushed) == sum_lens(pushed.drop_last()) + pushed.last().len());
        assert(lines_of(t) == pushed);
    } else {
        lemma_lines_sum(t.drop_last());
        lemma_lines_len(t.drop_last());
        let prev = lines_of(t.drop_last());
        let upd = prev.update(prev.len() - 1, prev.last().push(t.last()));
        assert(lines_of(t) == upd);
        assert(upd.drop_last() =~= prev.drop_last());
        assert(upd.last() == prev.last().push(t.last()));
        assert(sum_lens(upd) == sum_lens(upd.drop_last()) + upd.last().len());
        assert(sum_lens(prev) == sum_lens(prev.drop_last()) + prev.last().len());
    }
}

// ---------------------------------------------------------------------------
// The laws themselves
// ---------------------------------------------------------------------------

/// Whatever the draws, the rendered markup is balanced, opens exactly one
/// paragraph block per line of the split text, and exactly one span per
/// character that is not a newline.
pub proof fn lemma_render_structure(t: Seq<char>, s: TextSettings, ch: Seq<ParaChoice>)
    requires
        ch.len() == lines_of(t).len(),
    ensures
        balanced(render_spec(t, s, ch)),
        count_pair(render_spec(t, s, ch), '<', 'p') == count_char(t, '\n') + 1,
        count_pair(render_spec(t, s, ch), '<', 's') == t.len() - count_char(t, '\n'),
{
    lemma_literal_facts();
    lemma_lines_len(t);
    lemma_lines_sum(t);
    lemma_join_facts(lines_of(t), s, ch);
    let td = tag(div_inner());
    let j = join_nl(paras_html(lines_of(t), s, ch));
    let tc = tag("/div"@);
    lemma_tag_balanced(div_inner());
    lemma_tag_balanced("/div"@);
    lemma_balanced_concat(td, j);
    lemma_balanced_concat(td + j, tc);
    lemma_count_pair_tag(div_inner(), 'p');
    lemma_count_pair_tag(div_inner(), 's');
    lemma_count_pair_tag("/div"@, 'p');
    lemma_count_pair_tag("/div"@, 's');
    assert(td.last() == '>');
    lemma_count_pair_concat(td, j, '<', 'p');
    lemma_count_pair_concat(td, j, '<', 's');
    assert((td + j).last() == j.last());
    lemma_count_pair_concat(td + j, tc, '<', 'p');
    lemma_count_pair_concat(td + j, tc, '<', 's');
}

/// Every output the renderer can actually produce is balanced markup.
pub proof fn lemma_output_balanced(t: Seq<char>, s: TextSettings, out: Seq<char>)
    requires
        rendered_from(t, s, out),
    ensures
        balanced(out),
{
    let ch = choose|ch: Seq<ParaChoice>|
        crate::model::choices_valid(ch, t, s) && out == render_spec(t, s, ch);
    lemma_render_structure(t, s, ch);
}

/// Every output the renderer can actually produce opens exactly one
/// paragraph block per line of the text: its newline count plus one.
pub proof fn lemma_output_paragraph_count(t: Seq<char>, s: TextSettings, out: Seq<char>)
    requires
        rendered_from(t, s, out),
    ensures
        count_pair(out, '<', 'p') == count_char(t, '\n') + 1,
{
    let ch = choose|ch: Seq<ParaChoice>|
        crate::model::choices_valid(ch, t, s) && out == render_spec(t, s, ch);
    lemma_render_structure(t, s, ch);
}

/// Every output the renderer can actually produce opens exactly one span
/// per character of the text that is not a newline.
pub proof fn lemma_output_span_count(t: Seq<char>, s: TextSettings, out: Seq<char>)
    requires
        rendered_from(t, s, out),
    ensures
        count_pair(out, '<', 's') == t.len() - count_char(t, '\n'),
{
    let ch = choose|ch: Seq<ParaChoice>|
        crate::model::choices_valid(ch, t, s) && out == render_spec(t, s, ch);
    lemma_render_structure(t, s, ch);
}

/// Rendering the empty text gives the fixed outer wrapper around exactly
/// one, empty, paragraph block.
pub proof fn lemma_render_empty(s: TextSettings, ch: Seq<ParaChoice>)
    requires
        ch.len() == 1,
    ensures
        lines_of(Seq::<char>::empty()) == seq![Seq::<char>::empty()],
        render_spec(Seq::<char>::empty(), s, ch) == tag(div_inner()) + para_html(
            Seq::<char>::empty(),
            s,
            ch[0],
        ) + tag("/div"@),
        count_pair(render_spec(Seq::<char>::empty(), s, ch), '<', 'p') == 1,
        count_pair(render_spec(Seq::<char>::empty(), s, ch), '<', 's') == 0,
{
    let t = Seq::<char>::empty();
    let items = paras_html(lines_of(t), s, ch);
    assert(items.len() == 1);
    assert(join_nl(items) == items[0]);
    assert(items[0] == para_html(Seq::<char>::empty(), s, ch[0]));
    lemma_render_structure(t, s, ch);
}

} // verus!
