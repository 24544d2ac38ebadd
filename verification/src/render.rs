//! HTML assembly: the top-level renderer and its paragraph and span
//! builders.  Each builder's contract pins its output to the model in
//! `model`, with the ghost record of the draws it made.

use vstd::prelude::*;
use vstd::string::StringExecFns;
use crate::fontsel::select_font_inner;
use crate::model::{
    char_choice_valid, choices_valid, dec_int, div_inner, esc, esc_char, join_nl,
    line_height_of, lines_of, min_char_choice, min_choices, min_para_choice, para_choice_valid,
    para_html, para_inner, paras_html, render_spec, rendered_from, seq_add_assoc, span_html,
    span_inner, spans_html, style_word, tag, weight_word, CharChoice, ParaChoice,
};
use crate::sampler::Sampler;
use crate::settings::{valid_settings, validate, RenderError, TextSettings};
use crate::strfmt::{chars_of, push_char, push_dec_i64, push_escaped_char, push_escaped_str};

verus! {

/// Splits a character sequence on `'\n'`, keeping every piece.
#[verifier::loop_isolation(false)]
pub fn split_lines(chars: &Vec<char>) -> (r: Vec<Vec<char>>)
    ensures
        r@.len() == lines_of(chars@).len(),
        forall|p: int| 0 <= p < r@.len() ==> #[trigger] r@[p]@ == lines_of(chars@)[p],
{
    let mut done: Vec<Vec<char>> = Vec::new();
    let mut cur: Vec<char> = Vec::new();
    let mut i: usize = 0;
    proof {
        assert(chars@.take(0) =~= Seq::<char>::empty());
    }
    while i < chars.len()
        invariant
            0 <= i <= chars@.len(),
            done@.len() + 1 == lines_of(chars@.take(i as int)).len(),
            forall|p: int|
                0 <= p < done@.len() ==> #[trigger] done@[p]@ == lines_of(chars@.take(i as int))[p],
            cur@ == lines_of(chars@.take(i as int)).last(),
        decreases chars@.len() - i,
    {
        let c = chars[i];
        proof {
            assert(chars@.take(i + 1).drop_last() =~= chars@.take(i as int));
            assert(chars@.take(i + 1).last() == chars@[i as int]);
        }
        if c == '\n' {
            done.push(cur);
            cur = Vec::new();
        } else {
            cur.push(c);
        }
        i += 1;
    }
    proof {
        assert(chars@.take(chars@.len() as int) =~= chars@);
    }
    done.push(cur);
    done
}

/// Renders one character: draws its style and appends the styled span.
#[verifier::rlimit(100)]
fn render_span(out: &mut String, c: char, s: &TextSettings, sampler: &Sampler) -> (g: Ghost<
    CharChoice,
>)
    requires
        valid_settings(*s),
    ensures
        char_choice_valid(g@, *s),
        final(out)@ == old(out)@ + span_html(c, *s, g@),
        sampler is Minimum ==> g@ == min_char_choice(*s),
{
    let (font, fidx) = select_font_inner(c, &s.font_names, sampler);
    let sidx = sampler.pick_index(s.font_sizes.len());
    let size = s.font_sizes[sidx];
    let italic = sampler.one_in(s.italic_probability);
    let bold = sampler.one_in(s.bold_probability);
    let pj = sampler.jitter(s.position_offset_random);
    let sj = sampler.jitter(s.spacing_offset_random);
    let top: i64 = s.position_offset as i64 + pj as i64;
    let ls: i64 = s.spacing_offset as i64 + sj as i64;
    let ghost cc = CharChoice {
        font_idx: fidx@,
        size_idx: sidx as int,
        italic,
        bold,
        pos_jitter: pj as int,
        sp_jitter: sj as int,
    };
    push_char(out, '<');
    let ghost base = out@;
    out.append("span style=\"display:inline-block;font-family:'");
    let ghost mut acc = "span style=\"display:inline-block;font-family:'"@;
    push_escaped_str(out, &font);
    proof {
        seq_add_assoc(base, acc, esc(font@));
        acc = acc + esc(font@);
    }
    out.append("';font-size:");
    proof {
        seq_add_assoc(base, acc, "';font-size:"@);
        acc = acc + "';font-size:"@;
    }
    push_dec_i64(out, size as i64);
    proof {
        seq_add_assoc(base, acc, dec_int(size as int));
        acc = acc + dec_int(size as int);
    }
    out.append("px;font-style:");
    proof {
        seq_add_assoc(base, acc, "px;font-style:"@);
        acc = acc + "px;font-style:"@;
    }
    if italic {
        out.append("italic");
    } else {
        out.append("normal");
    }
    proof {
        seq_add_assoc(base, acc, style_word(cc.italic));
        acc = acc + style_word(cc.italic);
    }
    out.append(";font-weight:");
    proof {
        seq_add_assoc(base, acc, ";font-weight:"@);
        acc = acc + ";font-weight:"@;
    }
    if bold {
        out.append("bold");
    } else {
        out.append("normal");
    }
    proof {
        seq_add_assoc(base, acc, weight_word(cc.bold));
        acc = acc + weight_word(cc.bold);
    }
    out.append(";position:relative;top:");
    proof {
        seq_add_assoc(base, acc, ";position:relative;top:"@);
        acc = acc + ";position:relative;top:"@;
    }
    push_dec_i64(out, top);
    proof {
        seq_add_assoc(base, acc, dec_int(top as int));
        acc = acc + dec_int(top as int);
    }
    out.append("px;letter-spacing:");
    proof {
        seq_add_assoc(base, acc, "px;letter-spacing:"@);
        acc = acc + "px;letter-spacing:"@;
    }
    push_dec_i64(out, ls);
    proof {
        seq_add_assoc(base, acc, dec_int(ls as int));
        acc = acc + dec_int(ls as int);
    }
    out.append("px;\"");
    proof {
        seq_add_assoc(base, acc, "px;\""@);
        acc = acc + "px;\""@;
        assert(acc == span_inner(c, *s, cc));
    }
    push_char(out, '>');
    proof {
        seq_add_assoc(old(out)@, seq!['<'], acc);
        seq_add_assoc(old(out)@, seq!['<'] + acc, seq!['>']);
        assert(out@ == old(out)@ + tag(span_inner(c, *s, cc)));
    }
    let ghost t1 = tag(span_inner(c, *s, cc));
    push_escaped_char(out, c);
    proof {
        seq_add_assoc(old(out)@, t1, esc_char(c));
    }
    let ghost a1 = t1 + esc_char(c);
    push_char(out, '<');
    out.append("/span");
    proof {
        seq_add_assoc(old(out)@ + a1, seq!['<'], "/span"@);
    }
    push_char(out, '>');
    proof {
        seq_add_assoc(old(out)@ + a1, seq!['<'] + "/span"@, seq!['>']);
        seq_add_assoc(old(out)@, a1, tag("/span"@));
        assert(out@ == old(out)@ + span_html(c, *s, cc));
    }
    Ghost(cc)
}

/// Renders one paragraph: draws its line height, then renders each of its
/// characters and wraps the spans in the paragraph's block element.
#[verifier::loop_isolation(false)]
#[verifier::rlimit(100)]
fn render_paragraph(out: &mut String, line: &Vec<char>, s: &TextSettings, sampler: &Sampler) -> (g:
    Ghost<ParaChoice>)
    requires
        valid_settings(*s),
    ensures
        para_choice_valid(g@, line@, *s),
        final(out)@ == old(out)@ + para_html(line@, *s, g@),
        sampler is Minimum ==> g@ == min_para_choice(line@, *s),
{
    let j = sampler.jitter(s.line_spacing_random);
    let lh0: i64 = s.line_spacing as i64 + j as i64;
    let lh: i64 = if lh0 < 0 {
        0
    } else {
        lh0
    };
    proof {
        assert(lh as int == line_height_of(*s, j as int));
    }
    push_char(out, '<');
    out.append("p style=\"line-height:");
    push_dec_i64(out, lh);
    out.append("px;text-indent:");
    push_dec_i64(out, s.indent_size as i64);
    out.append("em;margin:0;padding:0;\"");
    push_char(out, '>');
    proof {
        assert(out@ =~= old(out)@ + tag(para_inner(line_height_of(*s, j as int), *s)));
    }
    let ghost opened = out@;
    let ghost mut ccs: Seq<CharChoice> = Seq::empty();
    let mut k: usize = 0;
    proof {
        assert(spans_html(line@.take(0), *s, ccs) =~= Seq::<char>::empty());
        assert(out@ =~= opened + spans_html(line@.take(0), *s, ccs));
    }
    while k < line.len()
        invariant
            0 <= k <= line@.len(),
            ccs.len() == k,
            forall|q: int| 0 <= q < k ==> char_choice_valid(#[trigger] ccs[q], *s),
            out@ == opened + spans_html(line@.take(k as int), *s, ccs),
            sampler is Minimum ==> ccs =~= Seq::new(k as nat, |q: int| min_char_choice(*s)),
        decreases line@.len() - k,
    {
        let gc = render_span(out, line[k], s, sampler);
        proof {
            assert(line@.take(k + 1).drop_last() =~= line@.take(k as int));
            assert(ccs.push(gc@).drop_last() =~= ccs);
            assert(out@ =~= opened + spans_html(line@.take(k + 1), *s, ccs.push(gc@)));
            if sampler is Minimum {
                assert(ccs.push(gc@) =~= Seq::new((k + 1) as nat, |q: int| min_char_choice(*s)));
            }
        }
        proof {
            ccs = ccs.push(gc@);
        }
        k += 1;
    }
    proof {
        assert(line@.take(line@.len() as int) =~= line@);
    }
    push_char(out, '<');
    out.append("/p");
    push_char(out, '>');
    let ghost pc = ParaChoice { line_jitter: j as int, chars: ccs };
    proof {
        assert(out@ =~= old(out)@ + para_html(line@, *s, pc));
        if sampler is Minimum {
            assert(pc.chars =~= min_para_choice(line@, *s).chars);
        }
    }
    Ghost(pc)
}

/// The Styled-Text Renderer.
///
/// Splits the text on newlines, renders every character of every paragraph
/// as a styled span, wraps each paragraph in its block element and the
/// whole in the fixed outer wrapper.  The configuration is checked first:
/// an invalid one is rejected with `InvalidConfig` and no output.  The
/// output is exactly [`render_spec`] for the draws the sampler made; with
/// the `Minimum` sampler those draws are pinned, so the output is a
/// function of text and settings alone.
#[verifier::loop_isolation(false)]
pub fn process_text(text: &str, settings: &TextSettings, sampler: &Sampler) -> (r: Result<
    String,
    RenderError,
>)
    ensures
        r is Ok <==> valid_settings(*settings),
        !valid_settings(*settings) ==> r == Err::<String, RenderError>(RenderError::InvalidConfig),
        r matches Ok(out) ==> rendered_from(text@, *settings, out@),
        sampler is Minimum ==> (r matches Ok(out) ==> out@ == render_spec(
            text@,
            *settings,
            min_choices(text@, *settings),
        )),
{
    if let Err(e) = validate(settings) {
        return Err(e);
    }
    let chars = chars_of(text);
    let lines = split_lines(&chars);
    let ghost lv = lines_of(text@);
    let mut out = String::new();
    push_char(&mut out, '<');
    out.append("div style=\"font-size:18px;white-space:pre-wrap;word-break:break-all;\"");
    push_char(&mut out, '>');
    proof {
        assert(out@ =~= tag(div_inner()));
    }
    let ghost mut ch: Seq<ParaChoice> = Seq::empty();
    let mut p: usize = 0;
    proof {
        assert(paras_html(lv.take(0), *settings, ch) =~= Seq::<Seq<char>>::empty());
        assert(out@ =~= tag(div_inner()) + join_nl(paras_html(lv.take(0), *settings, ch)));
    }
    while p < lines.len()
        invariant
            0 <= p <= lines@.len(),
            ch.len() == p,
            forall|q: int| 0 <= q < p ==> para_choice_valid(#[trigger] ch[q], lv[q], *settings),
            out@ == tag(div_inner()) + join_nl(paras_html(lv.take(p as int), *settings, ch)),
            sampler is Minimum ==> ch =~= min_choices(text@, *settings).take(p as int),
        decreases lines@.len() - p,
    {
        if p > 0 {
            push_char(&mut out, '\n');
        }
        let gp = render_paragraph(&mut out, &lines[p], settings, sampler);
        proof {
            let next = paras_html(lv.take(p + 1), *settings, ch.push(gp@));
            assert(next.drop_last() =~= paras_html(lv.take(p as int), *settings, ch));
            assert(next.last() == para_html(lv[p as int], *settings, gp@));
            assert(out@ =~= tag(div_inner()) + join_nl(next));
            if sampler is Minimum {
                assert(ch.push(gp@) =~= min_choices(text@, *settings).take(p + 1));
            }
        }
        proof {
            ch = ch.push(gp@);
        }
        p += 1;
    }
    push_char(&mut out, '<');
    out.append("/div");
    push_char(&mut out, '>');
    proof {
        assert(lv.take(lv.len() as int) =~= lv);
        assert(choices_valid(ch, text@, *settings));
        assert(out@ =~= render_spec(text@, *settings, ch));
        if sampler is Minimum {
            assert(ch =~= min_choices(text@, *settings));
        }
    }
    Ok(out)
}

} // verus!
