use styledtext::fontsel::select_font_for_char;
use styledtext::render::process_text;
use styledtext::sampler::Sampler;
use styledtext::settings::{validate, RenderError, TextSettings};

fn base_settings() -> TextSettings {
    TextSettings {
        font_sizes: vec![16],
        font_names: vec!["Body".to_string(), "Hand".to_string()],
        line_spacing: 24,
        line_spacing_random: 0,
        spacing_offset: 0,
        spacing_offset_random: 0,
        position_offset: 0,
        position_offset_random: 0,
        italic_probability: 1000000,
        bold_probability: 1000000,
        indent_size: 2,
    }
}

fn count_occurrences(haystack: &str, needle: &str) -> usize {
    haystack.matches(needle).count()
}

fn angle_balanced(s: &str) -> bool {
    let mut depth: i64 = 0;
    for c in s.chars() {
        if c == '<' {
            depth += 1;
        } else if c == '>' {
            depth -= 1;
            if depth < 0 {
                return false;
            }
        }
    }
    depth == 0
}

const SPAN_HI_H: &str = "<span style=\"display:inline-block;font-family:'Hand';font-size:16px;font-style:normal;font-weight:normal;position:relative;top:0px;letter-spacing:0px;\">H</span>";
const SPAN_HI_I: &str = "<span style=\"display:inline-block;font-family:'Hand';font-size:16px;font-style:normal;font-weight:normal;position:relative;top:0px;letter-spacing:0px;\">i</span>";

#[test]
fn scenario_hi_minimum() {
    let s = base_settings();
    let out = process_text("Hi", &s, &Sampler::Minimum).unwrap();
    let expected = format!(
        "<div style=\"font-size:18px;white-space:pre-wrap;word-break:break-all;\"><p style=\"line-height:24px;text-indent:2em;margin:0;padding:0;\">{}{}</p></div>",
        SPAN_HI_H, SPAN_HI_I
    );
    assert_eq!(out, expected);
    assert_eq!(count_occurrences(&out, "<p "), 1);
    assert_eq!(count_occurrences(&out, "<span "), 2);
    assert_eq!(count_occurrences(&out, "font-family:'Hand'"), 2);
    assert_eq!(count_occurrences(&out, "font-size:16px"), 2);
    assert!(out.contains("line-height:24px"));
    assert!(out.contains("text-indent:2em"));
    assert!(!out.contains("italic"));
    assert!(!out.contains("bold"));
}

#[test]
fn empty_text_is_one_empty_paragraph() {
    let s = base_settings();
    let out = process_text("", &s, &Sampler::Minimum).unwrap();
    let expected = "<div style=\"font-size:18px;white-space:pre-wrap;word-break:break-all;\"><p style=\"line-height:24px;text-indent:2em;margin:0;padding:0;\"></p></div>";
    assert_eq!(out, expected);
    assert_eq!(count_occurrences(&out, "<p "), 1);
    assert_eq!(count_occurrences(&out, "<span "), 0);
}

#[test]
fn paragraph_count_matches_newlines() {
    let s = base_settings();
    let out = process_text("a\nbc\n", &s, &Sampler::System).unwrap();
    assert_eq!(count_occurrences(&out, "<p "), 3);
    assert_eq!(count_occurrences(&out, "</p>"), 3);
    assert_eq!(count_occurrences(&out, "</p>\n<p "), 2);
}

#[test]
fn span_count_matches_characters() {
    let s = base_settings();
    let out = process_text("a\nbc\n", &s, &Sampler::System).unwrap();
    assert_eq!(count_occurrences(&out, "<span "), 3);
    assert_eq!(count_occurrences(&out, "</span>"), 3);
    let unicode = process_text("\u{4f60}\u{597d}\u{1f600}", &s, &Sampler::System).unwrap();
    assert_eq!(count_occurrences(&unicode, "<span "), 3);
}

#[test]
fn minimum_sampler_is_reproducible() {
    let s = base_settings();
    let a = process_text("same text\ntwice", &s, &Sampler::Minimum).unwrap();
    let b = process_text("same text\ntwice", &s, &Sampler::Minimum).unwrap();
    assert_eq!(a, b);
}

#[test]
fn special_characters_are_escaped() {
    let s = base_settings();
    let out = process_text("a<b&c\"d>e", &s, &Sampler::System).unwrap();
    assert_eq!(count_occurrences(&out, "<span "), 9);
    assert!(out.contains("&lt;"));
    assert!(out.contains("&gt;"));
    assert!(out.contains("&amp;"));
    assert!(out.contains("&quot;"));
    assert!(angle_balanced(&out));
}

#[test]
fn output_is_balanced_markup() {
    let s = base_settings();
    for text in ["", "plain", "two\nlines", "<>&\"", "mix<ed\n&lines\n"] {
        let out = process_text(text, &s, &Sampler::System).unwrap();
        assert!(angle_balanced(&out), "unbalanced output for {:?}", text);
    }
}

#[test]
fn minimum_sampler_jitter_lower_bounds() {
    let mut s = base_settings();
    s.line_spacing = 10;
    s.line_spacing_random = 4;
    s.spacing_offset = 3;
    s.spacing_offset_random = 2;
    s.position_offset = -2;
    s.position_offset_random = 1;
    let out = process_text("x", &s, &Sampler::Minimum).unwrap();
    assert!(out.contains("line-height:6px"));
    assert!(out.contains("letter-spacing:1px"));
    assert!(out.contains("top:-3px"));
}

#[test]
fn line_height_clamps_at_zero() {
    let mut s = base_settings();
    s.line_spacing = 2;
    s.line_spacing_random = 5;
    let out = process_text("x", &s, &Sampler::Minimum).unwrap();
    assert!(out.contains("line-height:0px"));
}

#[test]
fn certain_probabilities_style_every_character() {
    let mut s = base_settings();
    s.italic_probability = 1;
    s.bold_probability = 1;
    let out = process_text("ab", &s, &Sampler::Minimum).unwrap();
    assert_eq!(count_occurrences(&out, "font-style:italic"), 2);
    assert_eq!(count_occurrences(&out, "font-weight:bold"), 2);
}

#[test]
fn large_font_sizes_are_printed_in_full() {
    let mut s = base_settings();
    s.font_sizes = vec![1234];
    let out = process_text("x", &s, &Sampler::Minimum).unwrap();
    assert!(out.contains("font-size:1234px"));
}

#[test]
fn invalid_settings_are_rejected() {
    let mut empty_sizes = base_settings();
    empty_sizes.font_sizes = vec![];
    assert!(matches!(
        process_text("x", &empty_sizes, &Sampler::System),
        Err(RenderError::InvalidConfig)
    ));

    let mut empty_names = base_settings();
    empty_names.font_names = vec![];
    assert!(matches!(validate(&empty_names), Err(RenderError::InvalidConfig)));

    let mut zero_prob = base_settings();
    zero_prob.italic_probability = 0;
    assert!(matches!(validate(&zero_prob), Err(RenderError::InvalidConfig)));

    let mut negative_size = base_settings();
    negative_size.font_sizes = vec![16, -1];
    assert!(matches!(validate(&negative_size), Err(RenderError::InvalidConfig)));

    let mut negative_jitter = base_settings();
    negative_jitter.line_spacing_random = -1;
    assert!(matches!(validate(&negative_jitter), Err(RenderError::InvalidConfig)));

    assert!(validate(&base_settings()).is_ok());
    assert!(!RenderError::InvalidConfig.describe().is_empty());
}

fn abc() -> Vec<String> {
    vec!["A".to_string(), "B".to_string(), "C".to_string()]
}

#[test]
fn font_selector_digits_take_first_font() {
    for c in ['0', '5', '9'] {
        assert_eq!(select_font_for_char(c, &abc(), &Sampler::System), "A");
    }
}

#[test]
fn font_selector_latin_takes_last_font() {
    for c in ['a', 'Z', '.', '(', ')'] {
        assert_eq!(select_font_for_char(c, &abc(), &Sampler::System), "C");
    }
}

#[test]
fn font_selector_cjk_punctuation_takes_last_font() {
    for c in [
        '\u{3002}', '\u{ff0c}', '\u{3001}', '\u{ff1b}', '\u{ff1a}', '\u{ff01}', '\u{ff1f}',
        '\u{2018}', '\u{2019}', '\u{201c}', '\u{201d}', '\u{ff08}', '\u{ff09}',
    ] {
        assert_eq!(select_font_for_char(c, &abc(), &Sampler::System), "C");
    }
}

#[test]
fn font_selector_fallback_draws_from_the_list() {
    let fonts = abc();
    for _ in 0..32 {
        let picked = select_font_for_char('\u{4e2d}', &fonts, &Sampler::System);
        assert!(fonts.contains(&picked));
    }
    assert_eq!(select_font_for_char('\u{4e2d}', &fonts, &Sampler::Minimum), "A");
}

#[test]
fn random_draws_stay_inside_their_bounds() {
    let mut s = base_settings();
    s.font_sizes = vec![10, 20, 30];
    s.line_spacing = 20;
    s.line_spacing_random = 3;
    let out = process_text("y", &s, &Sampler::System).unwrap();
    let sizes = ["font-size:10px", "font-size:20px", "font-size:30px"];
    assert!(sizes.iter().any(|needle| out.contains(needle)));
    let heights = [
        "line-height:17px",
        "line-height:18px",
        "line-height:19px",
        "line-height:20px",
        "line-height:21px",
        "line-height:22px",
        "line-height:23px",
    ];
    assert!(heights.iter().any(|needle| out.contains(needle)));
}
