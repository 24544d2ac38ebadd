//! The styling configuration and its validation.
//!
//! A configuration is valid when both lists are non-empty, every font size is
//! positive, both probability denominators are positive, and every jitter
//! bound is non-negative.  Rendering rejects anything else up front with
//! [`RenderError::InvalidConfig`], before any output is produced.

use vstd::prelude::*;
use vstd::string::StringExecFns;

verus! {

/// Styling configuration for the renderer.
///
/// `font_names` is ordered: by convention the first entry is the digit font
/// and the last entry is the punctuation/Latin font.  The `*_random` fields
/// bound a symmetric random deviation around the matching base offset; the
/// probabilities are "1 in N" odds; `indent_size` is the first-line indent in
/// `em` units.
pub struct TextSettings {
    pub font_sizes: Vec<i32>,
    pub font_names: Vec<String>,
    pub line_spacing: i32,
    pub line_spacing_random: i32,
    pub spacing_offset: i32,
    pub spacing_offset_random: i32,
    pub position_offset: i32,
    pub position_offset_random: i32,
    pub italic_probability: i32,
    pub bold_probability: i32,
    pub indent_size: i32,
}

/// The single error of the renderer: the configuration is unusable.
#[derive(Clone, Copy, PartialEq, Eq, Structural, Debug)]
pub enum RenderError {
    InvalidConfig,
}

impl RenderError {
    /// A human-readable description of the error.
    pub fn describe(&self) -> (r: String)
        ensures
            r@ == "invalid configuration: font lists must be non-empty, font sizes and probability denominators positive, jitter bounds non-negative"@,
    {
        String::from_str(
            "invalid configuration: font lists must be non-empty, font sizes and probability denominators positive, jitter bounds non-negative",
        )
    }
}

/// What it means for a configuration to be acceptable to the renderer.
pub open spec fn valid_settings(s: TextSettings) -> bool {
    &&& s.font_sizes@.len() > 0
    &&& (forall|i: int| 0 <= i < s.font_sizes@.len() ==> #[trigger] s.font_sizes@[i] > 0)
    &&& s.font_names@.len() > 0
    &&& s.italic_probability > 0
    &&& s.bold_probability > 0
    &&& s.line_spacing_random >= 0
    &&& s.spacing_offset_random >= 0
    &&& s.position_offset_random >= 0
}

/// Checks a configuration, accepting exactly the valid ones.
#[verifier::loop_isolation(false)]
pub fn validate(s: &TextSettings) -> (r: Result<(), RenderError>)
    ensures
        r is Ok <==> valid_settings(*s),
        !valid_settings(*s) ==> r == Err::<(), RenderError>(RenderError::InvalidConfig),
{
    if s.font_sizes.len() == 0 || s.font_names.len() == 0 {
        return Err(RenderError::InvalidConfig);
    }
    if s.italic_probability <= 0 || s.bold_probability <= 0 {
        return Err(RenderError::InvalidConfig);
    }
    if s.line_spacing_random < 0 || s.spacing_offset_random < 0 || s.position_offset_random < 0 {
        return Err(RenderError::InvalidConfig);
    }
    let mut i: usize = 0;
    while i < s.font_sizes.len()
        invariant
            0 <= i <= s.font_sizes@.len(),
            forall|j: int| 0 <= j < i ==> #[trigger] s.font_sizes@[j] > 0,
        decreases s.font_sizes@.len() - i,
    {
        if s.font_sizes[i] <= 0 {
            return Err(RenderError::InvalidConfig);
        }
        i += 1;
    }
    Ok(())
}

} // verus!
