//! Styled-text renderer: turns plain text and a styling configuration into an
//! HTML fragment in which every character carries its own randomized style
//! (font family, size, slant, weight, positional and letter-spacing jitter),
//! simulating handwritten text.

pub mod fontsel;
pub mod laws;
pub mod model;
pub mod render;
pub mod sampler;
pub mod settings;
pub mod strfmt;
