use vstd::prelude::*;

use crate::color::{color_name_seq, spec_parse_color, Color};

verus! {

/// Why a configuration could not be built from the raw arguments.
#[derive(Clone, Copy, PartialEq, Eq, Structural, Debug)]
pub enum ConfigError {
    /// The color name is not one of the recognized names.
    UnknownColor,
}

/// The validated configuration of one scan: the literal pattern searched
/// for, the highlight color, and whether line numbers are shown.
#[derive(Debug)]
pub struct Config {
    pub pattern: Vec<u8>,
    pub color: Color,
    pub line_number: bool,
}

impl Config {
    /// Builds a configuration from raw argument values. Succeeds exactly
    /// when `color_name` is one of the recognized color names; any pattern,
    /// the empty one included, is accepted.
    pub fn new(pattern: Vec<u8>, color_name: &Vec<u8>, line_number: bool) -> (r: Result<
        Config,
        ConfigError,
    >)
        ensures
            match r {
                Ok(cfg) => {
                    &&& spec_parse_color(color_name@) == Some(cfg.color)
                    &&& color_name@ == color_name_seq(cfg.color)
                    &&& cfg.pattern@ == pattern@
                    &&& cfg.line_number == line_number
                },
                Err(e) => {
                    &&& spec_parse_color(color_name@) is None
                    &&& forall|c: Color| color_name@ != color_name_seq(c)
                    &&& e == ConfigError::UnknownColor
                },
            },
    {
        match crate::color::parse_color(color_name) {
            Some(color) => Ok(Config { pattern, color, line_number }),
            None => Err(ConfigError::UnknownColor),
        }
    }
}

} // verus!
