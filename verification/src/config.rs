//! Colours and the source of the text.

use crate::text::TextSource;
use vstd::prelude::*;
use vstd::string::*;

verus! {

#[derive(Debug)]
pub struct Config {
    /// ANSI color for incorrectly typed character
    pub fg_miss: u8,
    /// ANSI color for untyped character
    pub fg_empty: u8,
    /// ANSI color for results line
    pub fg_results: u8,
    /// The way we get text for our practice sessions
    pub text_source: TextSource,
}

impl Config {
    /// The configuration used when none is given: red misses and results, grey
    /// untyped text, and lines of the program's own source as the text.
    pub fn new() -> (c: Self)
        ensures
            c.fg_miss == 1,
            c.fg_empty == 8,
            c.fg_results == 1,
            c.text_source matches TextSource::File(path) && path@ == "src/main.rs"@,
    {
        Self {
            fg_miss: 1,
            fg_empty: 8,
            fg_results: 1,
            text_source: TextSource::File(String::from_str("src/main.rs")),
        }
    }
}

} // verus!
