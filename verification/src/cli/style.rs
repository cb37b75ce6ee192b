//! Terminal styling: a small ANSI palette that is either on or off.
//!
//! Colors are raw ANSI escapes. When output is not a terminal, `NO_COLOR` is set,
//! or `--no-color` is passed, every helper returns the plain text.

use vstd::prelude::*;

use crate::text::{owned, push_str};

verus! {

/// Applies (or omits) ANSI colors.
#[derive(Clone, Copy)]
pub struct Style {
    color: bool,
}

/// `text` wrapped in the ANSI code `code` when `color`, else `text` itself.
pub open spec fn painted(color: bool, code: Seq<char>, text: Seq<char>) -> Seq<char> {
    if color {
        "\u{1b}["@ + code + "m"@ + text + "\u{1b}[0m"@
    } else {
        text
    }
}

impl Style {
    /// Whether this style colorizes.
    pub closed spec fn spec_color(&self) -> bool {
        self.color
    }

    /// A style that colorizes exactly when `color` is set.
    pub fn with_color(color: bool) -> (s: Self)
        ensures
            s.spec_color() == color,
    {
        Style { color }
    }

    /// Decides whether to colorize: only on a terminal, with no `NO_COLOR` in the
    /// environment and no `--no-color` flag.
    pub fn detect(no_color: bool, no_color_env: bool, is_terminal: bool) -> (s: Self)
        ensures
            s.spec_color() == (!no_color && !no_color_env && is_terminal),
    {
        Style { color: !no_color && !no_color_env && is_terminal }
    }

    /// Wraps `text` in an ANSI code when colorizing.
    fn paint(&self, code: &str, text: &str) -> (s: String)
        ensures
            s@ == painted(self.spec_color(), code@, text@),
    {
        if self.color {
            let mut s = owned("\u{1b}[");
            push_str(&mut s, code);
            push_str(&mut s, "m");
            push_str(&mut s, text);
            push_str(&mut s, "\u{1b}[0m");
            s
        } else {
            owned(text)
        }
    }

    /// Green (success).
    pub fn green(&self, text: &str) -> (s: String)
        ensures
            s@ == painted(self.spec_color(), "32"@, text@),
    {
        self.paint("32", text)
    }

    /// Red (error).
    pub fn red(&self, text: &str) -> (s: String)
        ensures
            s@ == painted(self.spec_color(), "31"@, text@),
    {
        self.paint("31", text)
    }

    /// Yellow (warning / changed).
    pub fn yellow(&self, text: &str) -> (s: String)
        ensures
            s@ == painted(self.spec_color(), "33"@, text@),
    {
        self.paint("33", text)
    }

    /// Cyan (revisions / headers).
    pub fn cyan(&self, text: &str) -> (s: String)
        ensures
            s@ == painted(self.spec_color(), "36"@, text@),
    {
        self.paint("36", text)
    }

    /// Dim (secondary text).
    pub fn dim(&self, text: &str) -> (s: String)
        ensures
            s@ == painted(self.spec_color(), "2"@, text@),
    {
        self.paint("2", text)
    }

    /// Bold (emphasis).
    pub fn bold(&self, text: &str) -> (s: String)
        ensures
            s@ == painted(self.spec_color(), "1"@, text@),
    {
        self.paint("1", text)
    }
}

} // verus!
