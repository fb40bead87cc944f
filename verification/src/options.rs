//! The display flags and the numbering mode derived from them.

use vstd::prelude::*;

verus! {

/// The display flags of one run. They are fixed before the first line is
/// read and never change afterwards.
#[derive(Clone, Copy, Debug, PartialEq, Eq, Structural)]
pub struct CatOptions {
    /// Number only the non-blank lines, starting at 1.
    pub number_non_blank: bool,
    /// Put a `$` in front of each line terminator.
    pub show_line_end: bool,
    /// Number every line, starting at 1. Has no effect when
    /// `number_non_blank` is set.
    pub number_all_lines: bool,
    /// Emit only the first line of each run of adjacent blank lines.
    pub ignore_adjacent_blanks: bool,
    /// Show each horizontal tab as `^I`.
    pub display_tab_symbol: bool,
    /// Show control and high-bit bytes in caret and meta notation. Tabs then
    /// stay literal, whatever `display_tab_symbol` says.
    pub show_unprintables: bool,
}

/// How lines are numbered, as decided by the two numbering flags together.
#[derive(Clone, Copy, Debug, PartialEq, Eq, Structural)]
pub enum LineNumberStyle {
    /// No line gets a number.
    Off,
    /// Every emitted line gets a number.
    All,
    /// Every emitted line that is not blank gets a number.
    NonEmpty,
}

impl CatOptions {
    /// The options with every flag off.
    pub open spec fn plain() -> CatOptions {
        CatOptions {
            number_non_blank: false,
            show_line_end: false,
            number_all_lines: false,
            ignore_adjacent_blanks: false,
            display_tab_symbol: false,
            show_unprintables: false,
        }
    }

    /// The numbering mode these flags ask for: `number_non_blank` wins over
    /// `number_all_lines`.
    pub open spec fn spec_line_number_style(self) -> LineNumberStyle {
        if self.number_non_blank {
            LineNumberStyle::NonEmpty
        } else if self.number_all_lines {
            LineNumberStyle::All
        } else {
            LineNumberStyle::Off
        }
    }

    /// Computes the numbering mode once, so that the per-line code need not
    /// weigh the two flags against each other again.
    #[verifier::when_used_as_spec(spec_line_number_style)]
    pub fn line_number_style(self) -> (style: LineNumberStyle)
        ensures
            style == self.spec_line_number_style(),
    {
        if self.number_non_blank {
            LineNumberStyle::NonEmpty
        } else if self.number_all_lines {
            LineNumberStyle::All
        } else {
            LineNumberStyle::Off
        }
    }
}

impl Default for CatOptions {
    fn default() -> (options: CatOptions)
        ensures
            options == CatOptions::plain(),
    {
        CatOptions {
            number_non_blank: false,
            show_line_end: false,
            number_all_lines: false,
            ignore_adjacent_blanks: false,
            display_tab_symbol: false,
            show_unprintables: false,
        }
    }
}

} // verus!
