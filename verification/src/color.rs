//! Terminal colours for status messages.

use vstd::prelude::*;

verus! {

/// A colour of the 256-colour terminal palette, or `End` to go back to the
/// default foreground.
#[derive(Debug, Clone, Copy, PartialEq, Eq, Structural)]
pub enum CL {
    Pink,
    Purple,
    Green,
    DullGreen,
    Blue,
    DullRed,
    Red,
    Orange,
    Teal,
    DullTeal,
    Dull,
    End,
}

impl CL {
    /// The escape sequence that switches a terminal to this colour.
    pub open spec fn escape(self) -> Seq<char> {
        match self {
            CL::Pink => "\x1b[38;5;201m"@,
            CL::Purple => "\x1b[38;5;135m"@,
            CL::Green => "\x1b[38;5;46m"@,
            CL::DullGreen => "\x1b[38;5;29m"@,
            CL::Blue => "\x1b[38;5;27m"@,
            CL::DullRed => "\x1b[38;5;124m"@,
            CL::Red => "\x1b[38;5;196m"@,
            CL::Orange => "\x1b[38;5;208m"@,
            CL::Teal => "\x1b[38;5;14m"@,
            CL::DullTeal => "\x1b[38;5;153m"@,
            CL::Dull => "\x1b[38;5;8m"@,
            CL::End => "\x1b[37m"@,
        }
    }

    /// The escape sequence as a borrowed string.
    pub fn as_str(&self) -> (s: &'static str)
        ensures
            s@ == self.escape(),
    {
        match self {
            CL::Pink => "\x1b[38;5;201m",
            CL::Purple => "\x1b[38;5;135m",
            CL::Green => "\x1b[38;5;46m",
            CL::DullGreen => "\x1b[38;5;29m",
            CL::Blue => "\x1b[38;5;27m",
            CL::DullRed => "\x1b[38;5;124m",
            CL::Red => "\x1b[38;5;196m",
            CL::Orange => "\x1b[38;5;208m",
            CL::Teal => "\x1b[38;5;14m",
            CL::DullTeal => "\x1b[38;5;153m",
            CL::Dull => "\x1b[38;5;8m",
            CL::End => "\x1b[37m",
        }
    }

    /// The escape sequence as an owned string.
    pub fn to_string(&self) -> (s: String)
        ensures
            s@ == self.escape(),
    {
        self.as_str().to_owned()
    }
}

/// Every escape sequence selects a rendition: it begins with the escape
/// character and an opening bracket, ends with `m`, and holds only digits
/// and semicolons in between.
pub proof fn lemma_escape_shape(colour: CL)
    ensures
        colour.escape().len() >= 4,
        colour.escape()[0] == '\x1b',
        colour.escape()[1] == '[',
        colour.escape().last() == 'm',
        forall|i: int|
            2 <= i < colour.escape().len() - 1 ==> {
                let c = #[trigger] colour.escape()[i];
                c == ';' || ('0' <= c && c <= '9')
            },
{
    reveal_strlit("\x1b[38;5;201m");
    reveal_strlit("\x1b[38;5;135m");
    reveal_strlit("\x1b[38;5;46m");
    reveal_strlit("\x1b[38;5;29m");
    reveal_strlit("\x1b[38;5;27m");
    reveal_strlit("\x1b[38;5;124m");
    reveal_strlit("\x1b[38;5;196m");
    reveal_strlit("\x1b[38;5;208m");
    reveal_strlit("\x1b[38;5;14m");
    reveal_strlit("\x1b[38;5;153m");
    reveal_strlit("\x1b[38;5;8m");
    reveal_strlit("\x1b[37m");
}

} // verus!
