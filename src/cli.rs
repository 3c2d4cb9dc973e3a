use vstd::prelude::*;

verus! {

/// A command of the interactive loop.
#[derive(Debug, Clone, Copy, PartialEq, Eq)]
pub enum CliCommand {
    TogglePlay,
    Prev,
    Next,
    Quit,
    Invalid,
}

/// The command that a trimmed input line spells.
pub open spec fn command_of(token: Seq<char>) -> CliCommand {
    if token.len() != 1 {
        CliCommand::Invalid
    } else if token[0] == 'p' {
        CliCommand::TogglePlay
    } else if token[0] == 'j' {
        CliCommand::Prev
    } else if token[0] == 'k' {
        CliCommand::Next
    } else if token[0] == 'q' {
        CliCommand::Quit
    } else {
        CliCommand::Invalid
    }
}

/// The characters with Unicode's White_Space property, as `char::is_whitespace`
/// reads them.
pub open spec fn is_white_space(c: char) -> bool {
    let u = c as u32;
    ||| 0x09 <= u <= 0x0d
    ||| u == 0x20
    ||| u == 0x85
    ||| u == 0xa0
    ||| u == 0x1680
    ||| 0x2000 <= u <= 0x200a
    ||| u == 0x2028
    ||| u == 0x2029
    ||| u == 0x202f
    ||| u == 0x205f
    ||| u == 0x3000
}

/// `s` without its leading white space.
pub open spec fn trim_start(s: Seq<char>) -> Seq<char>
    decreases s.len(),
{
    if s.len() > 0 && is_white_space(s[0]) {
        trim_start(s.drop_first())
    } else {
        s
    }
}

/// `s` without its trailing white space.
pub open spec fn trim_end(s: Seq<char>) -> Seq<char>
    decreases s.len(),
{
    if s.len() > 0 && is_white_space(s.last()) {
        trim_end(s.drop_last())
    } else {
        s
    }
}

/// `s` without its leading and trailing white space.
pub open spec fn trim(s: Seq<char>) -> Seq<char> {
    trim_end(trim_start(s))
}

/// Relies on `str::trim`: the string without its leading and trailing
/// characters that have Unicode's White_Space property.
#[verifier::external_body]
fn trimmed(s: &str) -> (r: &str)
    ensures
        r@ == trim(s@),
{
    s.trim()
}

/// The interactive loop's reading of user input.
pub struct CliView;

impl CliView {
    /// The command spelled by an already trimmed token: `p` toggles play,
    /// `j` goes back, `k` goes on, `q` quits.
    pub fn command_from_token(token: &str) -> (r: CliCommand)
        ensures
            r == command_of(token@),
    {
        if token.unicode_len() != 1 {
            return CliCommand::Invalid;
        }
        let c = token.get_char(0);
        if c == 'p' {
            CliCommand::TogglePlay
        } else if c == 'j' {
            CliCommand::Prev
        } else if c == 'k' {
            CliCommand::Next
        } else if c == 'q' {
            CliCommand::Quit
        } else {
            CliCommand::Invalid
        }
    }

    /// The command on an input line, white space around it ignored.
    pub fn parse_command(line: &str) -> (r: CliCommand)
        ensures
            r == command_of(trim(line@)),
    {
        CliView::command_from_token(trimmed(line))
    }
}

} // verus!
