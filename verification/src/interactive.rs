//! What a line of input means in interactive mode.

use vstd::prelude::*;
use vstd::string::StringExecFns;

verus! {

/// What the user asked for with one line of input.
#[derive(Clone, Debug)]
pub enum InteractiveInput {
    /// Nothing: the line is empty.
    Empty,
    /// To leave the program.
    Exit,
    /// To see the help.
    Help,
    /// A command, to be read as the command line is.
    Command(String),
}

/// A line without the white space at its start and at its end, as
/// `str::trim` gives it.
pub uninterp spec fn trimmed(text: Seq<char>) -> Seq<char>;

/// `str::trim` on an owned copy: the text without leading and trailing
/// white space, as Unicode defines it. The result is a function of the
/// text alone; it is named `trimmed` and nothing more is claimed of it.
#[verifier::external_body]
pub(crate) fn trim(line: &str) -> (text: String)
    ensures
        text@ == trimmed(line@),
{
    line.trim().to_string()
}

/// The input is what the text `text`, which has no white space around
/// it, means: nothing for the empty text, to leave for `exit`, `quit`, `q`
/// and `ex`, the help for `help` and `h`, and for every other text the
/// command that the text spells.
pub open spec fn means(input: InteractiveInput, text: Seq<char>) -> bool {
    if text.len() == 0 {
        input is Empty
    } else if text == "exit"@ || text == "quit"@ || text == "q"@ || text == "ex"@ {
        input is Exit
    } else if text == "help"@ || text == "h"@ {
        input is Help
    } else {
        input matches InteractiveInput::Command(line) && line@ == text
    }
}

/// Whether two texts are the same.
pub fn same_text(a: &str, b: &str) -> (same: bool)
    ensures
        same == (a@ == b@),
{
    let x = String::from_str(a);
    let y = String::from_str(b);
    x == y
}

/// What a line of input means that has no white space around it.
pub fn classify_trimmed(text: &str) -> (input: InteractiveInput)
    ensures
        means(input, text@),
{
    if text.unicode_len() == 0 {
        InteractiveInput::Empty
    } else if same_text(text, "exit") || same_text(text, "quit") || same_text(text, "q")
        || same_text(text, "ex") {
        InteractiveInput::Exit
    } else if same_text(text, "help") || same_text(text, "h") {
        InteractiveInput::Help
    } else {
        InteractiveInput::Command(String::from_str(text))
    }
}

/// What a line of input means: nothing, to leave, to see the help, or a
/// command. White space around the line does not count.
pub fn classify_input(line: &str) -> (input: InteractiveInput)
    ensures
        means(input, trimmed(line@)),
{
    let text = trim(line);
    classify_trimmed(text.as_str())
}

/// The words of a command line for a command given in interactive mode:
/// the name of the program, then the input.
pub fn command_line(input: &str) -> (line: String)
    ensures
        line@ == "rest-reminder "@ + input@,
{
    let mut line = String::from_str("rest-reminder ");
    line.append(input);
    line
}

} // verus!
