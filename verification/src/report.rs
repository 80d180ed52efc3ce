//! What the tool says on the console: coloured labels and the lines built from them.

use vstd::prelude::*;
use vstd::string::StringExecFns;

verus! {

/// The colours of the labels.
#[derive(Debug, Clone, Copy, PartialEq, Eq, Structural)]
pub enum Tint {
    Red,
    Green,
    Yellow,
    White,
}

impl Tint {
    /// The digit that selects the colour in an escape sequence for the foreground.
    pub open spec fn digit(self) -> char {
        match self {
            Tint::Red => '1',
            Tint::Green => '2',
            Tint::Yellow => '3',
            Tint::White => '7',
        }
    }
}

/// `text` between the escape sequence that switches to bold type in the colour `tint` and
/// the one that resets the terminal.
pub open spec fn bold_painted(tint: Tint, text: Seq<char>) -> Seq<char> {
    seq!['\u{1B}', '[', '1', ';', '3', tint.digit(), 'm'] + text + seq!['\u{1B}', '[', '0', 'm']
}

/// Paints `text` in bold type and the colour `tint`.
///
/// Trusted: the body asks `ansi_term` for the bold style of the colour
/// (`Colour::bold`), wraps the text in it (`Style::paint`) and formats the result. The
/// contract writes out what that formatting gives: the prefix `ESC [ 1 ; 3x m` with the
/// colour's digit `x`, the text unchanged, and the reset sequence `ESC [ 0 m`.
#[verifier::external_body]
pub(crate) fn paint_bold(tint: Tint, text: &str) -> (painted: String)
    ensures
        painted@ == bold_painted(tint, text@),
{
    let colour = match tint {
        Tint::Red => ansi_term::Colour::Red,
        Tint::Green => ansi_term::Colour::Green,
        Tint::Yellow => ansi_term::Colour::Yellow,
        Tint::White => ansi_term::Colour::White,
    };
    colour.bold().paint(text).to_string()
}

/// The line that reports `verb` in green and `subject` in white, indented by two spaces.
pub open spec fn progress_text(verb: Seq<char>, subject: Seq<char>) -> Seq<char> {
    "  "@ + bold_painted(Tint::Green, verb) + " "@ + bold_painted(Tint::White, subject)
}

/// The line that reports success.
pub open spec fn success_text() -> Seq<char> {
    "  "@ + bold_painted(Tint::Green, "Success"@)
}

/// Writes the line that reports `verb` in green and `subject` in white.
pub fn progress_line(verb: &str, subject: &str) -> (line: String)
    ensures
        line@ == progress_text(verb@, subject@),
{
    let mut line = "  ".to_string();
    let label = paint_bold(Tint::Green, verb);
    line.append(label.as_str());
    line.append(" ");
    let name = paint_bold(Tint::White, subject);
    line.append(name.as_str());
    line
}

/// Writes the line that announces the creation of the project `project_name`.
pub fn creating_line(project_name: &str) -> (line: String)
    ensures
        line@ == progress_text("Creating"@, project_name@),
{
    progress_line("Creating", project_name)
}

/// Writes the line that announces the build of the project `project_name`; it ends with a
/// space.
pub fn building_line(project_name: &str) -> (line: String)
    ensures
        line@ == progress_text("Building"@, project_name@) + " "@,
{
    let mut line = progress_line("Building", project_name);
    line.append(" ");
    line
}

/// Writes the line that announces the run of the project `project_name`.
pub fn running_line(project_name: &str) -> (line: String)
    ensures
        line@ == progress_text("Running"@, project_name@),
{
    progress_line("Running", project_name)
}

/// Writes the line that reports success.
pub fn success_line() -> (line: String)
    ensures
        line@ == success_text(),
{
    let mut line = "  ".to_string();
    let label = paint_bold(Tint::Green, "Success");
    line.append(label.as_str());
    line
}

} // verus!
