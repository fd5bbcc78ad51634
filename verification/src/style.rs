//! The coloured labels and the lines that go to the error stream.

use nu_ansi_term::Color;
use vstd::prelude::*;
use vstd::string::StringExecFns;

verus! {

/// The colour of a label.
#[derive(Clone, Copy, Debug, PartialEq, Eq, Structural)]
pub enum Tint {
    Yellow,
    Cyan,
}

/// The two digits by which a terminal knows the colour.
pub open spec fn tint_code(tint: Tint) -> Seq<char> {
    match tint {
        Tint::Yellow => "33"@,
        Tint::Cyan => "36"@,
    }
}

/// `text` between the escape sequence that turns on bold type in the colour
/// `tint`, and the one that resets the terminal.
pub open spec fn bold_painted(tint: Tint, text: Seq<char>) -> Seq<char> {
    "\u{1b}[1;"@ + tint_code(tint) + "m"@ + text + "\u{1b}[0m"@
}

/// Paints `text` bold in the colour `tint`, by `nu_ansi_term::Color::bold`,
/// `Style::paint` and the `Display` of the painted string: the text between
/// the sequence `ESC [ 1 ; <colour> m` and the reset sequence `ESC [ 0 m`.
#[verifier::external_body]
pub(crate) fn paint_bold(tint: Tint, text: &str) -> (painted: String)
    ensures
        painted@ == bold_painted(tint, text@),
{
    let color = match tint {
        Tint::Yellow => Color::Yellow,
        Tint::Cyan => Color::Cyan,
    };
    color.bold().paint(text).to_string()
}

/// A label as it is shown: painted where the stream takes colours, else bare.
pub open spec fn label_text(supports_color: bool, tint: Tint, text: Seq<char>) -> Seq<char> {
    if supports_color {
        bold_painted(tint, text)
    } else {
        text
    }
}

/// Writes a label, painted where the stream takes colours.
pub fn label(supports_color: bool, tint: Tint, text: &str) -> (shown: String)
    ensures
        shown@ == label_text(supports_color, tint, text@),
{
    if supports_color {
        paint_bold(tint, text)
    } else {
        text.to_owned()
    }
}

/// The line that tells the user something: the label `info:`, a space, the
/// message and a line feed.
pub open spec fn info_text(supports_color: bool, message: Seq<char>) -> Seq<char> {
    label_text(supports_color, Tint::Cyan, "info:"@) + " "@ + message + "\n"@
}

/// The line to print for a piece of information: none where the user asked
/// for quiet.
pub fn info(quiet: bool, supports_color: bool, message: &str) -> (line: Option<String>)
    ensures
        quiet ==> line is None,
        !quiet ==> line is Some && line->0@ == info_text(supports_color, message@),
{
    if quiet {
        None
    } else {
        let mut line = label(supports_color, Tint::Cyan, "info:");
        line.append(" ");
        line.append(message);
        line.append("\n");
        Some(line)
    }
}

/// `true` or `false`.
pub open spec fn bool_text(b: bool) -> Seq<char> {
    if b {
        "true"@
    } else {
        "false"@
    }
}

/// Writes `true` or `false`.
pub fn bool_str(b: bool) -> (text: &'static str)
    ensures
        text@ == bool_text(b),
{
    if b {
        "true"
    } else {
        "false"
    }
}

} // verus!
