use owo_colors::OwoColorize;
use vstd::prelude::*;

verus! {

/// The ANSI escape sequence `ESC [ code m`.
pub open spec fn ansi(code: Seq<char>) -> Seq<char> {
    seq!['\x1b', '['] + code + seq!['m']
}

/// `text` in the foreground colour with ANSI code `code`, followed by the
/// reset to the default foreground colour.
pub open spec fn fg(code: Seq<char>, text: Seq<char>) -> Seq<char> {
    ansi(code) + text + ansi(seq!['3', '9'])
}

/// `text` in green.
pub open spec fn green_spec(text: Seq<char>) -> Seq<char> {
    fg(seq!['3', '2'], text)
}

/// `text` in red.
pub open spec fn red_spec(text: Seq<char>) -> Seq<char> {
    fg(seq!['3', '1'], text)
}

/// `text` in yellow.
pub open spec fn yellow_spec(text: Seq<char>) -> Seq<char> {
    fg(seq!['3', '3'], text)
}

/// `text` in blue.
pub open spec fn blue_spec(text: Seq<char>) -> Seq<char> {
    fg(seq!['3', '4'], text)
}

/// `text` in bold, followed by the reset of all attributes.
pub open spec fn bold_spec(text: Seq<char>) -> Seq<char> {
    ansi(seq!['1']) + text + ansi(seq!['0'])
}

/// Renders `text` with `OwoColorize::green`. Claims: the output is the
/// escape `ESC[32m`, the text, and `ESC[39m`, as the `FgColorDisplay`
/// formatter of `owo-colors` writes it.
#[verifier::external_body]
pub(crate) fn green(text: &str) -> (r: String)
    ensures
        r@ == green_spec(text@),
{
    text.green().to_string()
}

/// Renders `text` with `OwoColorize::red`. Claims: the output is the escape
/// `ESC[31m`, the text, and `ESC[39m`.
#[verifier::external_body]
pub(crate) fn red(text: &str) -> (r: String)
    ensures
        r@ == red_spec(text@),
{
    text.red().to_string()
}

/// Renders `text` with `OwoColorize::yellow`. Claims: the output is the
/// escape `ESC[33m`, the text, and `ESC[39m`.
#[verifier::external_body]
pub(crate) fn yellow(text: &str) -> (r: String)
    ensures
        r@ == yellow_spec(text@),
{
    text.yellow().to_string()
}

/// Renders `text` with `OwoColorize::blue`. Claims: the output is the
/// escape `ESC[34m`, the text, and `ESC[39m`.
#[verifier::external_body]
pub(crate) fn blue(text: &str) -> (r: String)
    ensures
        r@ == blue_spec(text@),
{
    text.blue().to_string()
}

/// Renders `text` with `OwoColorize::bold`. Claims: the output is the
/// escape `ESC[1m`, the text, and `ESC[0m`, as the `BoldDisplay` formatter
/// writes it.
#[verifier::external_body]
pub(crate) fn bold(text: &str) -> (r: String)
    ensures
        r@ == bold_spec(text@),
{
    text.bold().to_string()
}

} // verus!
