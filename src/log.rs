//! Tagged log lines.
use vstd::prelude::*;
use colored::Colorize;

verus! {

/// Relies on `colored`'s `cyan`: the tag in cyan, or as it is where the
/// environment turns colour off, so nothing is promised of the text.
#[verifier::external_body]
fn cyan_tag(s: &str) -> (r: String) {
    s.cyan().to_string()
}

/// Relies on `colored`'s `red`: the tag in red, or as it is where the
/// environment turns colour off, so nothing is promised of the text.
#[verifier::external_body]
fn red_tag(s: &str) -> (r: String) {
    s.red().to_string()
}

/// A log line: the tag, a space, the text.
pub fn log_line(tag: &str, text: &str) -> (r: String)
    ensures
        r@ == tag@ + " "@ + text@,
{
    let mut r = tag.to_string();
    r.append(" ");
    r.append(text);
    r
}

/// The line that reports `text` as information.
pub fn info(text: String) -> (r: String)
    ensures
        exists|tag: Seq<char>| r@ == tag + " "@ + text@,
{
    let tag = cyan_tag("[INFO]");
    log_line(tag.as_str(), text.as_str())
}

/// The line that reports `text` as an error.
pub fn error(text: String) -> (r: String)
    ensures
        exists|tag: Seq<char>| r@ == tag + " "@ + text@,
{
    let tag = red_tag("[ERROR]");
    log_line(tag.as_str(), text.as_str())
}

} // verus!
