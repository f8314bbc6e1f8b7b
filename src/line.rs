//! What becomes of one line of build output.
use vstd::prelude::*;

use crate::classify::{should_translate, translation_wanted};
use crate::text::{chars_of, string_of, strip_escapes, trim, trim_bounds, without_escapes};

verus! {

/// A line is printed as it came, or printed with the translation of its key.
pub enum LineAction {
    Plain,
    Translate(String),
}

/// What to do with the raw line: its text without escape sequences is
/// classified, and where it is translated, that text trimmed is the key.
pub fn prepare_line(raw: &str) -> (r: LineAction)
    ensures
        r matches LineAction::Plain ==> !translation_wanted(without_escapes(raw@)),
        r matches LineAction::Translate(key) ==> translation_wanted(without_escapes(raw@))
            && key@ == trim(without_escapes(raw@)),
{
    let clean = strip_escapes(raw);
    if should_translate(clean.as_str()) {
        let chars = chars_of(clean.as_str());
        let (a, b) = trim_bounds(&chars);
        LineAction::Translate(string_of(&chars, a, b))
    } else {
        LineAction::Plain
    }
}

/// The raw line followed by its translation in parentheses.
pub fn annotate(raw: &str, translation: &str) -> (r: String)
    ensures
        r@ == raw@ + " ("@ + translation@ + ")"@,
{
    let mut r = String::from_str(raw);
    r.append(" (");
    r.append(translation);
    r.append(")");
    r
}

} // verus!
