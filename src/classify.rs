//! Decides which lines of build output are prose worth translating.
use vstd::prelude::*;
use vstd::utf8::encode_utf8;

use crate::text::{
    after_first, alphabetic, chars_of, contains_seq, find_char, has_infix, is_alphabetic,
    lower_of, lowercase, matches_at, skip_spaces, trim, trim_bounds, trim_start,
};

verus! {

/// Status and location lines of the build tool, judged on the lower-cased,
/// trimmed line.
pub open spec fn is_status_line(lower: Seq<char>) -> bool {
    "compiling"@.is_prefix_of(lower) || "checking"@.is_prefix_of(lower) || "finished"@.is_prefix_of(
        lower,
    ) || "-->"@.is_prefix_of(lower)
}

/// A numbered gutter line of a code frame.
pub open spec fn is_gutter(t: Seq<char>) -> bool {
    t.len() > 0 && '0' <= t[0] && t[0] <= '9' && t.contains('|')
}

/// A line with a pipe whose text after the first pipe is not an underline
/// or caret marker.
pub open spec fn is_frame_text(line: Seq<char>) -> bool {
    line.contains('|') && !starts_with_marker(trim_start(after_first(line, '|')))
}

pub open spec fn starts_with_marker(a: Seq<char>) -> bool {
    a.len() > 0 && (a[0] == '-' || a[0] == '^')
}

/// The lower-cased line names a kind of diagnostic.
pub open spec fn has_keyword(lower: Seq<char>) -> bool {
    contains_seq(lower, "error"@) || contains_seq(lower, "warning"@) || contains_seq(lower, "note"@)
        || contains_seq(lower, "help"@)
}

/// Length of the line's UTF-8 encoding, as `str::len` gives it.
pub open spec fn byte_len(line: Seq<char>) -> usize {
    encode_utf8(line).len() as usize
}

/// Between 15 and 120 bytes long (both excluded), with a letter in it.
pub open spec fn prose_shaped(line: Seq<char>) -> bool {
    15 < byte_len(line) && byte_len(line) < 120 && exists|i: int|
        0 <= i < line.len() && #[trigger] alphabetic(line[i])
}

/// The classification of `line`, given `lower`, the lower-cased form of the
/// trimmed line.
pub open spec fn classify(line: Seq<char>, lower: Seq<char>) -> bool {
    &&& !is_status_line(lower)
    &&& !is_gutter(trim(line))
    &&& trim(line) != seq!['|']
    &&& !is_frame_text(line)
    &&& (has_keyword(lower) || prose_shaped(line))
}

/// Whether the line is translated.
pub open spec fn translation_wanted(line: Seq<char>) -> bool {
    classify(line, lower_of(trim(line)))
}

fn starts_with_str(s: &Vec<char>, p: &str) -> (r: bool)
    ensures
        r == p@.is_prefix_of(s@),
{
    let pv = chars_of(p);
    let r = matches_at(s, &pv, 0);
    proof {
        if r {
            assert(s@.subrange(0, pv@.len() as int) == pv@);
        }
    }
    r
}

fn contains_str(s: &Vec<char>, p: &str) -> (r: bool)
    ensures
        r == contains_seq(s@, p@),
{
    let pv = chars_of(p);
    has_infix(s, &pv)
}

fn has_letter(s: &Vec<char>) -> (r: bool)
    ensures
        r == exists|i: int| 0 <= i < s@.len() && #[trigger] alphabetic(s@[i]),
{
    let mut i: usize = 0;
    while i < s.len()
        invariant
            i <= s.len(),
            forall|j: int| 0 <= j < i ==> !#[trigger] alphabetic(s@[j]),
        decreases s.len() - i,
    {
        if is_alphabetic(s[i]) {
            return true;
        }
        i = i + 1;
    }
    false
}

/// The classification of `line`, where `lower` is the lower-cased form of
/// the trimmed line.
pub fn should_translate_folded(line: &str, lower: &str) -> (r: bool)
    ensures
        r == classify(line@, lower@),
{
    let lw = chars_of(lower);
    if starts_with_str(&lw, "compiling") || starts_with_str(&lw, "checking") || starts_with_str(
        &lw,
        "finished",
    ) || starts_with_str(&lw, "-->") {
        return false;
    }
    let chars = chars_of(line);
    let (a, b) = trim_bounds(&chars);
    let ghost t = trim(line@);
    assert(t == chars@.subrange(a as int, b as int));
    assert(forall|k: int| 0 <= k < t.len() ==> t[k] == chars@[a + k]);
    let pipe = find_char(&chars, '|');
    if a < b && '0' <= chars[a] && chars[a] <= '9' {
        let mut k: usize = a;
        while k < b
            invariant
                a <= k <= b <= chars.len(),
                forall|m: int| a <= m < k ==> chars@[m] != '|',
                t == chars@.subrange(a as int, b as int),
                a < b,
                chars@ == line@,
                t == trim(line@),
                '0' <= chars@[a as int] <= '9',
            decreases b - k,
        {
            if chars[k] == '|' {
                assert(t[k - a] == chars@[k as int]);
                assert(t[0] == chars@[a as int]);
                assert(t.contains('|'));
                return false;
            }
            k = k + 1;
        }
        assert(!t.contains('|')) by {
            assert forall|m: int| 0 <= m < t.len() implies t[m] != '|' by {
                assert(t[m] == chars@[a + m]);
            }
        }
    }
    assert(!is_gutter(t)) by {
        if t.len() > 0 {
            assert(t[0] == chars@[a as int]);
        }
    }
    if b - a == 1 && chars[a] == '|' {
        assert(t =~= seq!['|']);
        return false;
    }
    assert(t != seq!['|']) by {
        if t == seq!['|'] {
            assert(t[0] == chars@[a as int]);
        }
    }
    match pipe {
        Some(i) => {
            let j = skip_spaces(&chars, i + 1);
            let ghost rest = trim_start(after_first(line@, '|'));
            assert(rest == chars@.subrange(j as int, chars.len() as int));
            if j >= chars.len() || (chars[j] != '-' && chars[j] != '^') {
                assert(line@.contains('|'));
                return false;
            }
            assert(rest[0] == chars@[j as int]);
        },
        None => {},
    }
    if contains_str(&lw, "error") || contains_str(&lw, "warning") || contains_str(&lw, "note")
        || contains_str(&lw, "help") {
        return true;
    }
    let n = line.len();
    15 < n && n < 120 && has_letter(&chars)
}

/// Whether the line is translated: neither a status, location or frame line
/// of the build tool, and either naming a kind of diagnostic or shaped like a
/// sentence.
pub fn should_translate(line: &str) -> (r: bool)
    ensures
        r == translation_wanted(line@),
{
    let chars = chars_of(line);
    let (a, b) = trim_bounds(&chars);
    let t = line.substring_char(a, b);
    let lower = lowercase(t);
    should_translate_folded(line, lower.as_str())
}

/// Classification is a function of the line's text alone: equal lines are
/// classified alike, however often they are asked about.
pub proof fn classification_is_deterministic(a: Seq<char>, b: Seq<char>)
    requires
        a == b,
    ensures
        translation_wanted(a) == translation_wanted(b),
{
}

} // verus!
