//! Searching the spectrogram library: which recordings match, and the count line.
use vstd::prelude::*;

use crate::text::{
    append_str, chars_of, contains_chars, contains_seq, decimal, decimal_string, str_to_lowercase,
    string_from, trim, trim_chars, unicode_lowercase,
};

verus! {

/// The text searched for: the filter trimmed and lower-cased.
pub open spec fn spec_filter_needle(filter: Seq<char>) -> Seq<char> {
    unicode_lowercase(trim(filter))
}

/// A recording matches a non-empty needle when its name, comment or device serial (a missing
/// serial reads as empty), lower-cased, contains it.
pub open spec fn spec_recording_matches(
    needle: Seq<char>,
    name: Seq<char>,
    comment: Seq<char>,
    device_serial: Seq<char>,
) -> bool {
    ||| needle.len() == 0
    ||| contains_seq(unicode_lowercase(name), needle)
    ||| contains_seq(unicode_lowercase(comment), needle)
    ||| contains_seq(unicode_lowercase(device_serial), needle)
}

/// The text a library filter searches for.
pub fn filter_needle(filter: &str) -> (needle: String)
    ensures
        needle@ == spec_filter_needle(filter@),
{
    let chars = chars_of(filter);
    let trimmed = trim_chars(chars.as_slice());
    let trimmed_text = string_from(trimmed.as_slice());
    str_to_lowercase(trimmed_text.as_str())
}

fn lowered_contains(text: &str, needle: &[char]) -> (r: bool)
    ensures
        r == contains_seq(unicode_lowercase(text@), needle@),
{
    let lowered = str_to_lowercase(text);
    let chars = chars_of(lowered.as_str());
    contains_chars(chars.as_slice(), needle)
}

/// Whether a recording is shown for the needle; every recording is shown for an empty one.
pub fn recording_matches(
    needle: &str,
    name: &str,
    comment: &str,
    device_serial: Option<&str>,
) -> (shown: bool)
    ensures
        shown == spec_recording_matches(
            needle@,
            name@,
            comment@,
            match device_serial {
                Some(s) => s@,
                None => ""@,
            },
        ),
{
    let n = chars_of(needle);
    if n.len() == 0 {
        return true;
    }
    let serial = match device_serial {
        Some(s) => s,
        None => "",
    };
    lowered_contains(name, n.as_slice()) || lowered_contains(comment, n.as_slice())
        || lowered_contains(serial, n.as_slice())
}

/// The line under the library search box.
pub open spec fn spec_recording_count_text(filter: Seq<char>, matched: usize, total: usize) -> Seq<
    char,
> {
    if trim(filter).len() == 0 {
        if total == 0 {
            "No recordings"@
        } else if total == 1 {
            "1 recording"@
        } else {
            decimal(total as nat) + " recordings"@
        }
    } else if matched == 0 {
        "No matches in "@ + decimal(total as nat) + " recordings"@
    } else {
        decimal(matched as nat) + " of "@ + decimal(total as nat) + " recordings"@
    }
}

/// The line under the library search box: how many recordings there are, or how many match.
pub fn recording_count_text(filter: &str, matched_count: usize, total_count: usize) -> (text:
    String)
    ensures
        text@ == spec_recording_count_text(filter@, matched_count, total_count),
{
    let chars = chars_of(filter);
    let trimmed = trim_chars(chars.as_slice());
    if trimmed.len() == 0 {
        if total_count == 0 {
            String::from_str("No recordings")
        } else if total_count == 1 {
            String::from_str("1 recording")
        } else {
            let mut t = decimal_string(total_count as u64);
            append_str(&mut t, " recordings");
            t
        }
    } else if matched_count == 0 {
        let mut t = String::from_str("No matches in ");
        let total = decimal_string(total_count as u64);
        append_str(&mut t, total.as_str());
        append_str(&mut t, " recordings");
        t
    } else {
        let mut t = decimal_string(matched_count as u64);
        append_str(&mut t, " of ");
        let total = decimal_string(total_count as u64);
        append_str(&mut t, total.as_str());
        append_str(&mut t, " recordings");
        t
    }
}

/// A recording is shown whenever the needle is empty or occurs in its name, comment or serial
/// once that field is lower-cased; every field is searched alike, so exchanging two of them
/// changes nothing, and a field only counts through its lower-cased form.
pub proof fn law_search_ignores_case_in_every_field(
    needle: Seq<char>,
    name: Seq<char>,
    comment: Seq<char>,
    serial: Seq<char>,
    other: Seq<char>,
)
    ensures
        needle.len() == 0 ==> spec_recording_matches(needle, name, comment, serial),
        contains_seq(unicode_lowercase(name), needle) ==> spec_recording_matches(
            needle,
            name,
            comment,
            serial,
        ),
        contains_seq(unicode_lowercase(comment), needle) ==> spec_recording_matches(
            needle,
            name,
            comment,
            serial,
        ),
        contains_seq(unicode_lowercase(serial), needle) ==> spec_recording_matches(
            needle,
            name,
            comment,
            serial,
        ),
        spec_recording_matches(needle, name, comment, serial) == spec_recording_matches(
            needle,
            comment,
            name,
            serial,
        ),
        spec_recording_matches(needle, name, comment, serial) == spec_recording_matches(
            needle,
            serial,
            comment,
            name,
        ),
        unicode_lowercase(other) == unicode_lowercase(comment) ==> spec_recording_matches(
            needle,
            name,
            comment,
            serial,
        ) == spec_recording_matches(needle, name, other, serial),
        unicode_lowercase(other) == unicode_lowercase(name) ==> spec_recording_matches(
            needle,
            name,
            comment,
            serial,
        ) == spec_recording_matches(needle, other, comment, serial),
{
}

} // verus!
