//! Model and serial number from a detector's serial or Bluetooth advertisement name.
use vstd::prelude::*;

use crate::text::{
    append_str, chars_of, eq_ignore_ascii_case, eq_ignore_ascii_case_chars, find_char,
    find_char_exec, string_from, sub_chars, trim, trim_chars,
};

verus! {

/// The model of a serial such as `RC-110-006806`: its first two dash-separated parts joined by a
/// dash, or `Unknown` when either is missing or empty.
pub open spec fn spec_model_from_serial(s: Seq<char>) -> Seq<char> {
    let i = find_char(s, '-');
    if i == s.len() {
        "Unknown"@
    } else {
        let prefix = s.subrange(0, i as int);
        let rest = s.subrange(i + 1int, s.len() as int);
        let code = rest.subrange(0, find_char(rest, '-') as int);
        if prefix.len() > 0 && code.len() > 0 {
            prefix + "-"@ + code
        } else {
            "Unknown"@
        }
    }
}

/// The serial in an advertisement name `RadiaCode#<serial>`: the prefix before the first `#`
/// must read `radiacode` in any ASCII case, and the text after it, trimmed, must not be empty.
pub open spec fn spec_serial_from_advertisement(s: Seq<char>) -> Option<Seq<char>> {
    let i = find_char(s, '#');
    if i == s.len() {
        None
    } else if !eq_ignore_ascii_case(s.subrange(0, i as int), "radiacode"@) {
        None
    } else {
        let serial = trim(s.subrange(i + 1int, s.len() as int));
        if serial.len() == 0 {
            None
        } else {
            Some(serial)
        }
    }
}

proof fn lemma_find_char_le(s: Seq<char>, c: char)
    ensures
        find_char(s, c) <= s.len(),
    decreases s.len(),
{
    if s.len() > 0 && s[0] != c {
        lemma_find_char_le(s.drop_first(), c);
    }
}

fn model_from_serial_chars(s: &[char]) -> (model: String)
    ensures
        model@ == spec_model_from_serial(s@),
{
    let i = find_char_exec(s, '-');
    proof {
        lemma_find_char_le(s@, '-');
    }
    if i == s.len() {
        return String::from_str("Unknown");
    }
    let prefix = sub_chars(s, 0, i);
    let rest = sub_chars(s, i + 1, s.len());
    let j = find_char_exec(rest.as_slice(), '-');
    proof {
        lemma_find_char_le(rest@, '-');
    }
    let code = sub_chars(rest.as_slice(), 0, j);
    if prefix.len() > 0 && code.len() > 0 {
        let mut model = string_from(prefix.as_slice());
        append_str(&mut model, "-");
        let code_text = string_from(code.as_slice());
        append_str(&mut model, code_text.as_str());
        model
    } else {
        String::from_str("Unknown")
    }
}

/// The model part of a serial, `Unknown` when the serial has no two non-empty leading parts.
pub fn model_from_serial(serial: &str) -> (model: String)
    ensures
        model@ == spec_model_from_serial(serial@),
{
    let s = chars_of(serial);
    model_from_serial_chars(s.as_slice())
}

/// The serial announced in a Bluetooth advertisement name, if the name is a detector's.
pub fn serial_from_advertisement(name: &str) -> (serial: Option<String>)
    ensures
        match spec_serial_from_advertisement(name@) {
            Some(expected) => serial is Some && serial->0@ == expected,
            None => serial is None,
        },
{
    let s = chars_of(name);
    let i = find_char_exec(s.as_slice(), '#');
    proof {
        lemma_find_char_le(s@, '#');
    }
    if i == s.len() {
        return None;
    }
    let prefix = sub_chars(s.as_slice(), 0, i);
    let expected = chars_of("radiacode");
    if !eq_ignore_ascii_case_chars(prefix.as_slice(), expected.as_slice()) {
        return None;
    }
    let rest = sub_chars(s.as_slice(), i + 1, s.len());
    let serial = trim_chars(rest.as_slice());
    if serial.len() == 0 {
        return None;
    }
    Some(string_from(serial.as_slice()))
}

/// The model announced in a Bluetooth advertisement name, if the name is a detector's.
pub fn model_from_advertisement(name: &str) -> (model: Option<String>)
    ensures
        match spec_serial_from_advertisement(name@) {
            Some(serial) => model is Some && model->0@ == spec_model_from_serial(serial),
            None => model is None,
        },
{
    match serial_from_advertisement(name) {
        Some(serial) => Some(model_from_serial(serial.as_str())),
        None => None,
    }
}

proof fn lemma_find_char_concat(a: Seq<char>, b: Seq<char>, c: char)
    requires
        forall|i: int| 0 <= i < a.len() ==> a[i] != c,
    ensures
        find_char(a + b, c) == a.len() + find_char(b, c),
    decreases a.len(),
{
    if a.len() > 0 {
        assert((a + b).drop_first() =~= a.drop_first() + b);
        lemma_find_char_concat(a.drop_first(), b, c);
    } else {
        assert(a + b =~= b);
    }
}

/// The model of a serial is its first two dash-separated parts, whatever follows them.
pub proof fn law_model_is_first_two_parts(prefix: Seq<char>, code: Seq<char>, tail: Seq<char>)
    requires
        prefix.len() > 0,
        code.len() > 0,
        forall|i: int| 0 <= i < prefix.len() ==> prefix[i] != '-',
        forall|i: int| 0 <= i < code.len() ==> code[i] != '-',
        tail.len() == 0 || tail[0] == '-',
    ensures
        spec_model_from_serial(prefix + "-"@ + code + tail) == prefix + "-"@ + code,
{
    reveal_strlit("-");
    let s = prefix + "-"@ + code + tail;
    assert(s =~= prefix + ("-"@ + code + tail));
    lemma_find_char_concat(prefix, "-"@ + code + tail, '-');
    let i = prefix.len();
    assert(s.subrange(0, i as int) =~= prefix);
    let rest = s.subrange(i + 1int, s.len() as int);
    assert(rest =~= code + tail);
    lemma_find_char_concat(code, tail, '-');
    assert(rest.subrange(0, code.len() as int) =~= code);
}

/// An advertisement name `<prefix>#<text>` whose prefix reads `radiacode` in any ASCII case
/// announces the trimmed text as the serial, unless nothing is left of it.
pub proof fn law_advertised_serial_is_trimmed_text(prefix: Seq<char>, text: Seq<char>)
    requires
        eq_ignore_ascii_case(prefix, "radiacode"@),
        forall|i: int| 0 <= i < prefix.len() ==> prefix[i] != '#',
    ensures
        spec_serial_from_advertisement(prefix + "#"@ + text) == if trim(text).len() == 0 {
            None
        } else {
            Some(trim(text))
        },
{
    reveal_strlit("#");
    let s = prefix + "#"@ + text;
    assert(s =~= prefix + ("#"@ + text));
    lemma_find_char_concat(prefix, "#"@ + text, '#');
    assert(s.subrange(0, prefix.len() as int) =~= prefix);
    assert(s.subrange(prefix.len() + 1int, s.len() as int) =~= text);
}

} // verus!
