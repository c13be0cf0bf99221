//! BlueZ object paths and the signal-strength replies of `dbus-send`.
use vstd::prelude::*;

use crate::text::{
    append_str, bytes_to_text_lossy, chars_of, lines_exec, parse_i16_exec, replace_char,
    replace_char_exec, spec_parse_i16, starts_with, starts_with_chars, str_to_uppercase,
    string_from, sub_chars, text_lines, trim, trim_chars, unicode_uppercase, utf8_lossy,
};

verus! {

/// The BlueZ object path of the device with address `mac` on the first adapter.
pub open spec fn spec_bluez_device_path(mac: Seq<char>) -> Seq<char> {
    "/org/bluez/hci0/dev_"@ + replace_char(unicode_uppercase(mac), ':', '_')
}

/// The value of the first line that, trimmed, starts with `int16 `; `None` when that value
/// does not parse or no line does.
pub open spec fn first_int16_value(lines: Seq<Seq<char>>) -> Option<i16>
    decreases lines.len(),
{
    if lines.len() == 0 {
        None
    } else {
        let t = trim(lines[0]);
        if starts_with(t, "int16 "@) {
            spec_parse_i16(t.skip(6))
        } else {
            first_int16_value(lines.drop_first())
        }
    }
}

/// The value of the first line after a line starting with `variant` that, trimmed, starts
/// with `int16 ` (lines starting with `variant` are not read for a value).
pub open spec fn variant_int16_value(lines: Seq<Seq<char>>, saw_variant: bool) -> Option<i16>
    decreases lines.len(),
{
    if lines.len() == 0 {
        None
    } else {
        let t = trim(lines[0]);
        if starts_with(t, "variant"@) {
            variant_int16_value(lines.drop_first(), true)
        } else if saw_variant && starts_with(t, "int16 "@) {
            spec_parse_i16(t.skip(6))
        } else {
            variant_int16_value(lines.drop_first(), saw_variant)
        }
    }
}

/// The BlueZ object path of the device with the given address.
pub fn bluez_device_path(mac: &str) -> (path: String)
    ensures
        path@ == spec_bluez_device_path(mac@),
{
    let upper = str_to_uppercase(mac);
    let upper_chars = chars_of(upper.as_str());
    let replaced = replace_char_exec(upper_chars.as_slice(), ':', '_');
    let tail = string_from(replaced.as_slice());
    let mut path = String::from_str("/org/bluez/hci0/dev_");
    append_str(&mut path, tail.as_str());
    path
}

/// The `int16` value in the reply of a `ReadRSSI` method call.
pub fn parse_dbus_int16_reply(stdout: &[u8]) -> (r: Option<i16>)
    ensures
        r == first_int16_value(text_lines(utf8_lossy(stdout@))),
{
    let text = bytes_to_text_lossy(stdout);
    let chars = chars_of(text.as_str());
    let lines = lines_exec(chars.as_slice());
    let ghost ls = text_lines(utf8_lossy(stdout@));
    let prefix = chars_of("int16 ");
    let mut k: usize = 0;
    proof {
        reveal_strlit("int16 ");
        assert(ls.skip(0) =~= ls);
    }
    while k < lines.len()
        invariant
            lines@.len() == ls.len(),
            ls == text_lines(utf8_lossy(stdout@)),
            forall|j: int| 0 <= j < ls.len() ==> #[trigger] lines@[j]@ == ls[j],
            prefix@ == "int16 "@,
            prefix@.len() == 6,
            k <= ls.len(),
            first_int16_value(ls) == first_int16_value(ls.skip(k as int)),
        decreases ls.len() - k,
    {
        let trimmed = trim_chars(lines[k].as_slice());
        proof {
            assert(lines@[k as int]@ == ls[k as int]);
            assert(ls.skip(k as int)[0] == ls[k as int]);
            assert(ls.skip(k as int).drop_first() =~= ls.skip(k + 1));
        }
        if starts_with_chars(trimmed.as_slice(), prefix.as_slice()) {
            let rest = sub_chars(trimmed.as_slice(), 6, trimmed.len());
            proof {
                assert(rest@ =~= trimmed@.skip(6));
            }
            return parse_i16_exec(rest.as_slice());
        }
        k += 1;
    }
    None
}

/// The `int16` value inside the variant of a `Properties.Get` reply.
pub fn parse_dbus_variant_int16(stdout: &[u8]) -> (r: Option<i16>)
    ensures
        r == variant_int16_value(text_lines(utf8_lossy(stdout@)), false),
{
    let text = bytes_to_text_lossy(stdout);
    let chars = chars_of(text.as_str());
    let lines = lines_exec(chars.as_slice());
    let ghost ls = text_lines(utf8_lossy(stdout@));
    let variant = chars_of("variant");
    let prefix = chars_of("int16 ");
    let mut saw_variant = false;
    let mut k: usize = 0;
    proof {
        reveal_strlit("int16 ");
        assert(ls.skip(0) =~= ls);
    }
    while k < lines.len()
        invariant
            lines@.len() == ls.len(),
            ls == text_lines(utf8_lossy(stdout@)),
            forall|j: int| 0 <= j < ls.len() ==> #[trigger] lines@[j]@ == ls[j],
            prefix@ == "int16 "@,
            prefix@.len() == 6,
            variant@ == "variant"@,
            k <= ls.len(),
            variant_int16_value(ls, false) == variant_int16_value(ls.skip(k as int), saw_variant),
        decreases ls.len() - k,
    {
        let trimmed = trim_chars(lines[k].as_slice());
        proof {
            assert(lines@[k as int]@ == ls[k as int]);
            assert(ls.skip(k as int)[0] == ls[k as int]);
            assert(ls.skip(k as int).drop_first() =~= ls.skip(k + 1));
        }
        if starts_with_chars(trimmed.as_slice(), variant.as_slice()) {
            saw_variant = true;
        } else if saw_variant && starts_with_chars(trimmed.as_slice(), prefix.as_slice()) {
            let rest = sub_chars(trimmed.as_slice(), 6, trimmed.len());
            proof {
                assert(rest@ =~= trimmed@.skip(6));
            }
            return parse_i16_exec(rest.as_slice());
        }
        k += 1;
    }
    None
}

} // verus!
