//! Normalization of a Bluetooth device address as typed or stored.
use vstd::prelude::*;

use crate::ble_error::BleError;
use crate::text::{
    chars_of, is_ascii_hex_digit, is_ascii_hex_digit_exec, replace_char, replace_char_exec,
    split_on, split_on_exec, str_to_lowercase, string_from, trim, trim_chars, unicode_lowercase,
};

verus! {

/// The address trimmed, lower-cased and with `-` separators turned into `:`.
pub open spec fn cleaned_address(mac: Seq<char>) -> Seq<char> {
    replace_char(unicode_lowercase(trim(mac)), '-', ':')
}

/// Two hexadecimal digits.
pub open spec fn is_hex_pair(part: Seq<char>) -> bool {
    part.len() == 2 && is_ascii_hex_digit(part[0]) && is_ascii_hex_digit(part[1])
}

/// Six colon-separated parts of two hexadecimal digits each.
pub open spec fn is_address_layout(cleaned: Seq<char>) -> bool {
    let parts = split_on(cleaned, ':');
    &&& parts.len() == 6
    &&& forall|k: int| 0 <= k < 6 ==> #[trigger] is_hex_pair(parts[k])
}

fn is_hex_pair_exec(part: &Vec<char>) -> (r: bool)
    ensures
        r == is_hex_pair(part@),
{
    part.len() == 2 && is_ascii_hex_digit_exec(part[0]) && is_ascii_hex_digit_exec(part[1])
}

/// The canonical lower-case, colon-separated form of a Bluetooth address, or `InvalidAddress`
/// holding the input when it is not six pairs of hexadecimal digits.
///
/// A part of two hexadecimal digits is two bytes long in UTF-8 as well, so checking the parts
/// by characters accepts exactly the addresses that a check by byte length would.
pub fn normalize_mac(mac: &str) -> (r: core::result::Result<String, BleError>)
    ensures
        is_address_layout(cleaned_address(mac@)) ==> r is Ok && r->Ok_0@ == cleaned_address(mac@),
        !is_address_layout(cleaned_address(mac@)) ==> (r matches Err(BleError::InvalidAddress(
            value,
        )) && value@ == mac@),
{
    let chars = chars_of(mac);
    let trimmed = trim_chars(chars.as_slice());
    let trimmed_text = string_from(trimmed.as_slice());
    let lowered = str_to_lowercase(trimmed_text.as_str());
    let lowered_chars = chars_of(lowered.as_str());
    let cleaned = replace_char_exec(lowered_chars.as_slice(), '-', ':');
    let parts = split_on_exec(cleaned.as_slice(), ':');
    let mut valid = parts.len() == 6;
    if valid {
        let mut k: usize = 0;
        while k < 6
            invariant
                parts@.len() == 6,
                parts@.len() == split_on(cleaned@, ':').len(),
                forall|j: int|
                    0 <= j < parts@.len() ==> #[trigger] parts@[j]@ == split_on(cleaned@, ':')[j],
                k <= 6,
                valid == (forall|j: int|
                    0 <= j < k ==> #[trigger] is_hex_pair(split_on(cleaned@, ':')[j])),
            decreases 6 - k,
        {
            let ok = is_hex_pair_exec(&parts[k]);
            proof {
                assert(parts@[k as int]@ == split_on(cleaned@, ':')[k as int]);
            }
            valid = valid && ok;
            k += 1;
        }
    }
    if !valid {
        return Err(BleError::InvalidAddress(String::from_str(mac)));
    }
    Ok(string_from(cleaned.as_slice()))
}

} // verus!
