//! Decoding of the firmware-version reply.
use vstd::prelude::*;

use crate::buffer::{
    bytes_to_chars, le_u16_at, le_u16_bytes, le_u32_at, lemma_le_u16_round_trip, BytesBuffer,
};
use crate::error::{Error, Result};
use crate::text::decimal;

verus! {

/// One firmware image's version and build date.
#[derive(Debug, Clone, PartialEq)]
pub struct FirmwareVersion {
    pub major: u16,
    pub minor: u16,
    pub date: String,
}

/// Versions of the boot loader and of the target firmware.
#[derive(Debug, Clone, PartialEq)]
pub struct DeviceVersions {
    pub boot: FirmwareVersion,
    pub target: FirmwareVersion,
}

impl View for FirmwareVersion {
    type V = (u16, u16, Seq<char>);

    open spec fn view(&self) -> (u16, u16, Seq<char>) {
        (self.major, self.minor, self.date@)
    }
}

impl View for DeviceVersions {
    type V = ((u16, u16, Seq<char>), (u16, u16, Seq<char>));

    open spec fn view(&self) -> Self::V {
        (self.boot@, self.target@)
    }
}

/// `s` without its trailing NUL characters.
pub open spec fn trim_nul_end(s: Seq<char>) -> Seq<char>
    decreases s.len(),
{
    if s.len() > 0 && s.last() == '\0' {
        trim_nul_end(s.drop_last())
    } else {
        s
    }
}

/// Offset of the boot date's length byte and of the target version.
pub open spec fn fw_target_at(s: Seq<u8>) -> int {
    5 + s[4]
}

/// Length of the version layout at the front of `s` (boot minor, boot major, boot date,
/// target minor, target major, target date); `None` when `s` ends before it does.
pub open spec fn fw_layout_len(s: Seq<u8>) -> Option<nat> {
    if s.len() < 5 {
        None
    } else {
        let p = fw_target_at(s);
        if s.len() < p + 5 {
            None
        } else {
            let q = p + 5 + s[p + 4];
            if s.len() < q {
                None
            } else {
                Some(q as nat)
            }
        }
    }
}

/// The versions that a reply body `s` holds, when it holds exactly the version layout.
pub open spec fn spec_fw_body(s: Seq<u8>) -> Option<((u16, u16, Seq<char>), (u16, u16, Seq<char>))> {
    match fw_layout_len(s) {
        Some(q) if q == s.len() => {
            let p = fw_target_at(s);
            Some(
                (
                    (le_u16_at(s, 2), le_u16_at(s, 0), bytes_to_chars(s.subrange(5, p))),
                    (
                        le_u16_at(s, p + 2),
                        le_u16_at(s, p),
                        trim_nul_end(bytes_to_chars(s.subrange(p + 5, q as int))),
                    ),
                ),
            )
        },
        _ => None,
    }
}

/// The error that decoding the reply body `s` reports.
pub open spec fn fw_body_error(s: Seq<u8>, e: Error) -> bool {
    match fw_layout_len(s) {
        None => e is BufferUnderrun,
        Some(q) => match e {
            Error::ProtocolMismatch { expected, got } => expected@ == "empty fw_version tail"@
                && got@ == decimal((s.len() - q) as nat) + " trailing bytes"@,
            _ => false,
        },
    }
}

/// The reply, then the reply with one trailing zero byte dropped after another while it is
/// longer than 51 bytes.
pub open spec fn trim_chain(s: Seq<u8>) -> Seq<Seq<u8>>
    decreases s.len(),
{
    if s.len() > 51 && s.last() == 0 {
        seq![s] + trim_chain(s.drop_last())
    } else {
        seq![s]
    }
}

/// The byte strings tried as version bodies, in order: the trimming chain, and, when the last
/// of it starts with a return code of 1, that last one without the code.
pub open spec fn spec_fw_candidates(s: Seq<u8>) -> Seq<Seq<u8>> {
    let chain = trim_chain(s);
    let t = chain.last();
    if t.len() >= 4 && le_u32_at(t, 0) == 1 {
        chain.push(t.skip(4))
    } else {
        chain
    }
}

/// The versions of the first candidate that decodes.
pub open spec fn first_decoded(cands: Seq<Seq<u8>>) -> Option<
    ((u16, u16, Seq<char>), (u16, u16, Seq<char>)),
>
    decreases cands.len(),
{
    if cands.len() == 0 {
        None
    } else {
        match spec_fw_body(cands[0]) {
            Some(v) => Some(v),
            None => first_decoded(cands.drop_first()),
        }
    }
}

proof fn lemma_trim_chain_first(s: Seq<u8>)
    ensures
        trim_chain(s).len() >= 1,
        trim_chain(s)[0] == s,
    decreases s.len(),
{
}

/// Decodes a firmware-version reply. The reply may carry trailing zero padding or a leading
/// return code; each such reading is tried in turn, and the first that decodes wins. When none
/// does, the error is the one that decoding the reply as it came reports.
pub fn decode_fw_version(response: BytesBuffer) -> (r: Result<DeviceVersions>)
    ensures
        first_decoded(spec_fw_candidates(response@)) is Some <==> r is Ok,
        r matches Ok(v) ==> v@ == first_decoded(spec_fw_candidates(response@))->0,
        r matches Err(e) ==> fw_body_error(response@, e),
{
    let ghost whole = response@;
    let candidates = decode_fw_version_candidates(response.clone());
    let ghost cands = spec_fw_candidates(whole);
    let mut i: usize = 0;
    proof {
        lemma_trim_chain_first(whole);
        assert(cands[0] == whole);
        assert(cands.skip(0) =~= cands);
    }
    while i < candidates.len()
        invariant
            candidates@.len() == cands.len(),
            whole == response@,
            cands == spec_fw_candidates(whole),
            forall|j: int| 0 <= j < cands.len() ==> #[trigger] candidates@[j]@ == cands[j],
            i <= cands.len(),
            first_decoded(cands) == first_decoded(cands.skip(i as int)),
            cands.len() >= 1,
            cands[0] == whole,
            spec_fw_body(whole) is None || i == 0,
        decreases cands.len() - i,
    {
        let candidate = candidates[i].clone();
        proof {
            assert(candidates@[i as int]@ == cands[i as int]);
            assert(candidate@ == cands[i as int]);
            assert(cands.skip(i as int).len() > 0);
            assert(cands.skip(i as int).drop_first() =~= cands.skip(i + 1));
            assert(cands.skip(i as int)[0] == cands[i as int]);
        }
        match decode_fw_version_body(candidate) {
            Ok(versions) => {
                return Ok(versions);
            },
            Err(_) => {},
        }
        i += 1;
    }
    assert(cands.skip(i as int).len() == 0);
    decode_fw_version_body(response)
}

/// Readings of a firmware-version reply worth trying, in order of preference.
fn decode_fw_version_candidates(response: BytesBuffer) -> (c: Vec<BytesBuffer>)
    ensures
        c@.len() == spec_fw_candidates(response@).len(),
        forall|j: int| 0 <= j < c@.len() ==> #[trigger] c@[j]@ == spec_fw_candidates(response@)[j],
{
    let ghost whole = response@;
    let mut response = response;
    let mut candidates: Vec<BytesBuffer> = Vec::new();
    candidates.push(response.clone());
    let ghost mut views: Seq<Seq<u8>> = seq![whole];
    while response.size() > 51 && response.peek(response.size() - 1) == 0
        invariant
            views.len() == candidates@.len(),
            views.len() >= 1,
            forall|j: int| 0 <= j < views.len() ==> #[trigger] candidates@[j]@ == views[j],
            views.last() == response@,
            trim_chain(whole) == views.drop_last() + trim_chain(response@),
        decreases response@.len(),
    {
        let size = response.size();
        let trimmed = vstd::slice::slice_to_vec(
            vstd::slice::slice_subrange(response.data(), 0, size - 1),
        );
        let ghost old_view = response@;
        response = BytesBuffer::new(trimmed);
        proof {
            assert(response@ =~= old_view.drop_last());
            assert(trim_chain(old_view) == seq![old_view] + trim_chain(response@));
            assert(views.push(response@).drop_last() =~= views);
            assert(views.drop_last() + seq![old_view] =~= views);
            assert(views.drop_last() + (seq![old_view] + trim_chain(response@)) =~= views
                + trim_chain(response@));
            views = views.push(response@);
        }
        candidates.push(response.clone());
    }
    proof {
        assert(trim_chain(response@) == seq![response@]);
        assert(views.drop_last() + seq![response@] =~= views);
    }
    if response.size() >= 4 {
        let mut skip_retcode = response.clone();
        match skip_retcode.take_u32_le() {
            Ok(code) => {
                if code == 1 {
                    candidates.push(skip_retcode);
                    proof {
                        views = views.push(response@.skip(4));
                    }
                }
            },
            Err(_) => {},
        }
    }
    proof {
        assert(views =~= spec_fw_candidates(whole));
    }
    candidates
}

/// Trailing NUL characters removed.
fn trim_nul_end_exec(s: String) -> (out: String)
    ensures
        out@ == trim_nul_end(s@),
{
    let chars = crate::text::chars_of(s.as_str());
    let mut end = chars.len();
    proof {
        assert(chars@.take(end as int) =~= chars@);
    }
    while end > 0 && chars[end - 1] == '\0'
        invariant
            end <= chars@.len(),
            trim_nul_end(chars@) == trim_nul_end(chars@.take(end as int)),
        decreases end,
    {
        proof {
            assert(chars@.take(end as int).drop_last() =~= chars@.take(end - 1));
        }
        end -= 1;
    }
    let kept = crate::text::sub_chars(chars.as_slice(), 0, end);
    proof {
        assert(kept@ =~= chars@.take(end as int));
    }
    crate::text::string_from(kept.as_slice())
}

/// Decodes the version layout, which must fill the body exactly.
fn decode_fw_version_body(response: BytesBuffer) -> (r: Result<DeviceVersions>)
    ensures
        spec_fw_body(response@) is Some <==> r is Ok,
        r matches Ok(v) ==> v@ == spec_fw_body(response@)->0,
        r matches Err(e) ==> fw_body_error(response@, e),
{
    let ghost s = response@;
    let mut response = response;
    let boot_minor = response.take_u16_le()?;
    let boot_major = response.take_u16_le()?;
    proof {
        assert(s.skip(2).skip(2) =~= s.skip(4));
    }
    let boot_date = response.take_length_prefixed_ascii()?;
    proof {
        assert(s.skip(4)[0] == s[4]);
        assert(s.skip(4).skip(1 + s[4]) =~= s.skip(fw_target_at(s)));
        assert(s.skip(4).subrange(1, 1 + s[4]) =~= s.subrange(5, fw_target_at(s)));
    }
    let ghost p = fw_target_at(s);
    let target_minor = response.take_u16_le()?;
    let target_major = response.take_u16_le()?;
    proof {
        assert(s.skip(p).skip(2).skip(2) =~= s.skip(p + 4));
        assert(le_u16_at(s.skip(p), 0) == le_u16_at(s, p));
        assert(le_u16_at(s.skip(p).skip(2), 0) == le_u16_at(s, p + 2));
    }
    let raw_target_date = response.take_length_prefixed_ascii()?;
    proof {
        assert(s.skip(p + 4)[0] == s[p + 4]);
        assert(s.skip(p + 4).skip(1 + s[p + 4]) =~= s.skip(p + 5 + s[p + 4]));
        assert(s.skip(p + 4).subrange(1, 1 + s[p + 4]) =~= s.subrange(p + 5, p + 5 + s[p + 4]));
    }
    let target_date = trim_nul_end_exec(raw_target_date);
    let trailing = response.size();
    if trailing != 0 {
        let mut got = crate::text::decimal_string(trailing as u64);
        crate::text::append_str(&mut got, " trailing bytes");
        return Err(
            Error::ProtocolMismatch {
                expected: String::from_str("empty fw_version tail"),
                got,
            },
        );
    }
    Ok(
        DeviceVersions {
            boot: FirmwareVersion { major: boot_major, minor: boot_minor, date: boot_date },
            target: FirmwareVersion { major: target_major, minor: target_minor, date: target_date },
        },
    )
}

/// The hexadecimal digit for a value below sixteen, upper case.
pub open spec fn hex_digit_upper(d: nat) -> char {
    if d < 10 {
        (('0' as u32) + d) as char
    } else {
        (('A' as u32) + (d - 10)) as char
    }
}

/// The last `n` hexadecimal digits of `v`, most significant first, upper case.
pub open spec fn hex_digits(v: nat, n: nat) -> Seq<char>
    decreases n,
{
    if n == 0 {
        Seq::empty()
    } else {
        hex_digits(v / 16, (n - 1) as nat).push(hex_digit_upper(v % 16))
    }
}

/// Groups joined with `-` between them.
pub open spec fn join_with_dash(groups: Seq<Seq<char>>) -> Seq<char>
    decreases groups.len(),
{
    if groups.len() == 0 {
        Seq::empty()
    } else if groups.len() == 1 {
        groups[0]
    } else {
        join_with_dash(groups.drop_last()) + "-"@ + groups.last()
    }
}

/// Number of four-byte groups a hardware-serial reply announces.
pub open spec fn hw_serial_groups(s: Seq<u8>) -> nat {
    (le_u32_at(s, 0) / 4) as nat
}

/// The hardware serial in a reply: a little-endian byte count, then that many bytes read as
/// little-endian 32-bit groups (whole groups only), each shown as eight upper-case hexadecimal
/// digits, joined with dashes. `None` when the reply ends early.
pub open spec fn spec_hw_serial(s: Seq<u8>) -> Option<Seq<char>> {
    if s.len() < 4 || s.len() - 4 < 4 * hw_serial_groups(s) {
        None
    } else {
        Some(
            join_with_dash(
                Seq::new(hw_serial_groups(s), |i: int| hex_digits(le_u32_at(s, 4 + 4 * i) as nat, 8)),
            ),
        )
    }
}

fn hex_digit_upper_exec(d: u32) -> (c: char)
    requires
        d < 16,
    ensures
        c == hex_digit_upper(d as nat),
{
    if d < 10 {
        let b: u8 = 48u8 + (d as u8);
        b as char
    } else {
        let b: u8 = 55u8 + (d as u8);
        b as char
    }
}

/// `v` as eight upper-case hexadecimal digits.
pub fn hex8(v: u32) -> (text: String)
    ensures
        text@ == hex_digits(v as nat, 8),
{
    let mut digits: Vec<char> = Vec::new();
    let mut rest: u32 = v;
    let mut k: usize = 0;
    while k < 8
        invariant
            k <= 8,
            digits@.len() == k,
            hex_digits(v as nat, 8) == hex_digits(rest as nat, (8 - k) as nat) + digits@,
        decreases 8 - k,
    {
        let d = hex_digit_upper_exec(rest % 16);
        let ghost old_digits = digits@;
        digits.insert(0, d);
        proof {
            assert(hex_digits(rest as nat, (8 - k) as nat) == hex_digits((rest / 16) as nat, (8 - k
                - 1) as nat).push(hex_digit_upper((rest % 16) as nat)));
            assert(digits@ =~= seq![d] + old_digits);
            assert(hex_digits((rest / 16) as nat, (8 - k - 1) as nat).push(hex_digit_upper(
                (rest % 16) as nat,
            )) + old_digits =~= hex_digits((rest / 16) as nat, (8 - k - 1) as nat) + digits@);
        }
        rest = rest / 16;
        k += 1;
    }
    proof {
        assert(hex_digits(rest as nat, 0) =~= Seq::<char>::empty());
        assert(Seq::<char>::empty() + digits@ =~= digits@);
    }
    crate::text::string_from(digits.as_slice())
}

/// Decodes the reply to a hardware-serial request into the dash-separated hexadecimal form.
#[verifier::loop_isolation(false)]
pub fn decode_hw_serial(response: BytesBuffer) -> (r: Result<String>)
    ensures
        spec_hw_serial(response@) is Some <==> r is Ok,
        r matches Ok(serial) ==> serial@ == spec_hw_serial(response@)->0,
        r matches Err(e) ==> e is BufferUnderrun,
{
    let ghost s = response@;
    let mut response = response;
    let serial_len = response.take_u32_le()?;
    let count = serial_len / 4;
    let ghost groups = Seq::new(count as nat, |i: int| hex_digits(le_u32_at(s, 4 + 4 * i) as nat, 8));
    let mut serial = String::new();
    let mut i: u32 = 0;
    while i < count
        invariant
            s.len() >= 4,
            count == hw_serial_groups(s),
            groups == Seq::new(count as nat, |j: int| hex_digits(le_u32_at(s, 4 + 4 * j) as nat, 8)),
            i <= count,
            4 + 4 * i <= s.len(),
            response@ == s.skip(4 + 4 * i),
            serial@ == join_with_dash(groups.take(i as int)),
        decreases count - i,
    {
        let ghost before = response@;
        let group = match response.take_u32_le() {
            Ok(g) => g,
            Err(e) => {
                proof {
                    assert(s.len() - 4 < 4 * hw_serial_groups(s));
                }
                return Err(e);
            },
        };
        proof {
            assert(le_u32_at(before, 0) == le_u32_at(s, 4 + 4 * i));
        }
        if i > 0 {
            crate::text::append_str(&mut serial, "-");
        }
        let text = hex8(group);
        crate::text::append_str(&mut serial, text.as_str());
        proof {
            assert(groups.take(i + 1).drop_last() =~= groups.take(i as int));
            assert(before.skip(4) =~= s.skip(4 + 4 * (i + 1)));
            if i == 0 {
                assert(groups.take(1) =~= seq![groups[0]]);
            }
        }
        i += 1;
    }
    proof {
        assert(groups.take(count as int) =~= groups);
    }
    Ok(serial)
}

/// The text of a virtual-string reply, with invalid UTF-8 replaced.
pub fn decode_text(response: &BytesBuffer) -> (text: String)
    ensures
        text@ == crate::text::utf8_lossy(response@),
{
    crate::text::bytes_to_text_lossy(response.data())
}

/// The raw bits of the three energy-calibration coefficients (little-endian 32-bit floats).
pub fn decode_energy_calib(response: BytesBuffer) -> (r: Result<[u32; 3]>)
    ensures
        response@.len() >= 12 ==> r is Ok && r->Ok_0@ == seq![
            le_u32_at(response@, 0),
            le_u32_at(response@, 4),
            le_u32_at(response@, 8),
        ],
        response@.len() < 12 ==> (r matches Err(e) && e is BufferUnderrun),
{
    let ghost s = response@;
    let mut response = response;
    let a0 = response.take_f32_bits_le()?;
    let a1 = response.take_f32_bits_le()?;
    proof {
        assert(s.skip(4).skip(4) =~= s.skip(8));
        assert(le_u32_at(s.skip(4), 0) == le_u32_at(s, 4));
    }
    let a2 = response.take_f32_bits_le()?;
    proof {
        assert(le_u32_at(s.skip(8), 0) == le_u32_at(s, 8));
    }
    let calib = [a0, a1, a2];
    assert(calib@ =~= seq![le_u32_at(s, 0), le_u32_at(s, 4), le_u32_at(s, 8)]);
    Ok(calib)
}

/// A text field as the device sends it: one length byte, then one byte per character.
pub open spec fn ascii_field(text: Seq<char>) -> Seq<u8> {
    seq![text.len() as u8] + Seq::new(text.len(), |i: int| (text[i] as u32) as u8)
}

/// The reply body that carries the given boot and target versions.
pub open spec fn fw_reply(
    boot: (u16, u16, Seq<char>),
    target: (u16, u16, Seq<char>),
) -> Seq<u8> {
    le_u16_bytes(boot.1) + le_u16_bytes(boot.0) + ascii_field(boot.2) + le_u16_bytes(target.1)
        + le_u16_bytes(target.0) + ascii_field(target.2)
}

/// Text that fits a field: at most 255 characters, each with a code below 256.
pub open spec fn fits_ascii_field(text: Seq<char>) -> bool {
    text.len() <= 255 && forall|i: int| 0 <= i < text.len() ==> (#[trigger] text[i] as u32) < 256
}

proof fn lemma_field_chars(text: Seq<char>, rest: Seq<u8>, s: Seq<u8>, at: int)
    requires
        fits_ascii_field(text),
        0 <= at <= s.len(),
        s.skip(at) == ascii_field(text) + rest,
    ensures
        s[at] == text.len(),
        at + 1 + text.len() <= s.len(),
        bytes_to_chars(s.subrange(at + 1, at + 1 + text.len())) == text,
{
    assert(s.skip(at)[0] == text.len() as u8);
    assert(s.skip(at).len() == s.len() - at);
    assert((ascii_field(text) + rest).len() >= 1 + text.len());
    assert forall|i: int| 0 <= i < text.len() implies #[trigger] bytes_to_chars(
        s.subrange(at + 1, at + 1 + text.len()),
    )[i] == text[i] by {
        assert(s.skip(at)[1 + i] == (text[i] as u32) as u8);
        assert(s[at + 1 + i] == s.skip(at)[1 + i]);
        let c = text[i];
        let v = c as u32;
        assert(v < 256);
        assert(v < 256 ==> (v as u8) as u32 == v) by (bit_vector);
        vstd::utf8::char_u32_cast(c, v);
    }
    assert(bytes_to_chars(s.subrange(at + 1, at + 1 + text.len())) =~= text);
}

proof fn lemma_two_u16(s: Seq<u8>, at: int, first: u16, second: u16, rest: Seq<u8>)
    requires
        0 <= at <= s.len(),
        s.skip(at) == le_u16_bytes(first) + (le_u16_bytes(second) + rest),
    ensures
        le_u16_at(s, at) == first,
        le_u16_at(s, at + 2) == second,
        s.skip(at + 4) == rest,
{
    let t = s.skip(at);
    lemma_le_u16_round_trip(first, le_u16_bytes(second) + rest);
    assert(t.skip(2) =~= le_u16_bytes(second) + rest);
    lemma_le_u16_round_trip(second, rest);
    assert(le_u16_at(s, at) == le_u16_at(t, 0));
    assert(le_u16_at(t, 2) == le_u16_at(t.skip(2), 0));
    assert(le_u16_at(s, at + 2) == le_u16_at(t, 2));
    assert(s.skip(at + 4) =~= t.skip(2).skip(2));
    assert(t.skip(2).skip(2) =~= rest);
}

/// A reply carrying two versions decodes to exactly those versions, when the dates fit their
/// fields and the target date does not end in a NUL character (those are dropped).
pub proof fn law_fw_reply_round_trip(boot: (u16, u16, Seq<char>), target: (u16, u16, Seq<char>))
    requires
        fits_ascii_field(boot.2),
        fits_ascii_field(target.2),
        target.2.len() == 0 || target.2.last() != '\0',
    ensures
        first_decoded(spec_fw_candidates(fw_reply(boot, target))) == Some((boot, target)),
{
    let s = fw_reply(boot, target);
    let n1 = boot.2.len() as int;
    let n2 = target.2.len() as int;
    let f1 = ascii_field(boot.2);
    let f2 = ascii_field(target.2);
    let t2 = le_u16_bytes(target.1) + (le_u16_bytes(target.0) + f2);
    assert(s =~= le_u16_bytes(boot.1) + (le_u16_bytes(boot.0) + (f1 + t2)));
    assert(s.skip(0) =~= s);
    lemma_two_u16(s, 0, boot.1, boot.0, f1 + t2);
    lemma_field_chars(boot.2, t2, s, 4);
    let p = 5 + n1;
    assert(s.skip(p) =~= t2);
    assert(t2 =~= le_u16_bytes(target.1) + (le_u16_bytes(target.0) + (f2 + Seq::<u8>::empty())));
    lemma_two_u16(s, p, target.1, target.0, f2 + Seq::<u8>::empty());
    lemma_field_chars(target.2, Seq::empty(), s, p + 4);
    assert(fw_target_at(s) == p);
    assert(s.len() == p + 5 + n2);
    assert(trim_nul_end(target.2) == target.2);
    lemma_trim_chain_first(s);
}

} // verus!
