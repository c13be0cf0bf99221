//! Detectors found by a Bluetooth scan.
use vstd::prelude::*;

use crate::device_model::{
    model_from_advertisement, serial_from_advertisement, spec_model_from_serial,
    spec_serial_from_advertisement,
};
use crate::text::{
    ascii_lowercase, ascii_lowercase_chars, chars_of, contains_chars, contains_seq, eq_chars,
};
use crate::text_order::{
    lemma_text_lt_irreflexive, lemma_text_lt_total, lemma_text_lt_transitive, text_lt, text_lt_exec,
};

verus! {

/// A detector seen during a scan.
#[derive(Debug, Clone, PartialEq, Eq)]
pub struct ScannedDevice {
    pub address: String,
    pub local_name: Option<String>,
    pub rssi: Option<i16>,
    pub serial: Option<String>,
    pub model: Option<String>,
}

/// The name shown for a scanned detector: its model, else its serial, else `RadiaCode`.
pub open spec fn spec_display_label(device: ScannedDevice) -> Seq<char> {
    match device.model {
        Some(model) => model@,
        None => match device.serial {
            Some(serial) => serial@,
            None => "RadiaCode"@,
        },
    }
}

impl ScannedDevice {
    /// The name shown for this detector: its model, else its serial, else `RadiaCode`.
    pub fn display_label(&self) -> (label: String)
        ensures
            label@ == spec_display_label(*self),
    {
        match &self.model {
            Some(model) => model.clone(),
            None => match &self.serial {
                Some(serial) => serial.clone(),
                None => String::from_str("RadiaCode"),
            },
        }
    }
}

/// A peripheral is taken for a detector when it advertises the detector service or its local
/// name contains `radiacode` in any ASCII case.
pub open spec fn spec_is_detector_advertisement(
    advertises_service: bool,
    local_name: Option<Seq<char>>,
) -> bool {
    advertises_service || (local_name matches Some(name) && contains_seq(
        ascii_lowercase(name),
        "radiacode"@,
    ))
}

/// Whether a scanned peripheral is taken for a detector.
pub fn is_detector_advertisement(advertises_service: bool, local_name: Option<&str>) -> (r: bool)
    ensures
        r == spec_is_detector_advertisement(
            advertises_service,
            match local_name {
                Some(n) => Some(n@),
                None => None,
            },
        ),
{
    if advertises_service {
        return true;
    }
    match local_name {
        Some(name) => {
            let chars = chars_of(name);
            let lowered = ascii_lowercase_chars(chars.as_slice());
            let needle = chars_of("radiacode");
            contains_chars(lowered.as_slice(), needle.as_slice())
        },
        None => false,
    }
}

/// The label of a discovered detector: its model, else its serial, else its local name, else
/// `RadiaCode`.
pub open spec fn spec_discovered_label(
    model: Option<String>,
    serial: Option<String>,
    local_name: Option<String>,
) -> Seq<char> {
    match model {
        Some(m) => m@,
        None => match serial {
            Some(s) => s@,
            None => match local_name {
                Some(n) => n@,
                None => "RadiaCode"@,
            },
        },
    }
}

/// The label of a discovered detector.
pub fn discovered_label(
    model: &Option<String>,
    serial: &Option<String>,
    local_name: &Option<String>,
) -> (label: String)
    ensures
        label@ == spec_discovered_label(*model, *serial, *local_name),
{
    match model {
        Some(m) => m.clone(),
        None => match serial {
            Some(s) => s.clone(),
            None => match local_name {
                Some(n) => n.clone(),
                None => String::from_str("RadiaCode"),
            },
        },
    }
}

impl ScannedDevice {
    /// A scanned detector, with the serial and model its advertisement name announces.
    pub fn from_advertisement(address: String, local_name: Option<String>, rssi: Option<i16>) -> (d:
        Self)
        ensures
            d.address == address,
            d.local_name == local_name,
            d.rssi == rssi,
            match local_name {
                Some(name) => match spec_serial_from_advertisement(name@) {
                    Some(serial) => (d.serial matches Some(s) && s@ == serial) && (d.model matches Some(
                        m,
                    ) && m@ == spec_model_from_serial(serial)),
                    None => d.serial is None && d.model is None,
                },
                None => d.serial is None && d.model is None,
            },
    {
        let (serial, model) = match &local_name {
            Some(name) => (
                serial_from_advertisement(name.as_str()),
                model_from_advertisement(name.as_str()),
            ),
            None => (None, None),
        };
        ScannedDevice { address, local_name, rssi, serial, model }
    }
}

/// The device at position `j` of `s` is the first one reported with its address.
pub open spec fn first_with_address(s: Seq<ScannedDevice>, j: int) -> bool {
    &&& 0 <= j < s.len()
    &&& forall|m: int| 0 <= m < j ==> (#[trigger] s[m]).address@ != s[j].address@
}

/// Addresses in `out` sort strictly upwards.
pub open spec fn sorted_by_address(out: Seq<ScannedDevice>) -> bool {
    forall|i: int, j: int|
        0 <= i < j < out.len() ==> text_lt(#[trigger] out[i].address@, #[trigger] out[j].address@)
}

/// `d` is the first device reported with its address in `found`.
pub open spec fn is_first_report(found: Seq<ScannedDevice>, d: ScannedDevice) -> bool {
    exists|j: int| #[trigger] first_with_address(found, j) && found[j] == d
}

/// Some device in `out` has the address `a`.
pub open spec fn has_address(out: Seq<ScannedDevice>, a: Seq<char>) -> bool {
    exists|i: int| 0 <= i < out.len() && #[trigger] out[i].address@ == a
}

/// Every device in `out` is the first report of its address in `found`.
pub open spec fn listed_are_firsts(found: Seq<ScannedDevice>, out: Seq<ScannedDevice>) -> bool {
    forall|i: int| 0 <= i < out.len() ==> is_first_report(found, #[trigger] out[i])
}

/// Every address in `found` is the address of a device in `out`.
pub open spec fn addresses_listed(found: Seq<ScannedDevice>, out: Seq<ScannedDevice>) -> bool {
    forall|m: int| 0 <= m < found.len() ==> has_address(out, #[trigger] found[m].address@)
}

/// `out` lists the scan results `found` as they are shown: in address order, one device per
/// address reported, and that device the first one reported with it.
pub open spec fn is_scan_listing(found: Seq<ScannedDevice>, out: Seq<ScannedDevice>) -> bool {
    &&& sorted_by_address(out)
    &&& listed_are_firsts(found, out)
    &&& addresses_listed(found, out)
}

/// `src[i]` is the position in `orig` (before `k`) of the first report that `out[i]` is.
spec fn tracks_sources(orig: Seq<ScannedDevice>, k: int, out: Seq<ScannedDevice>, src: Seq<int>) -> bool {
    &&& src.len() == out.len()
    &&& forall|i: int|
        0 <= i < out.len() ==> 0 <= #[trigger] src[i] < k && first_with_address(orig, src[i])
            && out[i] == orig[src[i]]
}

/// `at[m]` is the position in `out` of a device with the address of report `m < k`.
spec fn tracks_positions(orig: Seq<ScannedDevice>, k: int, out: Seq<ScannedDevice>, at: Seq<int>) -> bool {
    &&& at.len() == k
    &&& forall|m: int|
        0 <= m < k ==> 0 <= #[trigger] at[m] < out.len() && out[at[m]].address@ == orig[m].address@
}

proof fn lemma_listing_done(orig: Seq<ScannedDevice>, out: Seq<ScannedDevice>, src: Seq<int>, at: Seq<int>)
    requires
        sorted_by_address(out),
        tracks_sources(orig, orig.len() as int, out, src),
        tracks_positions(orig, orig.len() as int, out, at),
    ensures
        is_scan_listing(orig, out),
{
    assert forall|i: int| 0 <= i < out.len() implies is_first_report(orig, #[trigger] out[i]) by {
        assert(first_with_address(orig, src[i]) && orig[src[i]] == out[i]);
    }
    assert forall|m: int| 0 <= m < orig.len() implies has_address(out, #[trigger] orig[m].address@) by {
        assert(0 <= at[m] < out.len() && out[at[m]].address@ == orig[m].address@);
    }
}

/// The new address differs from every address already listed.
proof fn lemma_new_address_unlisted(out: Seq<ScannedDevice>, key: Seq<char>, j: int)
    requires
        sorted_by_address(out),
        0 <= j <= out.len(),
        forall|i: int| 0 <= i < j ==> text_lt(#[trigger] out[i].address@, key),
        j < out.len() ==> !text_lt(out[j].address@, key),
        j < out.len() ==> out[j].address@ != key,
    ensures
        forall|i: int| 0 <= i < out.len() ==> (#[trigger] out[i]).address@ != key,
        j < out.len() ==> text_lt(key, out[j].address@),
{
    if j < out.len() {
        lemma_text_lt_total(out[j].address@, key);
    }
    assert forall|i: int| 0 <= i < out.len() implies (#[trigger] out[i]).address@ != key by {
        lemma_text_lt_irreflexive(key);
        if i > j {
            assert(text_lt(out[j].address@, out[i].address@));
            lemma_text_lt_transitive(key, out[j].address@, out[i].address@);
        }
    }
}

/// Putting the new address where it sorts keeps the addresses sorted.
proof fn lemma_insert_sorted(out: Seq<ScannedDevice>, dev: ScannedDevice, j: int)
    requires
        sorted_by_address(out),
        0 <= j <= out.len(),
        forall|i: int| 0 <= i < j ==> text_lt(#[trigger] out[i].address@, dev.address@),
        j < out.len() ==> text_lt(dev.address@, out[j].address@),
    ensures
        sorted_by_address(out.insert(j, dev)),
{
    let new_out = out.insert(j, dev);
    let key = dev.address@;
    assert forall|a: int, b: int| 0 <= a < b < new_out.len() implies text_lt(
        #[trigger] new_out[a].address@,
        #[trigger] new_out[b].address@,
    ) by {
        if b == j {
            assert(new_out[a] == out[a]);
        } else if a == j {
            assert(new_out[b] == out[b - 1]);
            if b - 1 > j {
                assert(text_lt(out[j].address@, out[b - 1].address@));
                lemma_text_lt_transitive(key, out[j].address@, out[b - 1].address@);
            }
        } else if a < j && b > j {
            assert(new_out[a] == out[a]);
            assert(new_out[b] == out[b - 1]);
            if a < b - 1 {
                assert(text_lt(out[a].address@, out[b - 1].address@));
            }
        } else if a > j {
            assert(new_out[a] == out[a - 1]);
            assert(new_out[b] == out[b - 1]);
            assert(text_lt(out[a - 1].address@, out[b - 1].address@));
        } else {
            assert(new_out[a] == out[a]);
            assert(new_out[b] == out[b]);
            assert(text_lt(out[a].address@, out[b].address@));
        }
    }
}

/// A report whose address is unlisted is the first with it.
proof fn lemma_unlisted_is_first(
    orig: Seq<ScannedDevice>,
    k: int,
    out: Seq<ScannedDevice>,
    at: Seq<int>,
)
    requires
        0 <= k < orig.len(),
        tracks_positions(orig, k, out, at),
        forall|i: int| 0 <= i < out.len() ==> (#[trigger] out[i]).address@ != orig[k].address@,
    ensures
        first_with_address(orig, k),
{
    assert forall|m: int| 0 <= m < k implies (#[trigger] orig[m]).address@ != orig[k].address@ by {
        assert(out[at[m]].address@ == orig[m].address@);
    }
}

/// Sources after inserting report `k` at `j`.
proof fn lemma_insert_sources(
    orig: Seq<ScannedDevice>,
    k: int,
    out: Seq<ScannedDevice>,
    src: Seq<int>,
    j: int,
)
    requires
        0 <= k < orig.len(),
        0 <= j <= out.len(),
        tracks_sources(orig, k, out, src),
        first_with_address(orig, k),
    ensures
        tracks_sources(orig, k + 1, out.insert(j, orig[k]), src.insert(j, k)),
{
    let new_out = out.insert(j, orig[k]);
    let new_src = src.insert(j, k);
    assert forall|i: int| 0 <= i < new_out.len() implies 0 <= #[trigger] new_src[i] < k + 1
        && first_with_address(orig, new_src[i]) && new_out[i] == orig[new_src[i]] by {
        if i < j {
            assert(new_src[i] == src[i] && new_out[i] == out[i]);
        } else if i > j {
            assert(new_src[i] == src[i - 1] && new_out[i] == out[i - 1]);
        }
    }
}

/// The shifted positions after inserting at `j`.
spec fn shifted(at: Seq<int>, j: int) -> Seq<int> {
    Seq::new(at.len(), |m: int| if at[m] >= j { at[m] + 1 } else { at[m] })
}

/// Positions after inserting report `k` at `j`.
proof fn lemma_insert_positions(
    orig: Seq<ScannedDevice>,
    k: int,
    out: Seq<ScannedDevice>,
    at: Seq<int>,
    j: int,
)
    requires
        0 <= k < orig.len(),
        0 <= j <= out.len(),
        tracks_positions(orig, k, out, at),
    ensures
        tracks_positions(orig, k + 1, out.insert(j, orig[k]), shifted(at, j).push(j)),
{
    let new_out = out.insert(j, orig[k]);
    let new_at = shifted(at, j).push(j);
    assert forall|m: int| 0 <= m < k + 1 implies 0 <= #[trigger] new_at[m] < new_out.len()
        && new_out[new_at[m]].address@ == orig[m].address@ by {
        if m < k {
            if at[m] >= j {
                assert(new_out[at[m] + 1] == out[at[m]]);
            } else {
                assert(new_out[at[m]] == out[at[m]]);
            }
        }
    }
}

/// Positions after a report whose address is listed at `j`.
proof fn lemma_skip_positions(
    orig: Seq<ScannedDevice>,
    k: int,
    out: Seq<ScannedDevice>,
    at: Seq<int>,
    src: Seq<int>,
    j: int,
)
    requires
        0 <= k < orig.len(),
        0 <= j < out.len(),
        out[j].address@ == orig[k].address@,
        tracks_positions(orig, k, out, at),
        tracks_sources(orig, k, out, src),
    ensures
        tracks_positions(orig, k + 1, out, at.push(j)),
        tracks_sources(orig, k + 1, out, src),
{
    let new_at = at.push(j);
    assert forall|m: int| 0 <= m < k + 1 implies 0 <= #[trigger] new_at[m] < out.len()
        && out[new_at[m]].address@ == orig[m].address@ by {
        if m < k {
            assert(new_at[m] == at[m]);
        }
    }
}

/// The scan results as shown: sorted by address, and only the first device reported with an
/// address kept.
pub fn order_scan_results(found: Vec<ScannedDevice>) -> (out: Vec<ScannedDevice>)
    ensures
        is_scan_listing(found@, out@),
{
    let ghost orig = found@;
    let mut rest = found;
    let mut out: Vec<ScannedDevice> = Vec::new();
    let mut keys: Vec<Vec<char>> = Vec::new();
    let ghost mut k: int = 0;
    let ghost mut src: Seq<int> = Seq::empty();
    let ghost mut at: Seq<int> = Seq::empty();
    proof {
        assert(orig.skip(0) =~= orig);
    }
    while rest.len() > 0
        invariant
            k <= orig.len(),
            rest@ == orig.skip(k),
            keys@.len() == out@.len(),
            forall|i: int| 0 <= i < out@.len() ==> (#[trigger] keys@[i])@ == out@[i].address@,
            sorted_by_address(out@),
            tracks_sources(orig, k, out@, src),
            tracks_positions(orig, k, out@, at),
        decreases rest@.len(),
    {
        let ghost before = rest@;
        assert(k < orig.len());
        assert(rest@.len() == orig.len() - k);
        let dev = rest.remove(0);
        proof {
            assert(before[0] == orig[k]);
            assert(rest@ =~= orig.skip(k + 1));
        }
        let key = chars_of(dev.address.as_str());
        let mut j: usize = 0;
        loop
            invariant
                j <= keys@.len(),
                keys@.len() == out@.len(),
                forall|i: int| 0 <= i < j ==> text_lt((#[trigger] keys@[i])@, key@),
            ensures
                j <= keys@.len(),
                forall|i: int| 0 <= i < j ==> text_lt((#[trigger] keys@[i])@, key@),
                j < keys@.len() ==> !text_lt(keys@[j as int]@, key@),
            decreases keys@.len() - j,
        {
            if j >= keys.len() {
                break;
            }
            if !text_lt_exec(keys[j].as_slice(), key.as_slice()) {
                break;
            }
            j += 1;
        }
        let duplicate = j < keys.len() && eq_chars(keys[j].as_slice(), key.as_slice());
        if duplicate {
            proof {
                lemma_skip_positions(orig, k, out@, at, src, j as int);
                at = at.push(j as int);
            }
        } else {
            let ghost old_out = out@;
            let ghost old_keys = keys@;
            proof {
                assert forall|i: int| 0 <= i < j implies text_lt(
                    #[trigger] old_out[i].address@,
                    orig[k].address@,
                ) by {
                    assert(old_keys[i]@ == old_out[i].address@);
                }
                lemma_new_address_unlisted(old_out, orig[k].address@, j as int);
                lemma_insert_sorted(old_out, orig[k], j as int);
                lemma_unlisted_is_first(orig, k, old_out, at);
                lemma_insert_sources(orig, k, old_out, src, j as int);
                lemma_insert_positions(orig, k, old_out, at, j as int);
                src = src.insert(j as int, k);
                at = shifted(at, j as int).push(j as int);
            }
            out.insert(j, dev);
            keys.insert(j, key);
            proof {
                assert(out@ == old_out.insert(j as int, orig[k]));
                assert forall|i: int| 0 <= i < out@.len() implies (#[trigger] keys@[i])@
                    == out@[i].address@ by {
                    if i > j {
                        assert(keys@[i] == old_keys[i - 1]);
                        assert(out@[i] == old_out[i - 1]);
                    } else if i < j {
                        assert(keys@[i] == old_keys[i]);
                        assert(out@[i] == old_out[i]);
                    }
                }
            }
        }
        proof {
            k = k + 1;
        }
    }
    proof {
        assert(orig.skip(k).len() == 0);
        lemma_listing_done(orig, out@, src, at);
    }
    out
}

/// No two devices of a scan listing share an address.
pub proof fn law_scan_listing_has_unique_addresses(
    found: Seq<ScannedDevice>,
    out: Seq<ScannedDevice>,
    i: int,
    j: int,
)
    requires
        is_scan_listing(found, out),
        0 <= i < j < out.len(),
    ensures
        out[i].address@ != out[j].address@,
{
    assert(text_lt(out[i].address@, out[j].address@));
    lemma_text_lt_irreflexive(out[i].address@);
}

/// Every device reported in a scan is represented in the listing by the first device reported
/// with its address.
pub proof fn law_scan_listing_keeps_first_report(found: Seq<ScannedDevice>, out: Seq<ScannedDevice>, m: int)
    requires
        is_scan_listing(found, out),
        0 <= m < found.len(),
    ensures
        exists|i: int, j: int|
            0 <= i < out.len() && first_with_address(found, j) && #[trigger] out[i] == #[trigger] found[j]
                && found[j].address@ == found[m].address@,
{
    assert(has_address(out, found[m].address@));
    let i = choose|i: int| 0 <= i < out.len() && #[trigger] out[i].address@ == found[m].address@;
    assert(is_first_report(found, out[i]));
    let j = choose|j: int| #[trigger] first_with_address(found, j) && found[j] == out[i];
    assert(0 <= i < out.len() && first_with_address(found, j) && out[i] == found[j]
        && found[j].address@ == found[m].address@);
}

/// Some device of `s` is `d`.
pub open spec fn holds_device(s: Seq<ScannedDevice>, d: ScannedDevice) -> bool {
    exists|p: int| 0 <= p < s.len() && #[trigger] s[p] == d
}

/// Two first reports of the same address are the same report.
proof fn lemma_first_report_unique(found: Seq<ScannedDevice>, j1: int, j2: int)
    requires
        first_with_address(found, j1),
        first_with_address(found, j2),
        found[j1].address@ == found[j2].address@,
    ensures
        j1 == j2,
{
    if j1 < j2 {
        assert(found[j1].address@ != found[j2].address@);
    } else if j2 < j1 {
        assert(found[j2].address@ != found[j1].address@);
    }
}

/// Every device of one listing of `found` is a device of any other listing of it.
proof fn lemma_listing_members(found: Seq<ScannedDevice>, a: Seq<ScannedDevice>, b: Seq<ScannedDevice>, i: int)
    requires
        is_scan_listing(found, a),
        is_scan_listing(found, b),
        0 <= i < a.len(),
    ensures
        holds_device(b, a[i]),
{
    assert(is_first_report(found, a[i]));
    let j1 = choose|j: int| #[trigger] first_with_address(found, j) && found[j] == a[i];
    assert(has_address(b, found[j1].address@));
    let p = choose|p: int| 0 <= p < b.len() && #[trigger] b[p].address@ == found[j1].address@;
    assert(is_first_report(found, b[p]));
    let j2 = choose|j: int| #[trigger] first_with_address(found, j) && found[j] == b[p];
    lemma_first_report_unique(found, j1, j2);
    assert(b[p] == a[i]);
}

/// Two address-sorted sequences holding the same devices are equal.
proof fn lemma_sorted_same_members(a: Seq<ScannedDevice>, b: Seq<ScannedDevice>)
    requires
        sorted_by_address(a),
        sorted_by_address(b),
        forall|i: int| 0 <= i < a.len() ==> holds_device(b, #[trigger] a[i]),
        forall|p: int| 0 <= p < b.len() ==> holds_device(a, #[trigger] b[p]),
    ensures
        a == b,
    decreases a.len(),
{
    if a.len() == 0 {
        if b.len() > 0 {
            assert(holds_device(a, b[0]));
        }
        assert(a =~= b);
    } else {
        assert(holds_device(b, a[0]));
        assert(b.len() > 0);
        assert(holds_device(a, b[0]));
        let p = choose|p: int| 0 <= p < b.len() && #[trigger] b[p] == a[0];
        let q = choose|q: int| 0 <= q < a.len() && #[trigger] a[q] == b[0];
        if p > 0 && q > 0 {
            assert(text_lt(b[0].address@, b[p].address@));
            assert(text_lt(a[0].address@, a[q].address@));
            lemma_text_lt_total(a[0].address@, b[0].address@);
        } else if p > 0 {
            assert(text_lt(b[0].address@, b[p].address@));
            lemma_text_lt_irreflexive(a[0].address@);
        } else if q > 0 {
            assert(text_lt(a[0].address@, a[q].address@));
            lemma_text_lt_irreflexive(b[0].address@);
        }
        assert(a[0] == b[0]);
        let a1 = a.drop_first();
        let b1 = b.drop_first();
        assert forall|i: int| 0 <= i < a1.len() implies holds_device(b1, #[trigger] a1[i]) by {
            assert(holds_device(b, a[i + 1]));
            let p = choose|p: int| 0 <= p < b.len() && #[trigger] b[p] == a[i + 1];
            if p == 0 {
                assert(text_lt(a[0].address@, a[i + 1].address@));
                lemma_text_lt_irreflexive(a[0].address@);
            }
            assert(b1[p - 1] == a1[i]);
        }
        assert forall|p: int| 0 <= p < b1.len() implies holds_device(a1, #[trigger] b1[p]) by {
            assert(holds_device(a, b[p + 1]));
            let i = choose|i: int| 0 <= i < a.len() && #[trigger] a[i] == b[p + 1];
            if i == 0 {
                assert(text_lt(b[0].address@, b[p + 1].address@));
                lemma_text_lt_irreflexive(b[0].address@);
            }
            assert(a1[i - 1] == b1[p]);
        }
        lemma_sorted_same_members(a1, b1);
        assert(a =~= seq![a[0]] + a1);
        assert(b =~= seq![b[0]] + b1);
    }
}

/// The scan results determine their listing: any two listings of the same results are equal.
pub proof fn law_scan_listing_is_determined(
    found: Seq<ScannedDevice>,
    a: Seq<ScannedDevice>,
    b: Seq<ScannedDevice>,
)
    requires
        is_scan_listing(found, a),
        is_scan_listing(found, b),
    ensures
        a == b,
{
    assert forall|i: int| 0 <= i < a.len() implies holds_device(b, #[trigger] a[i]) by {
        lemma_listing_members(found, a, b, i);
    }
    assert forall|p: int| 0 <= p < b.len() implies holds_device(a, #[trigger] b[p]) by {
        lemma_listing_members(found, b, a, p);
    }
    lemma_sorted_same_members(a, b);
}

} // verus!
