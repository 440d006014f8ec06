//! Recognition of USB mass-storage disks from Windows device instance
//! identifiers, and the correlation of disks with visible drive letters.

use vstd::prelude::*;

use crate::scsi::{
    hex_encode, spec_hex_bytes, spec_transfer, transfer_of, ScsiCandidate, ScsiDirection,
    ScsiResponse, TransportError,
};
use crate::text::{hex_padded, push_hex};
use crate::text::{ascii_upper, chars_of, is_ascii_alpha, upper_chars, upper_letter_str};

verus! {

/// The USB vendor identifier of JieLi download-mode devices.
pub const DEFAULT_USB_VID: u16 = 0x4A4C;

/// A USB mass-storage disk found through the setup API.
#[derive(Debug, Clone)]
pub struct SetupApiUsbMscCandidate {
    pub device_path: String,
    pub vid: Option<u16>,
    pub pid: Option<u16>,
    pub interface_guid: [u8; 16],
    pub note: String,
    pub visible_selector: Option<String>,
}

/// A disk interface as enumerated: its device path and device instance
/// identifier, each absent when querying it failed.
#[derive(Debug, Clone)]
pub struct DiskInterface {
    pub device_path: Option<String>,
    pub instance_id: Option<String>,
}

/// Whether `s`, made uppercase, begins with `prefix`.
pub open spec fn upper_starts_with(s: Seq<char>, prefix: Seq<char>) -> bool {
    s.len() >= prefix.len() && forall|i: int| 0 <= i < prefix.len() ==> ascii_upper(s[i]) == prefix[i]
}

/// An instance identifier of a USB storage or USB device.
pub open spec fn spec_looks_like_usb_msc(id: Seq<char>) -> bool {
    upper_starts_with(id, "USBSTOR\\"@) || upper_starts_with(id, "USB\\"@)
}

fn upper_starts_with_chars(s: &Vec<char>, prefix: &str) -> (r: bool)
    ensures
        r == upper_starts_with(s@, prefix@),
{
    let p = chars_of(prefix);
    if s.len() < p.len() {
        return false;
    }
    let mut i: usize = 0;
    while i < p.len()
        invariant
            s@.len() >= p@.len(),
            i <= p@.len(),
            p@ == prefix@,
            forall|k: int| 0 <= k < i ==> ascii_upper(s@[k]) == p@[k],
        decreases p.len() - i,
    {
        let c = s[i];
        let u: char = if 'a' <= c && c <= 'z' {
            let code: u8 = (c as u32 - 32) as u8;
            code as char
        } else {
            c
        };
        assert(u == ascii_upper(s@[i as int]));
        if u != p[i] {
            assert(ascii_upper(s@[i as int]) != prefix@[i as int]);
            return false;
        }
        i = i + 1;
    }
    true
}

/// Whether a device instance identifier names a USB storage or USB device.
pub fn looks_like_usb_msc_instance(instance_id: &str) -> (r: bool)
    ensures
        r == spec_looks_like_usb_msc(instance_id@),
{
    let s = chars_of(instance_id);
    upper_starts_with_chars(&s, "USBSTOR\\") || upper_starts_with_chars(&s, "USB\\")
}

/// The value of a hexadecimal digit, when `c` is one.
pub open spec fn hex_value(c: char) -> Option<nat> {
    if '0' <= c && c <= '9' {
        Some((c as u32 - 48) as nat)
    } else if 'A' <= c && c <= 'F' {
        Some((c as u32 - 55) as nat)
    } else if 'a' <= c && c <= 'f' {
        Some((c as u32 - 87) as nat)
    } else {
        None
    }
}

/// The value of a sequence of hexadecimal digits, when all of them are digits.
pub open spec fn hex_digits_value(s: Seq<char>) -> Option<nat>
    decreases s.len(),
{
    if s.len() == 0 {
        Some(0)
    } else {
        match (hex_digits_value(s.drop_last()), hex_value(s.last())) {
            (Some(h), Some(d)) => Some(h * 16 + d),
            _ => None,
        }
    }
}

/// `u16::from_str_radix(s, 16)` for a field of at most four characters: an
/// optional `+` followed by at least one hexadecimal digit.
pub open spec fn spec_parse_hex_u16(s: Seq<char>) -> Option<u16> {
    let digits = if s.len() > 0 && s[0] == '+' {
        s.drop_first()
    } else {
        s
    };
    if digits.len() == 0 {
        None
    } else {
        match hex_digits_value(digits) {
            Some(v) => Some(v as u16),
            None => None,
        }
    }
}

/// The first position at or after `from` where `key` occurs in `s`.
pub open spec fn find_from(s: Seq<char>, key: Seq<char>, from: int) -> Option<int>
    decreases s.len() - from,
{
    if from < 0 || from + key.len() > s.len() {
        None
    } else if key.len() == 0 || s.subrange(from, from + key.len()) == key {
        Some(from)
    } else {
        find_from(s, key, from + 1)
    }
}

/// The four-digit hexadecimal field that follows the first `key` in the
/// uppercase of `s`.
pub open spec fn spec_hex_field(s: Seq<char>, key: Seq<char>) -> Option<u16> {
    let u = upper_chars(s);
    match find_from(u, key, 0) {
        None => None,
        Some(pos) => if pos + key.len() + 4 > u.len() {
            None
        } else {
            spec_parse_hex_u16(u.subrange(pos + key.len(), pos + key.len() + 4))
        },
    }
}

fn upper_vec(s: &Vec<char>) -> (r: Vec<char>)
    ensures
        r@ == upper_chars(s@),
{
    let mut out: Vec<char> = Vec::new();
    let mut i: usize = 0;
    while i < s.len()
        invariant
            i <= s@.len(),
            out@.len() == i,
            forall|k: int| 0 <= k < i ==> out@[k] == ascii_upper(s@[k]),
        decreases s.len() - i,
    {
        let c = s[i];
        let u: char = if 'a' <= c && c <= 'z' {
            let code: u8 = (c as u32 - 32) as u8;
            code as char
        } else {
            c
        };
        out.push(u);
        i = i + 1;
    }
    assert(out@ =~= upper_chars(s@));
    out
}

fn matches_at(s: &Vec<char>, key: &Vec<char>, at: usize) -> (r: bool)
    requires
        at + key@.len() <= s@.len(),
    ensures
        r == (s@.subrange(at as int, at + key@.len()) == key@),
{
    let mut k: usize = 0;
    while k < key.len()
        invariant
            at + key@.len() <= s@.len(),
            s@.len() == s.len(),
            k <= key@.len(),
            forall|j: int| 0 <= j < k ==> s@[at + j] == key@[j],
        decreases key.len() - k,
    {
        if s[at + k] != key[k] {
            assert(s@.subrange(at as int, at + key@.len())[k as int] != key@[k as int]);
            return false;
        }
        k = k + 1;
    }
    assert(s@.subrange(at as int, at + key@.len()) =~= key@);
    true
}

fn find_chars(s: &Vec<char>, key: &Vec<char>) -> (r: Option<usize>)
    ensures
        match r {
            Some(p) => find_from(s@, key@, 0) == Some(p as int),
            None => find_from(s@, key@, 0) is None,
        },
{
    let mut at: usize = 0;
    if key.len() > s.len() {
        return None;
    }
    if key.len() == 0 {
        return Some(0);
    }
    let last = s.len() - key.len();
    while at <= last
        invariant
            1 <= key@.len() <= s@.len(),
            s@.len() <= usize::MAX,
            last == s@.len() - key@.len(),
            at <= last + 1,
            find_from(s@, key@, 0) == find_from(s@, key@, at as int),
        decreases last + 1 - at,
    {
        if matches_at(s, key, at) {
            return Some(at);
        }
        at = at + 1;
    }
    None
}

fn hex_digit_value(c: char) -> (r: Option<u16>)
    ensures
        match hex_value(c) {
            Some(v) => r == Some(v as u16),
            None => r is None,
        },
{
    if '0' <= c && c <= '9' {
        Some((c as u32 - 48) as u16)
    } else if 'A' <= c && c <= 'F' {
        Some((c as u32 - 55) as u16)
    } else if 'a' <= c && c <= 'f' {
        Some((c as u32 - 87) as u16)
    } else {
        None
    }
}

proof fn lemma_hex_digits_bound(s: Seq<char>)
    ensures
        hex_digits_value(s) matches Some(v) ==> v < pow16_nat(s.len()),
    decreases s.len(),
{
    if s.len() > 0 {
        lemma_hex_digits_bound(s.drop_last());
        assert(pow16_nat(s.len()) == 16 * pow16_nat((s.len() - 1) as nat));
        if let Some(v) = hex_digits_value(s) {
            let h = hex_digits_value(s.drop_last()).unwrap();
            let d = hex_value(s.last()).unwrap();
            assert(h < pow16_nat((s.len() - 1) as nat));
            assert(d < 16);
            assert(h * 16 + d < 16 * pow16_nat((s.len() - 1) as nat)) by (nonlinear_arith)
                requires
                    h < pow16_nat((s.len() - 1) as nat),
                    d < 16,
            ;
        }
    }
}

/// `16^k`.
pub open spec fn pow16_nat(k: nat) -> nat
    decreases k,
{
    if k == 0 {
        1
    } else {
        16 * pow16_nat((k - 1) as nat)
    }
}

fn parse_hex_u16(s: &[char]) -> (r: Option<u16>)
    requires
        s@.len() <= 4,
    ensures
        r == spec_parse_hex_u16(s@),
{
    let start: usize = if s.len() > 0 && s[0] == '+' {
        1
    } else {
        0
    };
    let ghost digits = if s@.len() > 0 && s@[0] == '+' {
        s@.drop_first()
    } else {
        s@
    };
    assert(digits =~= s@.subrange(start as int, s@.len() as int));
    if start >= s.len() {
        return None;
    }
    let mut v: u16 = 0;
    let mut i: usize = start;
    assert(s@.subrange(start as int, start as int) =~= Seq::<char>::empty());
    while i < s.len()
        invariant
            s@.len() <= 4,
            start <= i <= s@.len(),
            digits == s@.subrange(start as int, s@.len() as int),
            digits == (if s@.len() > 0 && s@[0] == '+' {
                s@.drop_first()
            } else {
                s@
            }),
            digits.len() > 0,
            hex_digits_value(s@.subrange(start as int, i as int)) == Some(v as nat),
        decreases s.len() - i,
    {
        assert(s@.subrange(start as int, i + 1).drop_last() =~= s@.subrange(
            start as int,
            i as int,
        ));
        match hex_digit_value(s[i]) {
            None => {
                proof {
                    assert(s@.subrange(start as int, s@.len() as int)[i - start] == s@[i as int]);
                    lemma_none_propagates(s@.subrange(start as int, s@.len() as int), i - start);

                }
                return None;
            },
            Some(d) => {
                proof {
                    lemma_hex_digits_bound(s@.subrange(start as int, i + 1));
                    reveal_with_fuel(pow16_nat, 5);
                    assert(pow16_nat(4) == 65536);
                    if i + 1 - start < 4 {
                        assert(pow16_nat((i + 1 - start) as nat) <= 65536) by {
                            reveal_with_fuel(pow16_nat, 5);
                        }
                    }
                }
                v = v * 16 + d;
            },
        }
        i = i + 1;
    }
    assert(s@.subrange(start as int, s@.len() as int) =~= digits);
    Some(v)
}

/// Where `find_from` finds `key`, the whole key lies inside `s`.
proof fn lemma_find_from_bounds(s: Seq<char>, key: Seq<char>, from: int)
    ensures
        find_from(s, key, from) matches Some(p) ==> from <= p && p + key.len() <= s.len(),
    decreases s.len() - from,
{
    if !(from < 0 || from + key.len() > s.len()) && !(key.len() == 0 || s.subrange(
        from,
        from + key.len(),
    ) == key) {
        lemma_find_from_bounds(s, key, from + 1);
    }
}

/// A digit that is not hexadecimal makes every longer prefix fail.
proof fn lemma_none_propagates(s: Seq<char>, k: int)
    requires
        0 <= k < s.len(),
        hex_value(s[k]) is None,
    ensures
        hex_digits_value(s.subrange(0, k + 1)) is None,
        hex_digits_value(s) is None,
    decreases s.len(),
{
    assert(s.subrange(0, k + 1).last() == s[k]);
    if k + 1 < s.len() {
        lemma_none_propagates(s.drop_last(), k);
        assert(s.drop_last().subrange(0, k + 1) =~= s.subrange(0, k + 1));
    }
}

/// The hexadecimal field that follows `key` in `s` (compared in uppercase).
pub fn extract_hex_field(s: &str, key: &str) -> (r: Option<u16>)
    ensures
        r == spec_hex_field(s@, key@),
{
    let chars = chars_of(s);
    let upper = upper_vec(&chars);
    let k = chars_of(key);
    match find_chars(&upper, &k) {
        None => None,
        Some(pos) => {
            proof {
                lemma_find_from_bounds(upper@, k@, 0);
            }
            if upper.len() - pos - k.len() < 4 {
                None
            } else {
                let start = pos + k.len();
                parse_hex_u16(vstd::slice::slice_subrange(upper.as_slice(), start, start + 4))
            }
        },
    }
}

/// The USB vendor and product identifiers in an instance identifier.
pub fn parse_vid_pid(instance_id: &str) -> (r: (Option<u16>, Option<u16>))
    ensures
        r.0 == spec_hex_field(instance_id@, "VID_"@),
        r.1 == spec_hex_field(instance_id@, "PID_"@),
{
    (extract_hex_field(instance_id, "VID_"), extract_hex_field(instance_id, "PID_"))
}

/// Whether a vendor identifier is present and allowed.
pub open spec fn spec_matches_allowlist(vid: Option<u16>, allowlist: Seq<u16>) -> bool {
    match vid {
        Some(v) => allowlist.contains(v),
        None => false,
    }
}

/// Whether `vid` is known and on the allowlist.
pub fn matches_allowlist(vid: Option<u16>, allowlist: &[u16]) -> (r: bool)
    ensures
        r == spec_matches_allowlist(vid, allowlist@),
{
    let v = match vid {
        None => return false,
        Some(v) => v,
    };
    assert(vid == Some(v));
    let mut i: usize = 0;
    while i < allowlist.len()
        invariant
            vid == Some(v),
            i <= allowlist@.len(),
            forall|k: int| 0 <= k < i ==> allowlist@[k] != v,
        decreases allowlist.len() - i,
    {
        if allowlist[i] == v {
            assert(allowlist@[i as int] == v);
            assert(allowlist@.contains(v));
            return true;
        }
        i = i + 1;
    }
    false
}

/// A drive selector such as `e:` normalized to `E:`.
pub open spec fn spec_normalize_volume_selector(s: Seq<char>) -> Option<Seq<char>> {
    if s.len() == 2 && is_ascii_alpha(s[0]) && s[1] == ':' {
        Some(seq![ascii_upper(s[0]), ':'])
    } else {
        None
    }
}

/// Whether `selector` is a drive letter followed by a colon.
pub fn looks_like_windows_volume_selector(selector: &str) -> (r: bool)
    ensures
        r == spec_normalize_volume_selector(selector@) is Some,
{
    let c = chars_of(selector);
    c.len() == 2 && (('a' <= c[0] && c[0] <= 'z') || ('A' <= c[0] && c[0] <= 'Z')) && c[1] == ':'
}

/// Normalizes a drive selector to an uppercase letter and a colon.
pub fn normalize_volume_selector(selector: &str) -> (r: Option<String>)
    ensures
        match r {
            Some(s) => spec_normalize_volume_selector(selector@) == Some(s@),
            None => spec_normalize_volume_selector(selector@) is None,
        },
{
    let c = chars_of(selector);
    if c.len() == 2 && (('a' <= c[0] && c[0] <= 'z') || ('A' <= c[0] && c[0] <= 'Z')) && c[1]
        == ':' {
        let letter = c[0];
        let upper: char = if 'a' <= letter && letter <= 'z' {
            let code: u8 = (letter as u32 - 32) as u8;
            code as char
        } else {
            letter
        };
        let mut out = upper_letter_str(upper).to_owned();
        out.append(":");
        proof {
            reveal_strlit(":");
        }
        assert(out@ =~= seq![ascii_upper(selector@[0]), ':']);
        Some(out)
    } else {
        None
    }
}

/// The raw device path of a drive selector, when it is one.
pub open spec fn spec_raw_volume_path(s: Seq<char>) -> Option<Seq<char>> {
    match spec_normalize_volume_selector(s) {
        Some(n) => Some("\\\\.\\"@ + n),
        None => None,
    }
}

/// The raw device path `\\.\X:` of a drive selector.
pub fn raw_volume_path(selector: &str) -> (r: Result<String, TransportError>)
    ensures
        match r {
            Ok(p) => spec_raw_volume_path(selector@) == Some(p@),
            Err(e) => spec_normalize_volume_selector(selector@) is None && (e matches TransportError::DeviceNotFound(s) && s@ == selector@),
        },
{
    match normalize_volume_selector(selector) {
        None => Err(TransportError::DeviceNotFound(selector.to_owned())),
        Some(n) => {
            let mut p = "\\\\.\\".to_owned();
            p.append(n.as_str());
            Ok(p)
        },
    }
}

/// `timeout_ms` rounded up to whole seconds, at least one.
pub open spec fn spec_timeout_secs(timeout_ms: u32) -> u32 {
    let c = (timeout_ms as int + 999) / 1000;
    if c < 1 {
        1
    } else {
        c as u32
    }
}

/// The pass-through timeout in seconds for a timeout in milliseconds.
pub fn timeout_secs(timeout_ms: u32) -> (r: u32)
    ensures
        r == spec_timeout_secs(timeout_ms),
{
    let q: u32 = timeout_ms / 1000 + if timeout_ms % 1000 != 0 {
        1
    } else {
        0
    };
    if q < 1 {
        1
    } else {
        q
    }
}

/// Whether an enumerated disk interface is kept: both queries succeeded, the
/// instance is a USB storage device, and its vendor is allowed.
pub open spec fn spec_keeps_interface(i: DiskInterface, allowlist: Seq<u16>) -> bool {
    &&& i.device_path is Some
    &&& i.instance_id is Some
    &&& spec_looks_like_usb_msc(i.instance_id->Some_0@)
    &&& spec_matches_allowlist(spec_hex_field(i.instance_id->Some_0@, "VID_"@), allowlist)
}

/// The candidate made from a kept interface.
pub open spec fn spec_interface_candidate(i: DiskInterface, guid: [u8; 16]) -> SetupApiUsbMscCandidate {
    let id = i.instance_id->Some_0;
    SetupApiUsbMscCandidate {
        device_path: i.device_path->Some_0,
        vid: spec_hex_field(id@, "VID_"@),
        pid: spec_hex_field(id@, "PID_"@),
        interface_guid: guid,
        note: id,
        visible_selector: None,
    }
}

/// The candidates made from the kept interfaces, in enumeration order.
pub open spec fn spec_select_candidates(
    ifs: Seq<DiskInterface>,
    allowlist: Seq<u16>,
    guid: [u8; 16],
) -> Seq<SetupApiUsbMscCandidate>
    decreases ifs.len(),
{
    if ifs.len() == 0 {
        Seq::empty()
    } else {
        let rest = spec_select_candidates(ifs.drop_last(), allowlist, guid);
        if spec_keeps_interface(ifs.last(), allowlist) {
            rest.push(spec_interface_candidate(ifs.last(), guid))
        } else {
            rest
        }
    }
}

/// Keeps the USB storage interfaces whose vendor is on the allowlist and turns
/// them into candidates, in enumeration order.
pub fn select_usb_msc_candidates(
    interfaces: &[DiskInterface],
    allowlist: &[u16],
    interface_guid: [u8; 16],
) -> (r: Vec<SetupApiUsbMscCandidate>)
    ensures
        r@ == spec_select_candidates(interfaces@, allowlist@, interface_guid),
{
    let mut out: Vec<SetupApiUsbMscCandidate> = Vec::new();
    let mut i: usize = 0;
    while i < interfaces.len()
        invariant
            i <= interfaces@.len(),
            out@ == spec_select_candidates(interfaces@.subrange(0, i as int), allowlist@, interface_guid),
        decreases interfaces.len() - i,
    {
        assert(interfaces@.subrange(0, i + 1).drop_last() =~= interfaces@.subrange(0, i as int));
        let item = &interfaces[i];
        match (&item.device_path, &item.instance_id) {
            (Some(path), Some(id)) => {
                if looks_like_usb_msc_instance(id.as_str()) {
                    let (vid, pid) = parse_vid_pid(id.as_str());
                    if matches_allowlist(vid, allowlist) {
                        out.push(
                            SetupApiUsbMscCandidate {
                                device_path: path.clone(),
                                vid,
                                pid,
                                interface_guid,
                                note: id.clone(),
                                visible_selector: None,
                            },
                        );
                    }
                }
            },
            _ => {},
        }
        i = i + 1;
    }
    assert(interfaces@.subrange(0, interfaces@.len() as int) =~= interfaces@);
    out
}

/// The first drive letter, counted from `A`, whose volume is on disk `n`.
pub open spec fn first_volume(volumes: Seq<Option<u32>>, n: u32, from: int) -> Option<int>
    decreases volumes.len() - from,
{
    if from < 0 || from >= volumes.len() {
        None
    } else if volumes[from] == Some(n) {
        Some(from)
    } else {
        first_volume(volumes, n, from + 1)
    }
}

/// The selector of the drive letter at `index` counted from `A`.
pub open spec fn letter_selector(index: int) -> Seq<char> {
    seq![(index + 65) as char, ':']
}

/// The visible selector a candidate on disk `number` gets, if any letter's volume is on that disk.
pub open spec fn spec_attached(
    c: SetupApiUsbMscCandidate,
    number: Option<u32>,
    volumes: Seq<Option<u32>>,
) -> Option<Seq<char>> {
    match number {
        None => None,
        Some(n) => match first_volume(volumes, n, 0) {
            Some(i) => Some(letter_selector(i)),
            None => None,
        },
    }
}

fn first_volume_index(volumes: &[Option<u32>], n: u32) -> (r: Option<usize>)
    ensures
        match r {
            Some(i) => first_volume(volumes@, n, 0) == Some(i as int),
            None => first_volume(volumes@, n, 0) is None,
        },
{
    let mut i: usize = 0;
    while i < volumes.len()
        invariant
            i <= volumes@.len(),
            first_volume(volumes@, n, 0) == first_volume(volumes@, n, i as int),
        decreases volumes.len() - i,
    {
        if volumes[i] == Some(n) {
            return Some(i);
        }
        i = i + 1;
    }
    None
}

fn letter_selector_string(index: usize) -> (r: String)
    requires
        index < 26,
    ensures
        r@ == letter_selector(index as int),
{
    let code: u8 = (index + 65) as u8;
    let mut s = upper_letter_str(code as char).to_owned();
    s.append(":");
    proof {
        reveal_strlit(":");
    }
    assert(s@ =~= letter_selector(index as int));
    s
}

/// Gives each candidate the drive letter of the first volume, counted from `A`,
/// that lies on the same disk; `candidate_numbers[k]` is the disk number of
/// candidate `k` and `volume_numbers[i]` that of the volume of letter `A + i`,
/// each absent when it could not be queried.
pub fn attach_visible_selectors(
    candidates: Vec<SetupApiUsbMscCandidate>,
    candidate_numbers: &[Option<u32>],
    volume_numbers: &[Option<u32>],
) -> (r: Vec<SetupApiUsbMscCandidate>)
    requires
        candidate_numbers@.len() == candidates@.len(),
        volume_numbers@.len() <= 26,
    ensures
        r@.len() == candidates@.len(),
        forall|k: int|
            0 <= k < r@.len() ==> {
                let c = candidates@[k];
                let d = #[trigger] r@[k];
                &&& d.device_path == c.device_path
                &&& d.vid == c.vid
                &&& d.pid == c.pid
                &&& d.interface_guid == c.interface_guid
                &&& d.note == c.note
                &&& match spec_attached(c, candidate_numbers@[k], volume_numbers@) {
                    Some(sel) => (d.visible_selector matches Some(s) && s@ == sel),
                    None => d.visible_selector == c.visible_selector,
                }
            },
{
    let ghost given = candidates@;
    let mut rest = candidates;
    let mut out: Vec<SetupApiUsbMscCandidate> = Vec::new();
    let mut k: usize = 0;
    while k < candidate_numbers.len()
        invariant
            candidate_numbers@.len() == given.len(),
            volume_numbers@.len() <= 26,
            k <= given.len(),
            out@.len() == k,
            rest@ == given.subrange(k as int, given.len() as int),
            forall|j: int|
                0 <= j < k ==> {
                    let c = given[j];
                    let d = #[trigger] out@[j];
                    &&& d.device_path == c.device_path
                    &&& d.vid == c.vid
                    &&& d.pid == c.pid
                    &&& d.interface_guid == c.interface_guid
                    &&& d.note == c.note
                    &&& match spec_attached(c, candidate_numbers@[j], volume_numbers@) {
                        Some(sel) => (d.visible_selector matches Some(s) && s@ == sel),
                        None => d.visible_selector == c.visible_selector,
                    }
                },
        decreases given.len() - k,
    {
        let mut c = rest.remove(0);
        assert(c == given[k as int]);
        assert(rest@ =~= given.subrange(k + 1, given.len() as int));
        match candidate_numbers[k] {
            Some(n) => match first_volume_index(volume_numbers, n) {
                Some(i) => {
                    proof {
                        lemma_first_volume_bounds(volume_numbers@, n, 0);
                    }
                    c.visible_selector = Some(letter_selector_string(i));
                },
                None => {},
            },
            None => {},
        }
        out.push(c);
        k = k + 1;
    }
    out
}

proof fn lemma_first_volume_bounds(volumes: Seq<Option<u32>>, n: u32, from: int)
    ensures
        first_volume(volumes, n, from) matches Some(i) ==> from <= i < volumes.len(),
    decreases volumes.len() - from,
{
    if !(from < 0 || from >= volumes.len()) && volumes[from] != Some(n) {
        lemma_first_volume_bounds(volumes, n, from + 1);
    }
}

/// The first candidate on disk `volume_number`, when there is one.
pub open spec fn first_on_disk(numbers: Seq<Option<u32>>, volume_number: u32, from: int) -> Option<
    int,
>
    decreases numbers.len() - from,
{
    if from < 0 || from >= numbers.len() {
        None
    } else if numbers[from] == Some(volume_number) {
        Some(from)
    } else {
        first_on_disk(numbers, volume_number, from + 1)
    }
}

/// Picks the first candidate that lies on the disk of the volume `selector`
/// (already normalized), giving it that selector; `DeviceNotFound` with the
/// selector when none does.
pub fn match_volume_candidate(
    selector: String,
    volume_number: u32,
    candidates: Vec<SetupApiUsbMscCandidate>,
    candidate_numbers: &[Option<u32>],
) -> (r: Result<SetupApiUsbMscCandidate, TransportError>)
    requires
        candidate_numbers@.len() == candidates@.len(),
    ensures
        match first_on_disk(candidate_numbers@, volume_number, 0) {
            Some(k) => (r matches Ok(c) && c.device_path == candidates@[k].device_path && c.vid
                == candidates@[k].vid && c.pid == candidates@[k].pid && c.interface_guid
                == candidates@[k].interface_guid && c.note == candidates@[k].note
                && c.visible_selector == Some(selector)),
            None => (r matches Err(TransportError::DeviceNotFound(s)) && s == selector),
        },
{
    let ghost given = candidates@;
    let mut rest = candidates;
    let mut k: usize = 0;
    while k < candidate_numbers.len()
        invariant
            candidate_numbers@.len() == given.len(),
            given == candidates@,
            k <= given.len(),
            rest@ == given.subrange(k as int, given.len() as int),
            first_on_disk(candidate_numbers@, volume_number, 0) == first_on_disk(
                candidate_numbers@,
                volume_number,
                k as int,
            ),
        decreases given.len() - k,
    {
        let mut c = rest.remove(0);
        assert(c == given[k as int]);
        assert(rest@ =~= given.subrange(k + 1, given.len() as int));
        if candidate_numbers[k] == Some(volume_number) {
            assert(first_on_disk(candidate_numbers@, volume_number, k as int) == Some(k as int));
            c.visible_selector = Some(selector);
            return Ok(c);
        }
        k = k + 1;
    }
    Err(TransportError::DeviceNotFound(selector))
}

/// The longest command descriptor block a pass-through request carries.
pub const SPTD_MAX_CDB_LEN: usize = 16;

/// How many sense bytes a pass-through request leaves room for.
pub const SPTD_SENSE_LEN: usize = 32;

/// Checks a request against what SCSI pass-through can carry and gives its data
/// phase: the command block must hold 1 to 16 bytes, and data may flow one way only.
pub fn sptd_transfer_plan(cdb_len: usize, data_out_len: Option<usize>, data_in_len: usize) -> (r:
    Result<(ScsiDirection, usize), TransportError>)
    ensures
        cdb_len == 0 || cdb_len > SPTD_MAX_CDB_LEN ==> (r matches Err(
            TransportError::InvalidCdbLength(n),
        ) && n == cdb_len),
        1 <= cdb_len <= SPTD_MAX_CDB_LEN && data_out_len is Some && data_in_len != 0 ==> (r matches Err(
            TransportError::WinScsi(m),
        ) && m@ == "bidirectional SCSI pass-through is not supported"@),
        1 <= cdb_len <= SPTD_MAX_CDB_LEN && !(data_out_len is Some && data_in_len != 0) ==> r
            == Ok::<(ScsiDirection, usize), TransportError>(spec_transfer(data_out_len, data_in_len)),
{
    if cdb_len == 0 || cdb_len > SPTD_MAX_CDB_LEN {
        return Err(TransportError::InvalidCdbLength(cdb_len));
    }
    if data_out_len.is_some() && data_in_len != 0 {
        return Err(
            TransportError::WinScsi("bidirectional SCSI pass-through is not supported".to_owned()),
        );
    }
    Ok(transfer_of(data_out_len, data_in_len))
}

/// The text of a failed pass-through request: the SCSI status in hexadecimal and
/// the sense bytes.
pub open spec fn sptd_failure_text(scsi_status: u8, sense: Seq<u8>) -> Seq<char> {
    "sptd failed: scsi_status=0x"@ + hex_padded(scsi_status as nat, 2) + ", sense="@
        + spec_hex_bytes(sense)
}

/// What a pass-through request gives once the driver has answered: a nonzero SCSI
/// status is a failure reported with the first `sense_info_length` sense bytes (at
/// most as many as the buffer holds); otherwise the whole data buffer, with no
/// residual count.
pub fn sptd_transfer_outcome(
    scsi_status: u8,
    sense_info_length: u8,
    sense: &[u8],
    data_in: Vec<u8>,
) -> (r: Result<ScsiResponse, TransportError>)
    ensures
        scsi_status != 0 ==> (r matches Err(TransportError::WinScsi(m)) && m@ == sptd_failure_text(
            scsi_status,
            sense@.subrange(
                0,
                if (sense_info_length as int) < sense@.len() {
                    sense_info_length as int
                } else {
                    sense@.len() as int
                },
            ),
        )),
        scsi_status == 0 ==> (r matches Ok(resp) && resp.resid == 0 && resp.data@ == data_in@),
{
    if scsi_status != 0 {
        let sense_len: usize = if (sense_info_length as usize) < sense.len() {
            sense_info_length as usize
        } else {
            sense.len()
        };
        let mut msg = "sptd failed: scsi_status=0x".to_owned();
        push_hex(&mut msg, scsi_status as u64, 2);
        msg.append(", sense=");
        let hex = hex_encode(vstd::slice::slice_subrange(sense, 0, sense_len));
        msg.append(hex.as_str());
        return Err(TransportError::WinScsi(msg));
    }
    Ok(ScsiResponse { data: data_in, resid: 0 })
}

/// The candidate a USB mass-storage disk interface stands for: its visible
/// selector, its interface path, its USB ids and its instance id as the note.
pub open spec fn usb_msc_candidate(c: SetupApiUsbMscCandidate) -> ScsiCandidate {
    ScsiCandidate {
        selector: c.visible_selector,
        path: c.device_path,
        vid: c.vid,
        pid: c.pid,
        note: Some(c.note),
    }
}

/// The candidates for the USB mass-storage disk interfaces found, in their order.
pub fn usb_msc_candidates(found: Vec<SetupApiUsbMscCandidate>) -> (r: Vec<ScsiCandidate>)
    ensures
        r@ == found@.map_values(|c: SetupApiUsbMscCandidate| usb_msc_candidate(c)),
{
    let mut out: Vec<ScsiCandidate> = Vec::new();
    let mut i: usize = 0;
    while i < found.len()
        invariant
            i <= found@.len(),
            out@ == found@.subrange(0, i as int).map_values(
                |c: SetupApiUsbMscCandidate| usb_msc_candidate(c),
            ),
        decreases found.len() - i,
    {
        let c = &found[i];
        out.push(
            ScsiCandidate {
                selector: crate::scsi::duplicate_opt_string(&c.visible_selector),
                path: c.device_path.clone(),
                vid: c.vid,
                pid: c.pid,
                note: Some(c.note.clone()),
            },
        );
        assert(found@.subrange(0, i + 1).map_values(
            |c: SetupApiUsbMscCandidate| usb_msc_candidate(c),
        ) =~= found@.subrange(0, i as int).map_values(
            |c: SetupApiUsbMscCandidate| usb_msc_candidate(c),
        ).push(usb_msc_candidate(found@[i as int])));
        i = i + 1;
    }
    assert(found@.subrange(0, found@.len() as int) =~= found@);
    out
}

/// The text `String::from_utf16` decodes from UTF-16 code units, none when they are
/// not valid UTF-16 (an unpaired surrogate).
pub uninterp spec fn utf16_decode(units: Seq<u16>) -> Option<Seq<char>>;

/// `String::from_utf16`: the text the code units encode, when they are valid UTF-16.
#[verifier::external_body]
fn utf16_string(units: &[u16]) -> (r: Option<String>)
    ensures
        match r {
            Some(s) => utf16_decode(units@) == Some(s@),
            None => utf16_decode(units@) is None,
        },
{
    String::from_utf16(units).ok()
}

/// Where the first NUL of `units` is, or its length when it has none.
pub open spec fn first_nul(units: Seq<u16>) -> int
    decreases units.len(),
{
    if units.len() == 0 {
        0
    } else if units[0] == 0 {
        0
    } else {
        1 + first_nul(units.drop_first())
    }
}

proof fn lemma_first_nul_bounds(units: Seq<u16>)
    ensures
        0 <= first_nul(units) <= units.len(),
        forall|k: int| 0 <= k < first_nul(units) ==> units[k] != 0,
        first_nul(units) < units.len() ==> units[first_nul(units)] == 0,
    decreases units.len(),
{
    if units.len() > 0 && units[0] != 0 {
        lemma_first_nul_bounds(units.drop_first());
        assert forall|k: int| 0 <= k < first_nul(units) implies units[k] != 0 by {
            if k > 0 {
                assert(units[k] == units.drop_first()[k - 1]);
            }
        }
    }
}

/// The text of a NUL-terminated UTF-16 device instance id: the units before the
/// first NUL (all of them when there is none), decoded.
pub fn widestr_to_string(buf: &[u16]) -> (r: Result<String, TransportError>)
    ensures
        match utf16_decode(buf@.subrange(0, first_nul(buf@))) {
            Some(t) => (r matches Ok(s) && s@ == t),
            None => (r matches Err(TransportError::WinScsi(m)) && m@
                == "failed to decode UTF-16 device instance id"@),
        },
{
    proof {
        lemma_first_nul_bounds(buf@);
    }
    let mut len: usize = 0;
    while len < buf.len() && buf[len] != 0
        invariant
            len <= buf@.len(),
            len <= first_nul(buf@),
            0 <= first_nul(buf@) <= buf@.len(),
            forall|k: int| 0 <= k < first_nul(buf@) ==> buf@[k] != 0,
            first_nul(buf@) < buf@.len() ==> buf@[first_nul(buf@)] == 0,
        decreases buf.len() - len,
    {
        len = len + 1;
    }
    match utf16_string(vstd::slice::slice_subrange(buf, 0, len)) {
        Some(s) => Ok(s),
        None => Err(TransportError::WinScsi("failed to decode UTF-16 device instance id".to_owned())),
    }
}

/// The text of a device interface path given as the UTF-16 units before its NUL.
pub fn interface_path_text(units: &[u16]) -> (r: Result<String, TransportError>)
    ensures
        match utf16_decode(units@) {
            Some(t) => (r matches Ok(s) && s@ == t),
            None => (r matches Err(TransportError::WinScsi(m)) && m@
                == "failed to decode UTF-16 device interface path"@),
        },
{
    match utf16_string(units) {
        Some(s) => Ok(s),
        None => Err(
            TransportError::WinScsi("failed to decode UTF-16 device interface path".to_owned()),
        ),
    }
}

/// The sixteen bytes of a GUID as Windows lays it out: the first three fields
/// little endian, then the last eight bytes as they are.
pub open spec fn spec_guid_bytes(data1: u32, data2: u16, data3: u16, data4: [u8; 8]) -> Seq<u8> {
    seq![
        (data1 % 0x100) as u8,
        ((data1 / 0x100) % 0x100) as u8,
        ((data1 / 0x1_0000) % 0x100) as u8,
        (data1 / 0x100_0000) as u8,
        (data2 % 0x100) as u8,
        (data2 / 0x100) as u8,
        (data3 % 0x100) as u8,
        (data3 / 0x100) as u8,
    ] + data4@
}

/// The bytes of a GUID given by its fields.
pub fn guid_bytes(data1: u32, data2: u16, data3: u16, data4: [u8; 8]) -> (r: [u8; 16])
    ensures
        r@ == spec_guid_bytes(data1, data2, data3, data4),
{
    let r: [u8; 16] = [
        (data1 % 0x100) as u8,
        ((data1 / 0x100) % 0x100) as u8,
        ((data1 / 0x1_0000) % 0x100) as u8,
        (data1 / 0x100_0000) as u8,
        (data2 % 0x100) as u8,
        (data2 / 0x100) as u8,
        (data3 % 0x100) as u8,
        (data3 / 0x100) as u8,
        data4[0],
        data4[1],
        data4[2],
        data4[3],
        data4[4],
        data4[5],
        data4[6],
        data4[7],
    ];
    assert(r@ =~= spec_guid_bytes(data1, data2, data3, data4));
    r
}

} // verus!
