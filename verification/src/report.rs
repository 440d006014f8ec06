//! The text report of `probe`: what the device said about itself, one field per
//! line, with the reason in place of each field the device could not give.

use vstd::prelude::*;

use crate::scsi::{InquiryData, TransportError};
use crate::text::{chars_start_with, decimal_chars, hex_padded, push_decimal, push_hex};
use crate::uboot::{spec_error_message, spec_online_name, Error, OnlineDeviceInfo, ProtocolKind};

verus! {

/// The `Debug` name of a protocol.
pub open spec fn spec_protocol_name(p: ProtocolKind) -> Seq<char> {
    match p {
        ProtocolKind::Uboot1 => "Uboot1"@,
        ProtocolKind::LoaderV1 => "LoaderV1"@,
        ProtocolKind::LoaderV2 => "LoaderV2"@,
    }
}

/// The `Debug` name of a protocol.
pub fn protocol_name(p: ProtocolKind) -> (r: &'static str)
    ensures
        r@ == spec_protocol_name(p),
{
    match p {
        ProtocolKind::Uboot1 => "Uboot1",
        ProtocolKind::LoaderV1 => "LoaderV1",
        ProtocolKind::LoaderV2 => "LoaderV2",
    }
}

/// The `Debug` rendering of an optional identifier: `Some(n)` or `None`.
pub open spec fn spec_opt_u32_debug(v: Option<u32>) -> Seq<char> {
    match v {
        Some(n) => "Some("@ + decimal_chars(n as nat) + ")"@,
        None => "None"@,
    }
}

/// Whether `text` describes `e`: exactly its message, or, for an I/O failure whose
/// words come from the system, a text that starts as such messages do.
pub open spec fn error_text_ok(e: Error, text: Seq<char>) -> bool {
    if e matches Error::Transport(TransportError::Io(_)) {
        chars_start_with(text, "io error: "@)
    } else {
        text == spec_error_message(e)
    }
}

/// Whether `value` reports `e` as an unavailable field: `<unavailable> (`, the
/// error's text, `)`.
pub open spec fn unavailable_ok(e: Error, value: Seq<char>) -> bool {
    &&& value.len() >= 16
    &&& value.subrange(0, 15) == "<unavailable> ("@
    &&& value.last() == ')'
    &&& error_text_ok(e, value.subrange(15, value.len() - 1))
}

/// Whether `line` is `label`, `: ` and the report of `r`: `shown(v)` for a value,
/// the unavailable form for an error.
pub open spec fn field_line_ok<T>(
    label: Seq<char>,
    r: Result<T, Error>,
    shown: spec_fn(T) -> Seq<char>,
    line: Seq<char>,
) -> bool {
    let head = label + ": "@;
    &&& chars_start_with(line, head)
    &&& match r {
        Ok(v) => line.subrange(head.len() as int, line.len() as int) == shown(v),
        Err(e) => unavailable_ok(e, line.subrange(head.len() as int, line.len() as int)),
    }
}

/// A plain report line: `label`, `: `, `value`.
pub open spec fn plain_line(label: Seq<char>, value: Seq<char>) -> Seq<char> {
    label + ": "@ + value
}

/// How the online device is shown: its kind and its identifier.
pub open spec fn shown_online(i: OnlineDeviceInfo) -> Seq<char> {
    spec_online_name(i.kind) + ", id: "@ + spec_opt_u32_debug(i.id)
}

/// How the flash identifier is shown: six hexadecimal digits.
pub open spec fn shown_flash_id(id: u32) -> Seq<char> {
    "0x"@ + hex_padded(id as nat, 6)
}

/// How the USB buffer size is shown: in decimal.
pub open spec fn shown_size(n: u32) -> Seq<char> {
    decimal_chars(n as nat)
}

/// How the loader version is shown: the version, or `<unknown>` when the loader gave none.
pub open spec fn shown_version(v: Option<String>) -> Seq<char> {
    match v {
        Some(s) => s@,
        None => "<unknown>"@,
    }
}

/// How the mask ROM identifier is shown: eight hexadecimal digits.
pub open spec fn shown_maskrom_id(id: u32) -> Seq<char> {
    "0x"@ + hex_padded(id as nat, 8)
}

/// Appends the unavailable form of `e` to `s`.
fn push_unavailable(s: &mut String, e: &Error)
    ensures
        chars_start_with(final(s)@, old(s)@),
        unavailable_ok(*e, final(s)@.subrange(old(s)@.len() as int, final(s)@.len() as int)),
{
    let ghost start = s@;
    s.append("<unavailable> (");
    let text = e.message();
    s.append(text.as_str());
    s.append(")");
    proof {
        reveal_strlit("<unavailable> (");
        reveal_strlit(")");
        let v = s@.subrange(start.len() as int, s@.len() as int);
        assert(v =~= "<unavailable> ("@ + text@ + ")"@);
        assert(v.subrange(0, 15) =~= "<unavailable> ("@);
        assert(v.subrange(15, v.len() - 1) =~= text@);
        assert(s@.subrange(0, start.len() as int) =~= start);
    }
}

/// Starts a line with `label` and `: `.
fn line_head(label: &str) -> (r: String)
    ensures
        r@ == label@ + ": "@,
{
    let mut s = label.to_owned();
    s.append(": ");
    s
}

/// The lines of the `probe` report: device selector, vendor, product, revision,
/// protocol, then online device, flash identifier, USB buffer size, loader version
/// and mask ROM identifier, each of the last five shown or reported unavailable.
#[verifier::rlimit(40)]
pub fn probe_report(
    selector: &str,
    inquiry: &InquiryData,
    protocol: ProtocolKind,
    online: &Result<OnlineDeviceInfo, Error>,
    flash_id: &Result<u32, Error>,
    usb_buffer_size: &Result<u32, Error>,
    loader_version: &Result<Option<String>, Error>,
    maskrom_id: &Result<u32, Error>,
) -> (r: Vec<String>)
    ensures
        r@.len() == 10,
        r@[0]@ == plain_line("device          "@, selector@),
        r@[1]@ == plain_line("vendor          "@, inquiry.vendor@),
        r@[2]@ == plain_line("product         "@, inquiry.product@),
        r@[3]@ == plain_line("revision        "@, inquiry.revision@),
        r@[4]@ == plain_line("protocol        "@, spec_protocol_name(protocol)),
        field_line_ok("online device   "@, *online, |i: OnlineDeviceInfo| shown_online(i), r@[5]@),
        field_line_ok("flash id        "@, *flash_id, |v: u32| shown_flash_id(v), r@[6]@),
        field_line_ok("usb buffer size "@, *usb_buffer_size, |v: u32| shown_size(v), r@[7]@),
        field_line_ok(
            "loader version  "@,
            *loader_version,
            |v: Option<String>| shown_version(v),
            r@[8]@,
        ),
        field_line_ok("maskrom id      "@, *maskrom_id, |v: u32| shown_maskrom_id(v), r@[9]@),
{
    let mut lines: Vec<String> = Vec::new();
    let mut l0 = line_head("device          ");
    l0.append(selector);
    lines.push(l0);
    let mut l1 = line_head("vendor          ");
    l1.append(inquiry.vendor.as_str());
    lines.push(l1);
    let mut l2 = line_head("product         ");
    l2.append(inquiry.product.as_str());
    lines.push(l2);
    let mut l3 = line_head("revision        ");
    l3.append(inquiry.revision.as_str());
    lines.push(l3);
    let mut l4 = line_head("protocol        ");
    l4.append(protocol_name(protocol));
    lines.push(l4);

    let mut l5 = line_head("online device   ");
    let ghost h5 = l5@;
    match online {
        Ok(info) => {
            l5.append(info.kind.name());
            l5.append(", id: ");
            match info.id {
                Some(n) => {
                    l5.append("Some(");
                    push_decimal(&mut l5, n as u64);
                    l5.append(")");
                },
                None => {
                    l5.append("None");
                },
            }
            assert(l5@.subrange(h5.len() as int, l5@.len() as int) =~= shown_online(*info));
        },
        Err(e) => {
            push_unavailable(&mut l5, e);
        },
    }
    assert(l5@.subrange(0, h5.len() as int) =~= h5);
    lines.push(l5);

    let mut l6 = line_head("flash id        ");
    let ghost h6 = l6@;
    match flash_id {
        Ok(id) => {
            l6.append("0x");
            push_hex(&mut l6, *id as u64, 6);
            assert(l6@.subrange(h6.len() as int, l6@.len() as int) =~= shown_flash_id(*id));
        },
        Err(e) => {
            push_unavailable(&mut l6, e);
        },
    }
    assert(l6@.subrange(0, h6.len() as int) =~= h6);
    lines.push(l6);

    let mut l7 = line_head("usb buffer size ");
    let ghost h7 = l7@;
    match usb_buffer_size {
        Ok(n) => {
            push_decimal(&mut l7, *n as u64);
            assert(l7@.subrange(h7.len() as int, l7@.len() as int) =~= shown_size(*n));
        },
        Err(e) => {
            push_unavailable(&mut l7, e);
        },
    }
    assert(l7@.subrange(0, h7.len() as int) =~= h7);
    lines.push(l7);

    let mut l8 = line_head("loader version  ");
    let ghost h8 = l8@;
    match loader_version {
        Ok(v) => {
            match v {
                Some(text) => l8.append(text.as_str()),
                None => l8.append("<unknown>"),
            }
            assert(l8@.subrange(h8.len() as int, l8@.len() as int) =~= shown_version(*v));
        },
        Err(e) => {
            push_unavailable(&mut l8, e);
        },
    }
    assert(l8@.subrange(0, h8.len() as int) =~= h8);
    lines.push(l8);

    let mut l9 = line_head("maskrom id      ");
    let ghost h9 = l9@;
    match maskrom_id {
        Ok(id) => {
            l9.append("0x");
            push_hex(&mut l9, *id as u64, 8);
            assert(l9@.subrange(h9.len() as int, l9@.len() as int) =~= shown_maskrom_id(*id));
        },
        Err(e) => {
            push_unavailable(&mut l9, e);
        },
    }
    assert(l9@.subrange(0, h9.len() as int) =~= h9);
    lines.push(l9);
    lines
}

} // verus!
