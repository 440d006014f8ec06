//! SCSI pass-through transport model: requests, responses, transport errors,
//! the transport trait with the record of exchanges it has performed, and the
//! decoding of INQUIRY data.

use vstd::prelude::*;
use vstd::utf8::*;

use crate::text::{decimal_chars, push_decimal};

verus! {

#[verifier::external_type_specification]
#[verifier::external_body]
pub struct ExIoError(std::io::Error);

/// Direction of the data phase of a SCSI command.
#[derive(Debug, Clone, Copy, PartialEq, Eq)]
pub enum ScsiDirection {
    NoTransfer,
    ToDevice,
    FromDevice,
}

/// What a transport returns for a command: the data read and the residual count.
#[derive(Debug, Clone)]
pub struct ScsiResponse {
    pub data: Vec<u8>,
    pub resid: usize,
}

/// Standard INQUIRY data: trimmed vendor, product and revision fields and the raw bytes.
#[derive(Debug, Clone)]
pub struct InquiryData {
    pub vendor: String,
    pub product: String,
    pub revision: String,
    pub raw: Vec<u8>,
}

/// A device that may be a download-mode target.
#[derive(Debug, Clone)]
pub struct ScsiCandidate {
    /// The selector a user sees for the device, when one is known.
    pub selector: Option<String>,
    /// The path the transport opens.
    pub path: String,
    pub vid: Option<u16>,
    pub pid: Option<u16>,
    pub note: Option<String>,
}

/// A copy of an optional string.
pub fn duplicate_opt_string(s: &Option<String>) -> (r: Option<String>)
    ensures
        r == *s,
{
    match s {
        Some(x) => Some(x.clone()),
        None => None,
    }
}

impl ScsiCandidate {
    /// A field-by-field copy of the candidate.
    pub fn duplicate(&self) -> (r: ScsiCandidate)
        ensures
            r == *self,
    {
        ScsiCandidate {
            selector: duplicate_opt_string(&self.selector),
            path: self.path.clone(),
            vid: self.vid,
            pid: self.pid,
            note: duplicate_opt_string(&self.note),
        }
    }
}

/// The candidate for a SCSI generic node found by listing: the path is also its selector.
pub open spec fn sg_candidate(path: String) -> ScsiCandidate {
    ScsiCandidate { selector: Some(path), path, vid: None, pid: None, note: None }
}

/// The candidates for the SCSI generic nodes found by listing, in their order.
pub fn sg_candidates(paths: Vec<String>) -> (r: Vec<ScsiCandidate>)
    ensures
        r@ == paths@.map_values(|p: String| sg_candidate(p)),
{
    let mut out: Vec<ScsiCandidate> = Vec::new();
    let mut i: usize = 0;
    while i < paths.len()
        invariant
            i <= paths@.len(),
            out@ == paths@.subrange(0, i as int).map_values(|p: String| sg_candidate(p)),
        decreases paths.len() - i,
    {
        let p = paths[i].clone();
        out.push(ScsiCandidate { selector: Some(p.clone()), path: p, vid: None, pid: None, note: None });
        assert(paths@.subrange(0, i + 1).map_values(|p: String| sg_candidate(p)) =~= paths@.subrange(
            0,
            i as int,
        ).map_values(|p: String| sg_candidate(p)).push(sg_candidate(paths@[i as int])));
        i = i + 1;
    }
    assert(paths@.subrange(0, paths@.len() as int) =~= paths@);
    out
}

/// The transport paths of the candidates, in their order.
pub fn candidate_device_paths(candidates: &[ScsiCandidate]) -> (r: Vec<String>)
    ensures
        r@ == candidates@.map_values(|c: ScsiCandidate| c.path),
{
    let mut out: Vec<String> = Vec::new();
    let mut i: usize = 0;
    while i < candidates.len()
        invariant
            i <= candidates@.len(),
            out@ == candidates@.subrange(0, i as int).map_values(|c: ScsiCandidate| c.path),
        decreases candidates.len() - i,
    {
        out.push(candidates[i].path.clone());
        assert(candidates@.subrange(0, i + 1).map_values(|c: ScsiCandidate| c.path)
            =~= candidates@.subrange(0, i as int).map_values(|c: ScsiCandidate| c.path).push(
            candidates@[i as int].path,
        ));
        i = i + 1;
    }
    assert(candidates@.subrange(0, candidates@.len() as int) =~= candidates@);
    out
}

/// Transport-layer failures.
#[derive(Debug)]
pub enum TransportError {
    Unsupported,
    DeviceNotFound(String),
    Io(std::io::Error),
    InvalidCdbLength(usize),
    SgIo(String),
    WinScsi(String),
    InvalidInquiry,
}

/// One command exchange with a device: what was sent and what came back.
pub struct ScsiExchange {
    pub cdb: Seq<u8>,
    pub data_out: Option<Seq<u8>>,
    pub data_in_len: usize,
    pub outcome: Result<ScsiResponse, TransportError>,
}

/// An event in the life of a transport.
pub enum ScsiEvent {
    /// A command with its data phase and its outcome.
    Exec(ScsiExchange),
    /// An INQUIRY with its outcome.
    Inquiry(Result<InquiryData, TransportError>),
}

/// The view of an optional outgoing data buffer.
pub open spec fn opt_bytes(data_out: Option<&[u8]>) -> Option<Seq<u8>> {
    match data_out {
        Some(d) => Some(d@),
        None => None,
    }
}

/// The event recorded for a command exchange.
pub open spec fn exec_event(
    cdb: Seq<u8>,
    data_out: Option<Seq<u8>>,
    data_in_len: usize,
    outcome: Result<ScsiResponse, TransportError>,
) -> ScsiEvent {
    ScsiEvent::Exec(ScsiExchange { cdb, data_out, data_in_len, outcome })
}

/// A SCSI pass-through transport. `history` is the sequence of exchanges the
/// transport has performed; every operation appends exactly one event to it.
pub trait ScsiTransport {
    /// The exchanges performed so far, oldest first. The provided body, an empty
    /// record, only lets implementations outside verified code leave it out; an
    /// implementation whose operations are verified must define it, since every
    /// operation appends to it.
    closed spec fn history(&self) -> Seq<ScsiEvent> {
        Seq::empty()
    }

    /// The path of the device this transport talks to.
    fn path(&self) -> &str;

    /// Sends `cdb`, with `data_out` to the device or `data_in_len` bytes expected from it.
    fn exec(&mut self, cdb: &[u8], data_out: Option<&[u8]>, data_in_len: usize) -> (r: Result<
        ScsiResponse,
        TransportError,
    >)
        ensures
            final(self).history() == old(self).history().push(
                exec_event(cdb@, opt_bytes(data_out), data_in_len, r),
            ),
    ;

    /// Performs a standard INQUIRY.
    fn inquiry(&mut self) -> (r: Result<InquiryData, TransportError>)
        ensures
            final(self).history() == old(self).history().push(ScsiEvent::Inquiry(r)),
    ;
}

/// The data phase a request asks for: outgoing data goes to the device, else a
/// nonzero expected length comes from the device, else there is no data phase.
/// The length is that of the data phase.
pub open spec fn spec_transfer(data_out_len: Option<usize>, data_in_len: usize) -> (
    ScsiDirection,
    usize,
) {
    match data_out_len {
        Some(n) => (ScsiDirection::ToDevice, n),
        None => if data_in_len > 0 {
            (ScsiDirection::FromDevice, data_in_len)
        } else {
            (ScsiDirection::NoTransfer, 0)
        },
    }
}

/// The data phase of a request that is not bidirectional.
pub fn transfer_of(data_out_len: Option<usize>, data_in_len: usize) -> (r: (ScsiDirection, usize))
    ensures
        r == spec_transfer(data_out_len, data_in_len),
{
    match data_out_len {
        Some(n) => (ScsiDirection::ToDevice, n),
        None => if data_in_len > 0 {
            (ScsiDirection::FromDevice, data_in_len)
        } else {
            (ScsiDirection::NoTransfer, 0)
        },
    }
}

/// Whether `c` has the Unicode `White_Space` property, which is what
/// `char::is_whitespace` reports and what `str::trim` strips.
pub uninterp spec fn unicode_white_space(c: char) -> bool;

/// `s` without its leading Unicode white space.
pub open spec fn trim_start_chars(s: Seq<char>) -> Seq<char>
    decreases s.len(),
{
    if s.len() > 0 && unicode_white_space(s[0]) {
        trim_start_chars(s.drop_first())
    } else {
        s
    }
}

/// `s` without its trailing Unicode white space.
pub open spec fn trim_end_chars(s: Seq<char>) -> Seq<char>
    decreases s.len(),
{
    if s.len() > 0 && unicode_white_space(s.last()) {
        trim_end_chars(s.drop_last())
    } else {
        s
    }
}

/// `s` without its leading and trailing Unicode white space.
pub open spec fn trim_chars(s: Seq<char>) -> Seq<char> {
    trim_end_chars(trim_start_chars(s))
}

/// `str::trim`: the slice of `s` without leading and trailing Unicode white space.
#[verifier::external_body]
fn trim_str(s: &str) -> (r: &str)
    ensures
        r@ == trim_chars(s@),
        r@.len() > 0 ==> !unicode_white_space(r@[0]) && !unicode_white_space(r@.last()),
{
    s.trim()
}

/// `std::str::from_utf8`: the text the bytes encode, when they are valid UTF-8.
#[verifier::external_body]
pub(crate) fn utf8_str(bytes: &[u8]) -> (r: Option<&str>)
    ensures
        r is Some <==> valid_utf8(bytes@),
        r matches Some(s) ==> s@ == decode_utf8(bytes@),
{
    std::str::from_utf8(bytes).ok()
}

/// The text of an INQUIRY field: the UTF-8 text of the bytes with surrounding white space removed.
pub open spec fn spec_ascii_field(buf: Seq<u8>, text: Seq<char>) -> bool {
    valid_utf8(buf) && text == trim_chars(decode_utf8(buf))
}

/// Decodes one fixed-width INQUIRY text field.
pub fn ascii_field(buf: &[u8]) -> (r: Result<String, TransportError>)
    ensures
        r is Err <==> !valid_utf8(buf@),
        r matches Err(e) ==> e == TransportError::InvalidInquiry,
        r matches Ok(s) ==> spec_ascii_field(buf@, s@),
{
    match utf8_str(buf) {
        None => Err(TransportError::InvalidInquiry),
        Some(s) => {
            let t = trim_str(s);
            Ok(t.to_owned())
        },
    }
}

/// Decodes standard INQUIRY data: at least 36 bytes, vendor at 8..16, product
/// at 16..32 and revision at 32..36.
pub fn parse_inquiry(data: Vec<u8>) -> (r: Result<InquiryData, TransportError>)
    ensures
        r is Ok <==> data@.len() >= 36 && valid_utf8(data@.subrange(8, 16)) && valid_utf8(
            data@.subrange(16, 32),
        ) && valid_utf8(data@.subrange(32, 36)),
        r matches Err(e) ==> e == TransportError::InvalidInquiry,
        r matches Ok(inq) ==> {
            &&& inq.raw@ == data@
            &&& spec_ascii_field(data@.subrange(8, 16), inq.vendor@)
            &&& spec_ascii_field(data@.subrange(16, 32), inq.product@)
            &&& spec_ascii_field(data@.subrange(32, 36), inq.revision@)
        },
{
    if data.len() < 36 {
        return Err(TransportError::InvalidInquiry);
    }
    let vendor = match ascii_field(vstd::slice::slice_subrange(data.as_slice(), 8, 16)) {
        Ok(v) => v,
        Err(e) => return Err(e),
    };
    let product = match ascii_field(vstd::slice::slice_subrange(data.as_slice(), 16, 32)) {
        Ok(v) => v,
        Err(e) => return Err(e),
    };
    let revision = match ascii_field(vstd::slice::slice_subrange(data.as_slice(), 32, 36)) {
        Ok(v) => v,
        Err(e) => return Err(e),
    };
    Ok(InquiryData { vendor, product, revision, raw: data })
}

/// The lowercase hexadecimal rendering of each byte, two digits per byte.
pub open spec fn spec_hex_bytes(buf: Seq<u8>) -> Seq<char>
    decreases buf.len(),
{
    if buf.len() == 0 {
        Seq::empty()
    } else {
        spec_hex_bytes(buf.drop_last()) + crate::text::hex_padded(buf.last() as nat, 2)
    }
}

/// Renders bytes as lowercase hexadecimal, two digits per byte.
pub fn hex_encode(buf: &[u8]) -> (r: String)
    ensures
        r@ == spec_hex_bytes(buf@),
{
    let mut out = String::new();
    let mut i: usize = 0;
    while i < buf.len()
        invariant
            i <= buf.len(),
            out@ == spec_hex_bytes(buf@.subrange(0, i as int)),
        decreases buf.len() - i,
    {
        assert(buf@.subrange(0, i + 1).drop_last() =~= buf@.subrange(0, i as int));
        crate::text::push_hex(&mut out, buf[i] as u64, 2);
        i = i + 1;
    }
    assert(buf@.subrange(0, buf.len() as int) =~= buf@);
    out
}

/// `Display` of `std::io::Error`; the text comes from the operating system and
/// nothing is stated of it.
#[verifier::external_body]
pub(crate) fn io_error_text(e: &std::io::Error) -> String {
    e.to_string()
}

/// The text of a `TransportError` other than `Io`, whose text comes from the system.
pub open spec fn spec_transport_message(e: TransportError) -> Seq<char> {
    match e {
        TransportError::Unsupported => "unsupported on this platform"@,
        TransportError::DeviceNotFound(s) => "device path not found: "@ + s@,
        TransportError::Io(_) => "io error: "@,
        TransportError::InvalidCdbLength(n) => "invalid cdb length: "@ + decimal_chars(n as nat),
        TransportError::SgIo(s) => "linux SG_IO transport error: "@ + s@,
        TransportError::WinScsi(s) => "windows SCSI transport error: "@ + s@,
        TransportError::InvalidInquiry => "invalid inquiry response"@,
    }
}

impl TransportError {
    /// The text describing the error; for `Io` the system's text follows `io error: `.
    pub fn message(&self) -> (r: String)
        ensures
            !(*self is Io) ==> r@ == spec_transport_message(*self),
            *self is Io ==> crate::text::chars_start_with(r@, "io error: "@),
    {
        match self {
            TransportError::Unsupported => "unsupported on this platform".to_owned(),
            TransportError::DeviceNotFound(p) => {
                let mut s = "device path not found: ".to_owned();
                s.append(p.as_str());
                s
            },
            TransportError::Io(e) => {
                let mut s = "io error: ".to_owned();
                let text = io_error_text(e);
                let ghost head = s@;
                s.append(text.as_str());
                assert(s@.subrange(0, head.len() as int) =~= head);
                s
            },
            TransportError::InvalidCdbLength(n) => {
                let mut s = "invalid cdb length: ".to_owned();
                push_decimal(&mut s, *n as u64);
                s
            },
            TransportError::SgIo(m) => {
                let mut s = "linux SG_IO transport error: ".to_owned();
                s.append(m.as_str());
                s
            },
            TransportError::WinScsi(m) => {
                let mut s = "windows SCSI transport error: ".to_owned();
                s.append(m.as_str());
                s
            },
            TransportError::InvalidInquiry => "invalid inquiry response".to_owned(),
        }
    }
}
} // verus!
