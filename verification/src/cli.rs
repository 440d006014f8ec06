//! Decision logic of the command-line tools: choosing the target device,
//! confirmations, exit codes, chunked transfers, and text output.

use vstd::prelude::*;

use crate::scsi::{InquiryData, ScsiCandidate, TransportError};
use crate::text::{
    chars_start_with, decimal_chars, hex_padded, join_chars, push_char, push_decimal, push_hex,
    push_joined, spec_eq_ignore_ascii_case, str_eq_ignore_ascii_case, str_starts_with,
    string_views,
};
use crate::uboot::{spec_online_name, OnlineDeviceType};
use crate::uboot::Error;

verus! {

/// The device a command runs against: the selector shown to the user and the
/// path the transport opens.
#[derive(Debug, Clone)]
pub struct ResolvedDevice {
    pub selector: String,
    pub transport_path: String,
}

/// The selector a candidate is reported under: its own selector, else its note, else its path.
pub open spec fn spec_selector_for(c: ScsiCandidate) -> Seq<char> {
    match c.selector {
        Some(s) => s@,
        None => match c.note {
            Some(n) => n@,
            None => c.path@,
        },
    }
}

/// The selector a candidate is reported under.
pub fn selector_for_candidate(candidate: &ScsiCandidate) -> (r: String)
    ensures
        r@ == spec_selector_for(*candidate),
{
    match &candidate.selector {
        Some(s) => s.clone(),
        None => match &candidate.note {
            Some(n) => n.clone(),
            None => candidate.path.clone(),
        },
    }
}

/// What automatic detection makes of the matching candidates: the single match
/// (its selector and path), or the message of the `DeviceNotFound` error.
pub open spec fn spec_resolve_matches(matches: Seq<ScsiCandidate>) -> Result<
    (Seq<char>, Seq<char>),
    Seq<char>,
> {
    if matches.len() == 0 {
        Err("no matching JieLi download-mode target found"@)
    } else if matches.len() == 1 {
        Ok((spec_selector_for(matches[0]), matches[0].path@))
    } else {
        Err("multiple matching JieLi targets found ("@ + decimal_chars(matches.len())
            + "); pass --device"@)
    }
}

/// The view of a resolution result.
pub open spec fn resolved_view(r: Result<ResolvedDevice, TransportError>) -> Result<
    (Seq<char>, Seq<char>),
    Seq<char>,
> {
    match r {
        Ok(d) => Ok((d.selector@, d.transport_path@)),
        Err(TransportError::DeviceNotFound(m)) => Err(m@),
        Err(_) => Err(Seq::empty()),
    }
}

/// Resolves automatic detection: exactly one match is the target; none or
/// several is a `DeviceNotFound` error that asks for an explicit device.
pub fn resolve_auto_detect_matches(matches: Vec<ScsiCandidate>) -> (r: Result<
    ResolvedDevice,
    TransportError,
>)
    ensures
        resolved_view(r) == spec_resolve_matches(matches@),
        r is Err ==> r matches Err(TransportError::DeviceNotFound(_)),
{
    let n = matches.len();
    if n == 0 {
        return Err(
            TransportError::DeviceNotFound("no matching JieLi download-mode target found".to_owned()),
        );
    }
    if n == 1 {
        let candidate = &matches[0];
        return Ok(
            ResolvedDevice {
                selector: selector_for_candidate(candidate),
                transport_path: candidate.path.clone(),
            },
        );
    }
    let mut msg = "multiple matching JieLi targets found (".to_owned();
    push_decimal(&mut msg, n as u64);
    msg.append("); pass --device");
    Err(TransportError::DeviceNotFound(msg))
}

/// Automatic detection succeeds exactly when one candidate matches, and then
/// picks that candidate.
pub proof fn lemma_auto_detect_needs_exactly_one(matches: Seq<ScsiCandidate>)
    ensures
        spec_resolve_matches(matches) is Ok <==> matches.len() == 1,
        matches.len() == 1 ==> spec_resolve_matches(matches) == Ok::<
            (Seq<char>, Seq<char>),
            Seq<char>,
        >((spec_selector_for(matches[0]), matches[0].path@)),
{
}

/// The candidates whose flag is set, in order.
pub open spec fn kept(candidates: Seq<ScsiCandidate>, flags: Seq<bool>) -> Seq<ScsiCandidate>
    decreases candidates.len(),
{
    if candidates.len() == 0 || flags.len() != candidates.len() {
        Seq::empty()
    } else {
        let rest = kept(candidates.drop_last(), flags.drop_last());
        if flags.last() {
            rest.push(candidates.last())
        } else {
            rest
        }
    }
}

/// Keeps the candidates `is_match` accepts and resolves them as automatic detection does.
pub fn select_auto_detect_candidate<F: Fn(&ScsiCandidate) -> bool>(
    candidates: Vec<ScsiCandidate>,
    is_match: F,
) -> (r: Result<ResolvedDevice, TransportError>)
    requires
        forall|c: &ScsiCandidate| is_match.requires((c,)),
    ensures
        exists|flags: Seq<bool>|
            flags.len() == candidates@.len() && (forall|i: int|
                0 <= i < flags.len() ==> is_match.ensures((&candidates@[i],), #[trigger] flags[i]))
                && resolved_view(r) == spec_resolve_matches(kept(candidates@, flags)),
        r is Err ==> r matches Err(TransportError::DeviceNotFound(_)),
{
    let mut matches: Vec<ScsiCandidate> = Vec::new();
    let ghost mut flags: Seq<bool> = Seq::empty();
    let mut i: usize = 0;
    while i < candidates.len()
        invariant
            forall|c: &ScsiCandidate| is_match.requires((c,)),
            i <= candidates@.len(),
            flags.len() == i,
            forall|k: int|
                0 <= k < i ==> is_match.ensures((&candidates@[k],), #[trigger] flags[k]),
            matches@ == kept(candidates@.subrange(0, i as int), flags),
        decreases candidates.len() - i,
    {
        let c = &candidates[i];
        let keep = is_match(c);
        proof {
            assert(candidates@.subrange(0, i + 1).drop_last() =~= candidates@.subrange(0, i as int));
            let old_flags = flags;
            flags = flags.push(keep);
            assert(flags.drop_last() =~= old_flags);
        }
        if keep {
            matches.push(c.duplicate());
        }
        i = i + 1;
    }
    assert(candidates@.subrange(0, candidates@.len() as int) =~= candidates@);
    resolve_auto_detect_matches(matches)
}

/// Whether INQUIRY data names a JieLi download-mode target: its product starts
/// with `UBOOT`, `UDISK` or `DEVICE`.
pub open spec fn spec_is_jieli_target(inquiry: InquiryData) -> bool {
    chars_start_with(inquiry.product@, "UBOOT"@) || chars_start_with(inquiry.product@, "UDISK"@)
        || chars_start_with(inquiry.product@, "DEVICE"@)
}

/// Whether INQUIRY data names a JieLi download-mode target.
pub fn matches_jieli_candidate(inquiry: &InquiryData) -> (r: bool)
    ensures
        r == spec_is_jieli_target(*inquiry),
{
    let product = inquiry.product.as_str();
    str_starts_with(product, "UBOOT") || str_starts_with(product, "UDISK") || str_starts_with(
        product,
        "DEVICE",
    )
}

/// Whether a vendor filter accepts INQUIRY data: no filter accepts everything,
/// a filter accepts the vendor equal to it up to ASCII case.
pub open spec fn spec_vendor_accepts(inquiry: InquiryData, filter: Option<&str>) -> bool {
    match filter {
        None => true,
        Some(f) => spec_eq_ignore_ascii_case(inquiry.vendor@, f@),
    }
}

/// Applies the optional vendor filter of `find`.
pub fn vendor_filter_accepts(inquiry: &InquiryData, filter: Option<&str>) -> (r: bool)
    ensures
        r == spec_vendor_accepts(*inquiry, filter),
{
    match filter {
        None => true,
        Some(f) => str_eq_ignore_ascii_case(inquiry.vendor.as_str(), f),
    }
}

/// Errors of the command line itself.
#[derive(Debug, Clone)]
pub enum CliError {
    /// A destructive operation was asked for without confirmation; carries its name.
    ConfirmationRequired(String),
}

impl CliError {
    /// The text describing the error.
    pub fn message(&self) -> (r: String)
        ensures
            match self {
                CliError::ConfirmationRequired(op) => r@ == op@ + " is destructive; pass --yes to continue"@,
            },
    {
        match self {
            CliError::ConfirmationRequired(op) => {
                let mut s = op.clone();
                s.append(" is destructive; pass --yes to continue");
                s
            },
        }
    }
}

/// Lets a destructive operation `op` proceed only when it was confirmed.
pub fn require_yes(yes: bool, op: &str) -> (r: Result<(), CliError>)
    ensures
        yes <==> r is Ok,
        r matches Err(CliError::ConfirmationRequired(s)) ==> s@ == op@,
{
    if yes {
        return Ok(());
    }
    Err(CliError::ConfirmationRequired(op.to_owned()))
}

/// The exit status classes of the command-line tools.
#[derive(Debug, Clone, Copy, PartialEq, Eq)]
pub enum ExitCode {
    Success,
    Other,
    Io,
    DeviceNotFound,
    Transport,
    Protocol,
    ConfirmationRequired,
}

/// The process exit status of each class.
pub open spec fn spec_exit_status(c: ExitCode) -> i32 {
    match c {
        ExitCode::Success => 0,
        ExitCode::Other => 1,
        ExitCode::Io => 10,
        ExitCode::DeviceNotFound => 11,
        ExitCode::Transport => 12,
        ExitCode::Protocol => 13,
        ExitCode::ConfirmationRequired => 14,
    }
}

impl ExitCode {
    /// The process exit status.
    pub fn status(&self) -> (r: i32)
        ensures
            r == spec_exit_status(*self),
    {
        match self {
            ExitCode::Success => 0,
            ExitCode::Other => 1,
            ExitCode::Io => 10,
            ExitCode::DeviceNotFound => 11,
            ExitCode::Transport => 12,
            ExitCode::Protocol => 13,
            ExitCode::ConfirmationRequired => 14,
        }
    }
}

/// Why a command failed.
#[derive(Debug)]
pub enum Failure {
    /// A destructive operation was not confirmed.
    Cli(CliError),
    /// A local file could not be read or written.
    LocalIo(std::io::Error),
    /// The transport failed outside the protocol layer.
    Transport(TransportError),
    /// The protocol layer failed.
    Device(Error),
    /// Anything else, with its text.
    Other(String),
}

impl Failure {
    /// The text reported for the failure: the error's own text, the system's text
    /// for a local I/O failure.
    pub fn message(&self) -> (r: String)
        ensures
            *self matches Failure::Cli(CliError::ConfirmationRequired(op)) ==> r@ == op@
                + " is destructive; pass --yes to continue"@,
            *self matches Failure::Transport(t) ==> (!(t is Io) ==> r@
                == crate::scsi::spec_transport_message(t)),
            *self matches Failure::Device(e) ==> (!(e matches Error::Transport(
                TransportError::Io(_),
            )) ==> r@ == crate::uboot::spec_error_message(e)),
            *self matches Failure::Other(m) ==> r@ == m@,
    {
        match self {
            Failure::Cli(c) => c.message(),
            Failure::LocalIo(e) => crate::scsi::io_error_text(e),
            Failure::Transport(t) => t.message(),
            Failure::Device(e) => e.message(),
            Failure::Other(m) => m.clone(),
        }
    }
}

/// The class of a transport error: a missing device, a local I/O error, or a transport failure.
pub open spec fn spec_transport_exit(e: TransportError) -> ExitCode {
    match e {
        TransportError::DeviceNotFound(_) => ExitCode::DeviceNotFound,
        TransportError::Io(_) => ExitCode::Io,
        _ => ExitCode::Transport,
    }
}

/// The class of a failure of `jluboot`, whose unclassified failures exit with 1.
pub open spec fn spec_exit_code(f: Failure) -> ExitCode {
    match f {
        Failure::Cli(_) => ExitCode::ConfirmationRequired,
        Failure::LocalIo(_) => ExitCode::Io,
        Failure::Transport(t) => spec_transport_exit(t),
        Failure::Device(Error::Transport(t)) => spec_transport_exit(t),
        Failure::Device(_) => ExitCode::Protocol,
        Failure::Other(_) => ExitCode::Other,
    }
}

/// The class of a failure of `jlrunner`, whose unclassified failures count as protocol failures.
pub open spec fn spec_runner_exit_code(f: Failure) -> ExitCode {
    match f {
        Failure::Other(_) => ExitCode::Protocol,
        Failure::Cli(_) => ExitCode::Protocol,
        _ => spec_exit_code(f),
    }
}

fn transport_exit_code(e: &TransportError) -> (r: ExitCode)
    ensures
        r == spec_transport_exit(*e),
{
    match e {
        TransportError::DeviceNotFound(_) => ExitCode::DeviceNotFound,
        TransportError::Io(_) => ExitCode::Io,
        _ => ExitCode::Transport,
    }
}

/// The exit class of a `jluboot` failure.
pub fn exit_code_for(f: &Failure) -> (r: ExitCode)
    ensures
        r == spec_exit_code(*f),
{
    match f {
        Failure::Cli(_) => ExitCode::ConfirmationRequired,
        Failure::LocalIo(_) => ExitCode::Io,
        Failure::Transport(t) => transport_exit_code(t),
        Failure::Device(Error::Transport(t)) => transport_exit_code(t),
        Failure::Device(_) => ExitCode::Protocol,
        Failure::Other(_) => ExitCode::Other,
    }
}

/// The exit class of a `jlrunner` failure.
pub fn runner_exit_code_for(f: &Failure) -> (r: ExitCode)
    ensures
        r == spec_runner_exit_code(*f),
{
    match f {
        Failure::Other(_) => ExitCode::Protocol,
        Failure::Cli(_) => ExitCode::Protocol,
        _ => exit_code_for(f),
    }
}

/// The exit status policy: success is 0, and every failure exits with 1 (other),
/// 10 (local I/O), 11 (device not found), 12 (transport), 13 (protocol) or 14
/// (confirmation required), never with 0.
pub proof fn lemma_exit_status_policy(f: Failure)
    ensures
        spec_exit_status(ExitCode::Success) == 0,
        spec_exit_status(spec_exit_code(f)) != 0,
        spec_exit_status(spec_runner_exit_code(f)) != 0,
        spec_exit_status(spec_exit_code(f)) == 1 || (10 <= spec_exit_status(spec_exit_code(f))
            <= 14),
        10 <= spec_exit_status(spec_runner_exit_code(f)) <= 13,
{
}

/// Both tools classify I/O, transport and protocol failures alike; a missing
/// device is 11 whether the transport reports it directly or through the protocol layer.
pub proof fn lemma_exit_codes_agree(f: Failure)
    ensures
        !(f is Cli) && !(f is Other) ==> spec_runner_exit_code(f) == spec_exit_code(f),
        f matches Failure::Transport(TransportError::DeviceNotFound(_)) ==> spec_exit_code(f)
            == ExitCode::DeviceNotFound,
        f matches Failure::Device(Error::Transport(TransportError::DeviceNotFound(_)))
            ==> spec_exit_code(f) == ExitCode::DeviceNotFound,
{
}

/// The line printed for a progress step: `progress <label>: <done>/<total> bytes`.
pub open spec fn spec_progress_line(label: Seq<char>, done: nat, total: nat) -> Seq<char> {
    "progress "@ + label + ": "@ + decimal_chars(done) + "/"@ + decimal_chars(total) + " bytes"@
}

/// The text of a progress step.
pub fn progress_line(label: &str, done: usize, total: usize) -> (r: String)
    ensures
        r@ == spec_progress_line(label@, done as nat, total as nat),
{
    let mut s = "progress ".to_owned();
    s.append(label);
    s.append(": ");
    push_decimal(&mut s, done as u64);
    s.append("/");
    push_decimal(&mut s, total as u64);
    s.append(" bytes");
    s
}

/// `(base + offset) mod 2^32`: the 32-bit address at `offset` bytes from `base`.
pub open spec fn offset_address(base: u32, offset: int) -> u32 {
    ((base as int + offset) % 0x1_0000_0000) as u32
}

fn address_at(base: u32, offset: usize) -> (r: u32)
    ensures
        r == offset_address(base, offset as int),
{
    let low: u32 = offset as u32;
    let wide: u64 = offset as u64;
    assert(low as u64 == wide % 0x1_0000_0000u64) by (bit_vector)
        requires
            low == wide as u32,
    ;
    base.wrapping_add(low)
}

/// A read of `length` bytes from `address`, done in pieces of at most `chunk`
/// bytes: each request continues where the data gathered so far ends.
pub struct ChunkedRead {
    address: u32,
    length: usize,
    chunk: usize,
    offset: usize,
    data: Vec<u8>,
}

impl ChunkedRead {
    /// The address of the first byte to read.
    pub closed spec fn spec_address(&self) -> u32 {
        self.address
    }

    /// How many bytes to read in all.
    pub closed spec fn spec_length(&self) -> usize {
        self.length
    }

    /// The largest piece, at least one byte.
    pub closed spec fn spec_chunk(&self) -> usize {
        self.chunk
    }

    /// How many bytes have been requested and gathered.
    pub closed spec fn spec_offset(&self) -> usize {
        self.offset
    }

    /// The bytes gathered so far.
    pub closed spec fn spec_data(&self) -> Seq<u8> {
        self.data@
    }

    /// The read is consistent: pieces are at least one byte and no more was requested than asked for.
    pub closed spec fn wf(&self) -> bool {
        self.chunk >= 1 && self.offset <= self.length
    }

    /// The next request: the address and length of the next piece, none when the read is done.
    pub open spec fn spec_next(&self) -> Option<(u32, usize)> {
        if self.spec_offset() < self.spec_length() {
            let left = self.spec_length() - self.spec_offset();
            Some(
                (
                    offset_address(self.spec_address(), self.spec_offset() as int),
                    if left < self.spec_chunk() {
                        left as usize
                    } else {
                        self.spec_chunk()
                    },
                ),
            )
        } else {
            None
        }
    }

    /// A read that has gathered nothing yet; a chunk size of zero counts as one.
    pub fn new(address: u32, length: usize, chunk_size: usize) -> (r: Self)
        ensures
            r.wf(),
            r.spec_address() == address,
            r.spec_length() == length,
            r.spec_chunk() == (if chunk_size < 1 {
                1
            } else {
                chunk_size
            }),
            r.spec_offset() == 0,
            r.spec_data() == Seq::<u8>::empty(),
    {
        ChunkedRead {
            address,
            length,
            chunk: if chunk_size < 1 {
                1
            } else {
                chunk_size
            },
            offset: 0,
            data: Vec::new(),
        }
    }

    /// The next piece to read.
    pub fn next_request(&self) -> (r: Option<(u32, usize)>)
        requires
            self.wf(),
        ensures
            r == self.spec_next(),
    {
        if self.offset < self.length {
            let left = self.length - self.offset;
            let len = if left < self.chunk {
                left
            } else {
                self.chunk
            };
            Some((address_at(self.address, self.offset), len))
        } else {
            None
        }
    }

    /// Takes the bytes read for the current request; the read advances by the
    /// requested length.
    pub fn accept(&mut self, piece: &[u8])
        requires
            old(self).wf(),
            old(self).spec_next() is Some,
        ensures
            final(self).wf(),
            final(self).spec_address() == old(self).spec_address(),
            final(self).spec_length() == old(self).spec_length(),
            final(self).spec_chunk() == old(self).spec_chunk(),
            final(self).spec_offset() == old(self).spec_offset() + old(self).spec_next()->Some_0.1,
            final(self).spec_data() == old(self).spec_data() + piece@,
    {
        let left = self.length - self.offset;
        let len = if left < self.chunk {
            left
        } else {
            self.chunk
        };
        let mut i: usize = 0;
        let ghost start = self.data@;
        while i < piece.len()
            invariant
                i <= piece@.len(),
                self.data@ == start + piece@.subrange(0, i as int),
                self.address == old(self).address,
                self.length == old(self).length,
                self.chunk == old(self).chunk,
                self.offset == old(self).offset,
            decreases piece.len() - i,
        {
            self.data.push(piece[i]);
            i = i + 1;
            assert(self.data@ =~= start + piece@.subrange(0, i as int));
        }
        assert(piece@.subrange(0, piece@.len() as int) =~= piece@);
        self.offset = self.offset + len;
    }

    /// The bytes requested so far, for progress reports.
    pub fn done(&self) -> (r: usize)
        ensures
            r == self.spec_offset(),
    {
        self.offset
    }

    /// The total number of bytes to read.
    pub fn total(&self) -> (r: usize)
        ensures
            r == self.spec_length(),
    {
        self.length
    }

    /// The bytes gathered.
    pub fn into_data(self) -> (r: Vec<u8>)
        ensures
            r@ == self.spec_data(),
    {
        self.data
    }
}

/// A write of `total` bytes to `address` in pieces of at most `chunk` bytes;
/// piece `k` covers bytes `k * chunk ..` and goes to `address + k * chunk`.
pub struct ChunkedWrite {
    address: u32,
    total: usize,
    chunk: usize,
    start: usize,
}

impl ChunkedWrite {
    /// The address the first byte goes to.
    pub closed spec fn spec_address(&self) -> u32 {
        self.address
    }

    /// How many bytes to write in all.
    pub closed spec fn spec_total(&self) -> usize {
        self.total
    }

    /// The largest piece, at least one byte.
    pub closed spec fn spec_chunk(&self) -> usize {
        self.chunk
    }

    /// Where the next piece starts.
    pub closed spec fn spec_start(&self) -> usize {
        self.start
    }

    /// The write is consistent: pieces are at least one byte and none starts past the data.
    pub closed spec fn wf(&self) -> bool {
        self.chunk >= 1 && self.start <= self.total
    }

    /// The end of the piece that starts at `start`.
    pub open spec fn spec_end(&self) -> int {
        if self.spec_total() - self.spec_start() < self.spec_chunk() {
            self.spec_total() as int
        } else {
            self.spec_start() + self.spec_chunk()
        }
    }

    /// The next piece: its address and the range of the data it covers.
    pub open spec fn spec_next(&self) -> Option<(u32, usize, usize)> {
        if self.spec_start() < self.spec_total() {
            Some(
                (
                    offset_address(self.spec_address(), self.spec_start() as int),
                    self.spec_start(),
                    self.spec_end() as usize,
                ),
            )
        } else {
            None
        }
    }

    /// A write of `total` bytes that has sent nothing yet; a chunk size of zero counts as one.
    pub fn new(address: u32, total: usize, chunk_size: usize) -> (r: Self)
        ensures
            r.wf(),
            r.spec_address() == address,
            r.spec_total() == total,
            r.spec_chunk() == (if chunk_size < 1 {
                1
            } else {
                chunk_size
            }),
            r.spec_start() == 0,
    {
        ChunkedWrite {
            address,
            total,
            chunk: if chunk_size < 1 {
                1
            } else {
                chunk_size
            },
            start: 0,
        }
    }

    /// The next piece to send.
    pub fn next_chunk(&self) -> (r: Option<(u32, usize, usize)>)
        requires
            self.wf(),
        ensures
            r == self.spec_next(),
            r matches Some(t) ==> t.1 < t.2 <= self.spec_total(),
    {
        if self.start < self.total {
            let end = if self.total - self.start < self.chunk {
                self.total
            } else {
                self.start + self.chunk
            };
            Some((address_at(self.address, self.start), self.start, end))
        } else {
            None
        }
    }

    /// Records the current piece as sent and returns how many bytes have been sent.
    pub fn advance(&mut self) -> (done: usize)
        requires
            old(self).wf(),
            old(self).spec_next() is Some,
        ensures
            final(self).wf(),
            final(self).spec_address() == old(self).spec_address(),
            final(self).spec_total() == old(self).spec_total(),
            final(self).spec_chunk() == old(self).spec_chunk(),
            final(self).spec_start() == old(self).spec_end(),
            done == old(self).spec_end(),
    {
        let end = if self.total - self.start < self.chunk {
            self.total
        } else {
            self.start + self.chunk
        };
        self.start = end;
        end
    }
}

/// Each request of a chunked read is nonempty, at most one chunk long, starts at
/// the address where the gathered data ends and stays within the range; the read
/// is over exactly when all of it has been requested. The requests thus tile the
/// range in order.
pub proof fn lemma_chunked_read_tiles(r: ChunkedRead)
    requires
        r.wf(),
    ensures
        r.spec_next() matches Some(q) ==> 1 <= q.1 <= r.spec_chunk() && r.spec_offset() + q.1
            <= r.spec_length() && q.0 == offset_address(r.spec_address(), r.spec_offset() as int),
        r.spec_next() is None <==> r.spec_offset() == r.spec_length(),
{
}

/// Each piece of a chunked write starts where the previous one ended, is nonempty,
/// at most one chunk long, stays within the data, and goes to the address at its
/// offset; the write is over exactly when all the data has been sent.
pub proof fn lemma_chunked_write_tiles(w: ChunkedWrite)
    requires
        w.wf(),
    ensures
        w.spec_next() matches Some(q) ==> q.1 == w.spec_start() && q.1 < q.2 <= w.spec_total()
            && q.2 - q.1 <= w.spec_chunk() && q.0 == offset_address(w.spec_address(), q.1 as int),
        w.spec_next() is None <==> w.spec_start() == w.spec_total(),
{
}

/// Whether a byte is shown as itself in a hex dump.
pub open spec fn is_printable(b: u8) -> bool {
    0x20 <= b && b <= 0x7e
}

/// The character a byte is shown as in the text column of a hex dump.
pub open spec fn dump_char(b: u8) -> char {
    if is_printable(b) {
        b as char
    } else {
        '.'
    }
}

/// The hexadecimal cell for column `i` of a hex dump row: the byte and a space,
/// or three spaces past the end of the row.
pub open spec fn dump_cell(row: Seq<u8>, i: int) -> Seq<char> {
    if i < row.len() {
        hex_padded(row[i] as nat, 2) + " "@
    } else {
        "   "@
    }
}

/// The cells of the first `n` columns.
pub open spec fn dump_cells(row: Seq<u8>, n: nat) -> Seq<char>
    decreases n,
{
    if n == 0 {
        Seq::empty()
    } else {
        dump_cells(row, (n - 1) as nat) + dump_cell(row, n - 1)
    }
}

/// One hex dump line: the address in eight hex digits, sixteen cells, and the text column.
pub open spec fn spec_dump_line(row: Seq<u8>, addr: u32) -> Seq<char> {
    hex_padded(addr as nat, 8) + "  "@ + dump_cells(row, 16) + " "@ + Seq::new(
        row.len(),
        |i: int| dump_char(row[i]),
    )
}

/// Renders one hex dump line for up to sixteen bytes at `addr`.
pub fn hexdump_line(row: &[u8], addr: u32) -> (r: String)
    requires
        row@.len() <= 16,
    ensures
        r@ == spec_dump_line(row@, addr),
{
    let mut s = String::new();
    push_hex(&mut s, addr as u64, 8);
    s.append("  ");
    let ghost head = s@;
    let mut i: usize = 0;
    while i < 16
        invariant
            i <= 16,
            row@.len() <= 16,
            s@ == head + dump_cells(row@, i as nat),
        decreases 16 - i,
    {
        if i < row.len() {
            push_hex(&mut s, row[i] as u64, 2);
            s.append(" ");
        } else {
            s.append("   ");
        }
        i = i + 1;
        assert(s@ =~= head + dump_cells(row@, i as nat));
    }
    s.append(" ");
    let ghost mid = s@;
    let mut j: usize = 0;
    while j < row.len()
        invariant
            j <= row@.len(),
            s@ == mid + Seq::new(j as nat, |k: int| dump_char(row@[k])),
        decreases row.len() - j,
    {
        let b = row[j];
        let c: char = if 0x20 <= b && b <= 0x7e {
            b as char
        } else {
            '.'
        };
        push_char(&mut s, c);
        j = j + 1;
        assert(s@ =~= mid + Seq::new(j as nat, |k: int| dump_char(row@[k])));
    }
    assert(s@ =~= spec_dump_line(row@, addr));
    s
}

/// The row of a hex dump that starts at byte `16 * k`.
pub open spec fn dump_row(data: Seq<u8>, k: int) -> Seq<u8> {
    data.subrange(16 * k, if 16 * k + 16 < data.len() {
        16 * k + 16
    } else {
        data.len() as int
    })
}

/// Renders `data` as hex dump lines of sixteen bytes, the first at address `base`.
pub fn hexdump_lines(data: &[u8], base: u32) -> (r: Vec<String>)
    ensures
        r@.len() == (data@.len() + 15) / 16,
        forall|k: int|
            0 <= k < r@.len() ==> #[trigger] r@[k]@ == spec_dump_line(
                dump_row(data@, k),
                offset_address(base, 16 * k),
            ),
{
    let mut lines: Vec<String> = Vec::new();
    let mut start: usize = 0;
    let n = data.len();
    while start < n
        invariant
            n == data@.len(),
            start <= n,
            16 * lines@.len() >= start,
            16 * lines@.len() < start + 16,
            start < n ==> start == 16 * lines@.len(),
            forall|k: int|
                0 <= k < lines@.len() ==> #[trigger] lines@[k]@ == spec_dump_line(
                    dump_row(data@, k),
                    offset_address(base, 16 * k),
                ),
        decreases n - start,
    {
        let end = if n - start < 16 {
            n
        } else {
            start + 16
        };
        let row = vstd::slice::slice_subrange(data, start, end);
        let line = hexdump_line(row, address_at(base, start));
        lines.push(line);
        start = end;
    }
    lines
}

/// Where the data of a read goes.
#[derive(Debug, Clone, PartialEq, Eq)]
pub enum ReadOutput {
    /// Written to the named file.
    File(String),
    /// Written raw to standard output.
    Stdout,
    /// Shown as a hex dump.
    Hexdump,
}

/// Chooses where read data goes: a named file first, then raw standard output,
/// and a hex dump otherwise (whether or not one was asked for).
pub fn choose_read_output(output: Option<&str>, stdout: bool, hexdump: bool) -> (r: ReadOutput)
    ensures
        match output {
            Some(p) => r matches ReadOutput::File(f) && f@ == p@,
            None => if stdout {
                r == ReadOutput::Stdout
            } else {
                r == ReadOutput::Hexdump
            },
        },
{
    if let Some(path) = output {
        return ReadOutput::File(path.to_owned());
    }
    if stdout {
        return ReadOutput::Stdout;
    }
    ReadOutput::Hexdump
}

/// The detail shown for the online device in `find` output.
pub fn online_detail(kind: OnlineDeviceType) -> (r: String)
    ensures
        r@ == "online="@ + spec_online_name(kind),
{
    let mut s = "online=".to_owned();
    s.append(kind.name());
    s
}

/// The detail shown for the flash identifier in `find` output.
pub fn flash_detail(id: u32) -> (r: String)
    ensures
        r@ == "flash=0x"@ + hex_padded(id as nat, 6),
{
    let mut s = "flash=0x".to_owned();
    push_hex(&mut s, id as u64, 6);
    s
}

/// The detail shown for the loader version in `find` output.
pub fn version_detail(version: &str) -> (r: String)
    ensures
        r@ == "ver="@ + version@,
{
    let mut s = "ver=".to_owned();
    s.append(version);
    s
}

/// `text` behind `label` when present, nothing otherwise.
pub open spec fn opt_field(label: Seq<char>, text: Option<Seq<char>>) -> Seq<char> {
    match text {
        Some(t) => label + t,
        None => Seq::empty(),
    }
}

/// The view of an optional string.
pub open spec fn opt_view(s: Option<String>) -> Option<Seq<char>> {
    match s {
        Some(t) => Some(t@),
        None => None,
    }
}

/// The hex rendering of an optional identifier.
pub open spec fn opt_hex4(v: Option<u16>) -> Option<Seq<char>> {
    match v {
        Some(x) => Some(hex_padded(x as nat, 4)),
        None => None,
    }
}

/// One line of `find` output: path, vendor, product and revision, the probe
/// details in brackets when there are any, then selector, USB identifiers and note when known.
pub open spec fn spec_find_line(c: ScsiCandidate, inq: InquiryData, details: Seq<Seq<char>>) -> Seq<
    char,
> {
    c.path@ + "  "@ + inq.vendor@ + " "@ + inq.product@ + " ("@ + inq.revision@ + ")"@ + (if details.len()
        > 0 {
        "  ["@ + join_chars(details, ", "@) + "]"@
    } else {
        Seq::empty()
    }) + opt_field("  selector="@, opt_view(c.selector)) + opt_field("  vid=0x"@, opt_hex4(c.vid))
        + opt_field("  pid=0x"@, opt_hex4(c.pid)) + opt_field("  note="@, opt_view(c.note))
}

/// Renders one line of `find` output.
#[verifier::rlimit(40)]
pub fn find_text_line(candidate: &ScsiCandidate, inquiry: &InquiryData, details: &[String]) -> (r:
    String)
    ensures
        r@ == spec_find_line(*candidate, *inquiry, string_views(details@)),
{
    let mut s = candidate.path.clone();
    s.append("  ");
    s.append(inquiry.vendor.as_str());
    s.append(" ");
    s.append(inquiry.product.as_str());
    s.append(" (");
    s.append(inquiry.revision.as_str());
    s.append(")");
    let ghost a = s@;
    assert(a =~= candidate.path@ + "  "@ + inquiry.vendor@ + " "@ + inquiry.product@ + " ("@
        + inquiry.revision@ + ")"@);
    let ghost det = if details@.len() > 0 {
        "  ["@ + join_chars(string_views(details@), ", "@) + "]"@
    } else {
        Seq::<char>::empty()
    };
    if details.len() > 0 {
        s.append("  [");
        push_joined(&mut s, details, ", ");
        s.append("]");
    }
    let ghost b = s@;
    assert(b =~= a + det);
    if let Some(sel) = &candidate.selector {
        s.append("  selector=");
        s.append(sel.as_str());
    }
    let ghost c = s@;
    assert(c =~= b + opt_field("  selector="@, opt_view(candidate.selector)));
    if let Some(vid) = candidate.vid {
        s.append("  vid=0x");
        push_hex(&mut s, vid as u64, 4);
    }
    let ghost d = s@;
    assert(d =~= c + opt_field("  vid=0x"@, opt_hex4(candidate.vid)));
    if let Some(pid) = candidate.pid {
        s.append("  pid=0x");
        push_hex(&mut s, pid as u64, 4);
    }
    let ghost e = s@;
    assert(e =~= d + opt_field("  pid=0x"@, opt_hex4(candidate.pid)));
    if let Some(note) = &candidate.note {
        s.append("  note=");
        s.append(note.as_str());
    }
    assert(s@ =~= e + opt_field("  note="@, opt_view(candidate.note)));
    assert(s@ =~= spec_find_line(*candidate, *inquiry, string_views(details@)));
    s
}

} // verus!
