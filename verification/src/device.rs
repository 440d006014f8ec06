//! A JieLi download-mode device on top of a SCSI transport: every command is
//! stated as the exchange it performs and the result it decodes from the outcome.

use vstd::prelude::*;

use crate::crc::{jl_crc16, spec_crc16};
use crate::msc::{build_cdb, spec_cdb, spec_validate_response, validate_response_command};
use crate::scsi::{exec_event, InquiryData, ScsiEvent, ScsiResponse, ScsiTransport, TransportError};
use crate::uboot::{
    decode_be16, decode_be24, decode_be32, decode_chip_key, decode_loader_version,
    decode_online_v1, decode_online_v2, decode_u8, spec_chip_key, spec_flash_select_code,
    spec_loader_version, spec_online_v1, spec_online_v2, spec_payload_be16, spec_payload_be24,
    spec_payload_be32, spec_payload_u8, version_view, ChipKeyRaw, Error, LoaderV1FlashSelect,
    OnlineDeviceInfo, ProbeInfo, ProtocolKind,
};

verus! {

/// What a command does before it reaches the device: either it is refused with
/// an error and nothing is sent, or it sends one exchange.
pub enum Plan {
    Refuse(Error),
    Send { cdb: Seq<u8>, data_out: Option<Seq<u8>>, data_in_len: usize },
}

/// The outcome of the last exchange of a history.
pub open spec fn last_outcome(h: Seq<ScsiEvent>) -> Result<ScsiResponse, TransportError> {
    match h.last() {
        ScsiEvent::Exec(x) => x.outcome,
        ScsiEvent::Inquiry(_) => arbitrary(),
    }
}

/// The history after a planned command: unchanged when refused, one exchange
/// with exactly the planned request appended otherwise.
pub open spec fn step_events(plan: Plan, before: Seq<ScsiEvent>, after: Seq<ScsiEvent>) -> bool {
    match plan {
        Plan::Refuse(_) => after == before,
        Plan::Send { cdb, data_out, data_in_len } => after == before.push(
            exec_event(cdb, data_out, data_in_len, last_outcome(after)),
        ),
    }
}

/// The result of a planned command: the refusal, or what `decode` makes of the outcome.
pub open spec fn step_result<R>(
    plan: Plan,
    after: Seq<ScsiEvent>,
    decode: spec_fn(Result<ScsiResponse, TransportError>) -> Result<R, Error>,
) -> Result<R, Error> {
    match plan {
        Plan::Refuse(e) => Err(e),
        Plan::Send { .. } => decode(last_outcome(after)),
    }
}

/// A command ran according to `plan` and returned `r`, decoded by `decode`.
pub open spec fn performs<R>(
    plan: Plan,
    before: Seq<ScsiEvent>,
    after: Seq<ScsiEvent>,
    r: Result<R, Error>,
    decode: spec_fn(Result<ScsiResponse, TransportError>) -> Result<R, Error>,
) -> bool {
    step_events(plan, before, after) && r == step_result(plan, after, decode)
}

/// A query: the CDB for `cmd` and `args`, no outgoing data, a 16-byte response.
pub open spec fn query_plan(cmd: u16, args: Seq<u8>) -> Plan {
    Plan::Send { cdb: spec_cdb(cmd, args), data_out: None, data_in_len: 16 }
}

/// A read: the CDB for `cmd` and `args` and `len` bytes expected from the device.
pub open spec fn datain_plan(cmd: u16, args: Seq<u8>, len: usize) -> Plan {
    Plan::Send { cdb: spec_cdb(cmd, args), data_out: None, data_in_len: len }
}

/// A write: the CDB for `cmd` and `args` followed by `data` sent to the device.
pub open spec fn dataout_plan(cmd: u16, args: Seq<u8>, data: Seq<u8>) -> Plan {
    Plan::Send { cdb: spec_cdb(cmd, args), data_out: Some(data), data_in_len: 0 }
}

/// The payload of a query response: what follows the echoed command, when the echo matches.
pub open spec fn query_payload(cmd: u16, o: Result<ScsiResponse, TransportError>) -> Result<
    Seq<u8>,
    Error,
> {
    match o {
        Err(t) => Err(Error::Transport(t)),
        Ok(resp) => match spec_validate_response(cmd, resp.data@) {
            Err(m) => Err(Error::Msc(m)),
            Ok(_) => Ok(resp.data@.skip(2)),
        },
    }
}

/// Applies a payload decoder to a query outcome.
pub open spec fn decode_query<R>(
    cmd: u16,
    o: Result<ScsiResponse, TransportError>,
    f: spec_fn(Seq<u8>) -> Result<R, Error>,
) -> Result<R, Error> {
    match query_payload(cmd, o) {
        Err(e) => Err(e),
        Ok(p) => f(p),
    }
}

/// A query whose payload is not used.
pub open spec fn decode_ack(cmd: u16, o: Result<ScsiResponse, TransportError>) -> Result<(), Error> {
    match query_payload(cmd, o) {
        Err(e) => Err(e),
        Ok(_) => Ok(()),
    }
}

/// The data of a read outcome.
pub open spec fn decode_data(o: Result<ScsiResponse, TransportError>) -> Result<Vec<u8>, Error> {
    match o {
        Err(t) => Err(Error::Transport(t)),
        Ok(resp) => Ok(resp.data),
    }
}

/// A write outcome: success unless the transport failed.
pub open spec fn decode_sent(o: Result<ScsiResponse, TransportError>) -> Result<(), Error> {
    match o {
        Err(t) => Err(Error::Transport(t)),
        Ok(_) => Ok(()),
    }
}

/// The four bytes of `v`, most significant first.
pub open spec fn be32_bytes(v: u32) -> Seq<u8> {
    seq![
        (v / 0x1000000) as u8,
        ((v / 0x10000) % 0x100) as u8,
        ((v / 0x100) % 0x100) as u8,
        (v % 0x100) as u8,
    ]
}

/// The two bytes of `v`, most significant first.
pub open spec fn be16_bytes(v: u16) -> Seq<u8> {
    seq![(v / 0x100) as u8, (v % 0x100) as u8]
}

/// The two bytes of `v`, least significant first.
pub open spec fn le16_bytes(v: u16) -> Seq<u8> {
    seq![(v % 0x100) as u8, (v / 0x100) as u8]
}

/// Address and 16-bit length arguments.
pub open spec fn addr_len_args(addr: u32, len: u16) -> Seq<u8> {
    be32_bytes(addr) + be16_bytes(len)
}

/// Address, 16-bit length, a zero byte and the little-endian CRC-16 of `data`:
/// the arguments of a checked write.
pub open spec fn checked_write_args(addr: u32, data: Seq<u8>) -> Seq<u8> {
    be32_bytes(addr) + be16_bytes(data.len() as u16) + seq![0u8] + le16_bytes(spec_crc16(data))
}

fn push_be32(v: &mut Vec<u8>, x: u32)
    ensures
        final(v)@ == old(v)@ + be32_bytes(x),
{
    v.push((x / 0x1000000) as u8);
    v.push(((x / 0x10000) % 0x100) as u8);
    v.push(((x / 0x100) % 0x100) as u8);
    v.push((x % 0x100) as u8);
    assert(v@ =~= old(v)@ + be32_bytes(x));
}

fn push_be16(v: &mut Vec<u8>, x: u16)
    ensures
        final(v)@ == old(v)@ + be16_bytes(x),
{
    v.push((x / 0x100) as u8);
    v.push((x % 0x100) as u8);
    assert(v@ =~= old(v)@ + be16_bytes(x));
}

fn push_le16(v: &mut Vec<u8>, x: u16)
    ensures
        final(v)@ == old(v)@ + le16_bytes(x),
{
    v.push((x % 0x100) as u8);
    v.push((x / 0x100) as u8);
    assert(v@ =~= old(v)@ + le16_bytes(x));
}

fn no_args() -> (r: [u8; 0])
    ensures
        r@ == Seq::<u8>::empty(),
{
    let r: [u8; 0] = [];
    assert(r@ =~= Seq::<u8>::empty());
    r
}

fn addr_len(addr: u32, len: u16) -> (r: Vec<u8>)
    ensures
        r@ == addr_len_args(addr, len),
{
    let mut v: Vec<u8> = Vec::new();
    push_be32(&mut v, addr);
    push_be16(&mut v, len);
    assert(v@ =~= addr_len_args(addr, len));
    v
}

fn checked_write(addr: u32, data: &[u8]) -> (r: Vec<u8>)
    requires
        data@.len() <= 0xffff,
    ensures
        r@ == checked_write_args(addr, data@),
{
    let crc = jl_crc16(data);
    let mut v: Vec<u8> = Vec::new();
    push_be32(&mut v, addr);
    push_be16(&mut v, data.len() as u16);
    v.push(0);
    push_le16(&mut v, crc);
    assert(v@ =~= checked_write_args(addr, data@));
    v
}

/// A device in download mode reached through `transport`, speaking `protocol`.
pub struct JlDevice<T: ScsiTransport> {
    transport: T,
    protocol: ProtocolKind,
}

impl<T: ScsiTransport> JlDevice<T> {
    /// The transport the device is reached through.
    pub closed spec fn spec_transport(&self) -> T {
        self.transport
    }

    /// The command set the device is driven with.
    pub closed spec fn spec_protocol(&self) -> ProtocolKind {
        self.protocol
    }

    /// The exchanges performed with the device so far.
    pub open spec fn history(&self) -> Seq<ScsiEvent> {
        self.spec_transport().history()
    }

    /// A device reached over `transport` that speaks `protocol`.
    pub fn new(transport: T, protocol: ProtocolKind) -> (r: Self)
        ensures
            r.spec_transport() == transport,
            r.spec_protocol() == protocol,
    {
        Self { transport, protocol }
    }

    /// The transport the device is reached over.
    pub fn transport(&self) -> (r: &T)
        ensures
            *r == self.spec_transport(),
    {
        &self.transport
    }

    /// The protocol the device speaks.
    pub fn protocol(&self) -> (r: ProtocolKind)
        ensures
            r == self.spec_protocol(),
    {
        self.protocol
    }

    /// Sends a query and returns the payload after the echoed command.
    fn cmd_exec(&mut self, cmd: u16, args: &[u8]) -> (r: Result<Vec<u8>, Error>)
        requires
            args@.len() <= 14,
        ensures
            final(self).spec_protocol() == old(self).spec_protocol(),
            step_events(query_plan(cmd, args@), old(self).history(), final(self).history()),
            match r {
                Ok(p) => query_payload(cmd, last_outcome(final(self).history())) == Ok::<
                    Seq<u8>,
                    Error,
                >(p@),
                Err(e) => query_payload(cmd, last_outcome(final(self).history())) == Err::<
                    Seq<u8>,
                    Error,
                >(e),
            },
    {
        let cdb = match build_cdb(cmd, args) {
            Ok(c) => c,
            Err(e) => return Err(Error::Msc(e)),
        };
        let response = match self.transport.exec(cdb.as_slice(), None, 16) {
            Ok(resp) => resp,
            Err(e) => return Err(Error::Transport(e)),
        };
        match validate_response_command(cmd, response.data.as_slice()) {
            Err(e) => return Err(Error::Msc(e)),
            Ok(()) => {},
        }
        let n = response.data.len();
        Ok(vstd::slice::slice_to_vec(vstd::slice::slice_subrange(response.data.as_slice(), 2, n)))
    }

    /// Sends a read and returns the data read.
    fn cmd_exec_datain(&mut self, cmd: u16, args: &[u8], len: usize) -> (r: Result<Vec<u8>, Error>)
        requires
            args@.len() <= 14,
        ensures
            final(self).spec_protocol() == old(self).spec_protocol(),
            performs(
                datain_plan(cmd, args@, len),
                old(self).history(),
                final(self).history(),
                r,
                |o| decode_data(o),
            ),
    {
        let cdb = match build_cdb(cmd, args) {
            Ok(c) => c,
            Err(e) => return Err(Error::Msc(e)),
        };
        match self.transport.exec(cdb.as_slice(), None, len) {
            Ok(resp) => Ok(resp.data),
            Err(e) => Err(Error::Transport(e)),
        }
    }

    /// Sends a write carrying `data`.
    fn cmd_exec_dataout(&mut self, cmd: u16, args: &[u8], data: &[u8]) -> (r: Result<(), Error>)
        requires
            args@.len() <= 14,
        ensures
            final(self).spec_protocol() == old(self).spec_protocol(),
            performs(
                dataout_plan(cmd, args@, data@),
                old(self).history(),
                final(self).history(),
                r,
                |o| decode_sent(o),
            ),
    {
        let cdb = match build_cdb(cmd, args) {
            Ok(c) => c,
            Err(e) => return Err(Error::Msc(e)),
        };
        match self.transport.exec(cdb.as_slice(), Some(data), 0) {
            Ok(_) => Ok(()),
            Err(e) => Err(Error::Transport(e)),
        }
    }

    /// Sends a query whose payload is not used.
    fn cmd_ack(&mut self, cmd: u16, args: &[u8]) -> (r: Result<(), Error>)
        requires
            args@.len() <= 14,
        ensures
            final(self).spec_protocol() == old(self).spec_protocol(),
            performs(
                query_plan(cmd, args@),
                old(self).history(),
                final(self).history(),
                r,
                |o| decode_ack(cmd, o),
            ),
    {
        match self.cmd_exec(cmd, args) {
            Ok(_) => Ok(()),
            Err(e) => Err(e),
        }
    }

    /// Performs a standard INQUIRY through the transport.
    pub fn inquiry(&mut self) -> (r: Result<InquiryData, Error>)
        ensures
            final(self).spec_protocol() == old(self).spec_protocol(),
            final(self).history() == old(self).history().push(
                ScsiEvent::Inquiry(inquiry_outcome(final(self).history())),
            ),
            r == inquiry_result(inquiry_outcome(final(self).history())),
    {
        match self.transport.inquiry() {
            Ok(i) => Ok(i),
            Err(e) => Err(Error::Transport(e)),
        }
    }
}

/// The outcome of the INQUIRY last recorded in a history.
pub open spec fn inquiry_outcome(h: Seq<ScsiEvent>) -> Result<InquiryData, TransportError> {
    match h.last() {
        ScsiEvent::Inquiry(o) => o,
        ScsiEvent::Exec(_) => arbitrary(),
    }
}

/// The result of an INQUIRY outcome.
pub open spec fn inquiry_result(o: Result<InquiryData, TransportError>) -> Result<InquiryData, Error> {
    match o {
        Ok(i) => Ok(i),
        Err(t) => Err(Error::Transport(t)),
    }
}


/// The refusal of a command the protocol does not have.
pub open spec fn unsupported() -> Plan {
    Plan::Refuse(Error::UnsupportedProtocol)
}

/// The refusal of a length that does not fit the 16-bit length field.
pub open spec fn too_long(len: usize) -> Plan {
    Plan::Refuse(Error::LengthTooLarge(len))
}

/// What reading the online device sends: LoaderV2 and LoaderV1 query it with their own command.
pub open spec fn online_plan(p: ProtocolKind) -> Plan {
    match p {
        ProtocolKind::LoaderV2 => query_plan(0xFC0A, seq![]),
        ProtocolKind::LoaderV1 => query_plan(0xFC0B, seq![]),
        ProtocolKind::Uboot1 => unsupported(),
    }
}

/// What reading the online device returns for the outcome of its query.
pub open spec fn online_result(p: ProtocolKind, o: Result<ScsiResponse, TransportError>) -> Result<
    OnlineDeviceInfo,
    Error,
> {
    match p {
        ProtocolKind::LoaderV2 => decode_query(0xFC0A, o, |x: Seq<u8>| spec_online_v2(x)),
        ProtocolKind::LoaderV1 => decode_query(0xFC0B, o, |x: Seq<u8>| spec_online_v1(x)),
        ProtocolKind::Uboot1 => Err(Error::UnsupportedProtocol),
    }
}

/// The command that reads the flash identifier.
pub open spec fn read_id_cmd(p: ProtocolKind) -> u16 {
    match p {
        ProtocolKind::LoaderV1 => 0xFC00,
        _ => 0xFC0B,
    }
}

/// What reading the flash identifier sends.
pub open spec fn read_id_plan(p: ProtocolKind) -> Plan {
    match p {
        ProtocolKind::Uboot1 => unsupported(),
        _ => query_plan(read_id_cmd(p), seq![]),
    }
}

/// The flash identifier: the first three payload bytes, big endian.
pub open spec fn read_id_result(p: ProtocolKind, o: Result<ScsiResponse, TransportError>) -> Result<
    u32,
    Error,
> {
    decode_query(read_id_cmd(p), o, |x: Seq<u8>| spec_payload_be24(x))
}

/// A LoaderV2-only query.
pub open spec fn v2_query_plan(p: ProtocolKind, cmd: u16, args: Seq<u8>) -> Plan {
    match p {
        ProtocolKind::LoaderV2 => query_plan(cmd, args),
        _ => unsupported(),
    }
}

/// What reading the loader version sends: a 16-byte read, LoaderV2 only.
pub open spec fn loader_version_plan(p: ProtocolKind) -> Plan {
    match p {
        ProtocolKind::LoaderV2 => datain_plan(0xFC15, seq![], 16),
        _ => unsupported(),
    }
}

/// The loader version decoded from the data read.
pub open spec fn loader_version_result(o: Result<ScsiResponse, TransportError>) -> Result<
    Option<Seq<char>>,
    Error,
> {
    match o {
        Err(t) => Err(Error::Transport(t)),
        Ok(resp) => spec_loader_version(resp.data@),
    }
}

/// A LoaderV2 command that carries a 16-bit length: refused when the length does not fit.
pub open spec fn v2_len_plan(p: ProtocolKind, len: usize, plan: Plan) -> Plan {
    match p {
        ProtocolKind::LoaderV2 => if len > 0xffff {
            too_long(len)
        } else {
            plan
        },
        _ => unsupported(),
    }
}

/// What setting the flash commands sends: a read of as many bytes as there are commands.
pub open spec fn set_flash_cmds_plan(p: ProtocolKind, cmds: Seq<u8>) -> Plan {
    v2_len_plan(
        p,
        cmds.len() as usize,
        datain_plan(
            0xFC0D,
            seq![0u8, 0, 0, 0] + be16_bytes(cmds.len() as u16),
            cmds.len() as usize,
        ),
    )
}

/// What a flash CRC-16 query sends: address and 16-bit length.
pub open spec fn flash_crc_plan(p: ProtocolKind, cmd: u16, addr: u32, len: usize) -> Plan {
    v2_len_plan(p, len, query_plan(cmd, addr_len_args(addr, len as u16)))
}

/// The arguments of a chip key write: key, a zero byte, programming voltage.
pub open spec fn write_chipkey_args(key: u32, vpp: u32) -> Seq<u8> {
    be32_bytes(key) + seq![0u8] + be32_bytes(vpp)
}

/// What selecting a LoaderV1 flash sends.
pub open spec fn flash_select_plan(p: ProtocolKind, sel: LoaderV1FlashSelect) -> Plan {
    match p {
        ProtocolKind::LoaderV1 => query_plan(0xFC0C, seq![spec_flash_select_code(sel)]),
        _ => unsupported(),
    }
}

/// What an RxGp memory write sends: UBOOT1 only, with address, length and CRC.
pub open spec fn rxgp_plan(p: ProtocolKind, addr: u32, data: Seq<u8>) -> Plan {
    match p {
        ProtocolKind::Uboot1 => if data.len() > 0xffff {
            too_long(data.len() as usize)
        } else {
            dataout_plan(0xFB31, checked_write_args(addr, data), data)
        },
        _ => unsupported(),
    }
}

/// What a flash read sends: a read of `len` bytes with the command of the loader.
pub open spec fn flash_read_plan(p: ProtocolKind, addr: u32, len: usize) -> Plan {
    match p {
        ProtocolKind::Uboot1 => unsupported(),
        _ => if len > 0xffff {
            too_long(len)
        } else {
            datain_plan(
                if p == ProtocolKind::LoaderV2 {
                    0xFD05u16
                } else {
                    0xFD01u16
                },
                addr_len_args(addr, len as u16),
                len,
            )
        },
    }
}

/// What a flash write sends: the data, with address, length and CRC.
pub open spec fn flash_write_plan(p: ProtocolKind, addr: u32, data: Seq<u8>) -> Plan {
    match p {
        ProtocolKind::Uboot1 => unsupported(),
        _ => if data.len() > 0xffff {
            too_long(data.len() as usize)
        } else {
            dataout_plan(
                if p == ProtocolKind::LoaderV2 {
                    0xFB04u16
                } else {
                    0xFB01u16
                },
                checked_write_args(addr, data),
                data,
            )
        },
    }
}

/// A flash command of both loaders, with the command each loader uses.
pub open spec fn loader_query_plan(p: ProtocolKind, v2: u16, v1: u16, args: Seq<u8>) -> Plan {
    match p {
        ProtocolKind::LoaderV2 => query_plan(v2, args),
        ProtocolKind::LoaderV1 => query_plan(v1, args),
        ProtocolKind::Uboot1 => unsupported(),
    }
}

/// The command a loader query plan sends.
pub open spec fn loader_cmd(p: ProtocolKind, v2: u16, v1: u16) -> u16 {
    if p == ProtocolKind::LoaderV1 {
        v1
    } else {
        v2
    }
}

/// What a memory read sends: LoaderV2 and UBOOT1 only.
pub open spec fn mem_read_plan(p: ProtocolKind, addr: u32, len: usize) -> Plan {
    match p {
        ProtocolKind::LoaderV1 => unsupported(),
        _ => if len > 0xffff {
            too_long(len)
        } else {
            datain_plan(0xFD07, addr_len_args(addr, len as u16), len)
        },
    }
}

/// What a memory write sends: LoaderV1 without a CRC, the others with one.
pub open spec fn mem_write_plan(p: ProtocolKind, addr: u32, data: Seq<u8>) -> Plan {
    if data.len() > 0xffff {
        too_long(data.len() as usize)
    } else {
        match p {
            ProtocolKind::LoaderV1 => dataout_plan(
                0xFB04,
                addr_len_args(addr, data.len() as u16),
                data,
            ),
            _ => dataout_plan(0xFB06, checked_write_args(addr, data), data),
        }
    }
}

/// The command that jumps to code in memory.
pub open spec fn mem_jump_cmd(p: ProtocolKind) -> u16 {
    if p == ProtocolKind::LoaderV1 {
        0xFB09
    } else {
        0xFB08
    }
}

/// What a jump sends: the address and a 16-bit argument.
pub open spec fn mem_jump_plan(p: ProtocolKind, addr: u32, arg: u32) -> Plan {
    if arg > 0xffff {
        too_long(arg as usize)
    } else {
        query_plan(mem_jump_cmd(p), addr_len_args(addr, arg as u16))
    }
}

/// Whether a plan refuses its command because the protocol does not have it.
pub open spec fn refused_as_unsupported(plan: Plan) -> bool {
    plan matches Plan::Refuse(Error::UnsupportedProtocol)
}

/// Which protocol has which command; every other protocol refuses the command
/// with `UnsupportedProtocol` before anything is sent:
/// - online device, flash identifier, the flash erase commands, flash read and
///   flash write: LoaderV2 and LoaderV1;
/// - USB buffer size, loader version, mask ROM id, run app, read status, set flash
///   commands, flash CRC-16 (both forms), chip key reads and chip key writes: LoaderV2 only;
/// - flash select: LoaderV1 only;
/// - memory read: LoaderV2 and UBOOT1;
/// - the RxGp memory write: UBOOT1 only;
/// - memory write and jump: every protocol.
pub proof fn lemma_protocol_coverage(
    p: ProtocolKind,
    cmd: u16,
    v1_cmd: u16,
    args: Seq<u8>,
    addr: u32,
    len: usize,
    data: Seq<u8>,
    arg: u32,
    sel: LoaderV1FlashSelect,
)
    ensures
        refused_as_unsupported(online_plan(p)) <==> p == ProtocolKind::Uboot1,
        refused_as_unsupported(read_id_plan(p)) <==> p == ProtocolKind::Uboot1,
        refused_as_unsupported(loader_query_plan(p, cmd, v1_cmd, args)) <==> p
            == ProtocolKind::Uboot1,
        refused_as_unsupported(flash_read_plan(p, addr, len)) <==> p == ProtocolKind::Uboot1,
        refused_as_unsupported(flash_write_plan(p, addr, data)) <==> p == ProtocolKind::Uboot1,
        refused_as_unsupported(v2_query_plan(p, cmd, args)) <==> p != ProtocolKind::LoaderV2,
        refused_as_unsupported(loader_version_plan(p)) <==> p != ProtocolKind::LoaderV2,
        refused_as_unsupported(set_flash_cmds_plan(p, data)) <==> p != ProtocolKind::LoaderV2,
        refused_as_unsupported(flash_crc_plan(p, cmd, addr, len)) <==> p
            != ProtocolKind::LoaderV2,
        refused_as_unsupported(flash_select_plan(p, sel)) <==> p != ProtocolKind::LoaderV1,
        refused_as_unsupported(mem_read_plan(p, addr, len)) <==> p == ProtocolKind::LoaderV1,
        refused_as_unsupported(rxgp_plan(p, addr, data)) <==> p != ProtocolKind::Uboot1,
        !refused_as_unsupported(mem_write_plan(p, addr, data)),
        !refused_as_unsupported(mem_jump_plan(p, addr, arg)),
{
}

/// The flash identifier is read with command 0xFC00 on LoaderV1 and 0xFC0B on
/// LoaderV2 (a query without arguments), and decoded from the first three payload
/// bytes of the reply, most significant first.
pub proof fn lemma_read_id_commands(p: ProtocolKind, o: Result<ScsiResponse, TransportError>)
    ensures
        read_id_plan(ProtocolKind::LoaderV1) == query_plan(0xFC00, seq![]),
        read_id_plan(ProtocolKind::LoaderV2) == query_plan(0xFC0B, seq![]),
        spec_cdb(0xFC00, seq![])[0] == 0xFC && spec_cdb(0xFC00, seq![])[1] == 0x00,
        spec_cdb(0xFC0B, seq![])[0] == 0xFC && spec_cdb(0xFC0B, seq![])[1] == 0x0B,
        p == ProtocolKind::LoaderV1 ==> read_id_result(p, o) == decode_query(
            0xFC00,
            o,
            |x: Seq<u8>| spec_payload_be24(x),
        ),
        p == ProtocolKind::LoaderV2 ==> read_id_result(p, o) == decode_query(
            0xFC0B,
            o,
            |x: Seq<u8>| spec_payload_be24(x),
        ),
        forall|x: Seq<u8>|
            x.len() >= 3 ==> #[trigger] spec_payload_be24(x) == Ok::<u32, Error>(
                (x[0] as int * 0x1_0000 + x[1] as int * 0x100 + x[2] as int) as u32,
            ),
{
}

/// A flash read of at most 0xffff bytes reads `len` bytes with command 0xFD05 on
/// LoaderV2 and 0xFD01 on LoaderV1, the address and length following big endian.
pub proof fn lemma_flash_read_commands(addr: u32, len: usize)
    requires
        len <= 0xffff,
    ensures
        flash_read_plan(ProtocolKind::LoaderV2, addr, len) == datain_plan(
            0xFD05,
            be32_bytes(addr) + be16_bytes(len as u16),
            len,
        ),
        flash_read_plan(ProtocolKind::LoaderV1, addr, len) == datain_plan(
            0xFD01,
            be32_bytes(addr) + be16_bytes(len as u16),
            len,
        ),
        spec_cdb(0xFD05, seq![])[0] == 0xFD && spec_cdb(0xFD05, seq![])[1] == 0x05,
        spec_cdb(0xFD01, seq![])[0] == 0xFD && spec_cdb(0xFD01, seq![])[1] == 0x01,
{
}

/// A memory write of at most 0xffff bytes on any protocol but LoaderV1 sends the
/// data with command 0xFB06 and the arguments address (big endian), length (big
/// endian), a zero byte, and the CRC-16 of the data, least significant byte first;
/// LoaderV1 sends only address and length, with command 0xFB04.
pub proof fn lemma_mem_write_framing(p: ProtocolKind, addr: u32, data: Seq<u8>)
    requires
        data.len() <= 0xffff,
    ensures
        p != ProtocolKind::LoaderV1 ==> mem_write_plan(p, addr, data) == dataout_plan(
            0xFB06,
            be32_bytes(addr) + be16_bytes(data.len() as u16) + seq![0u8] + le16_bytes(
                spec_crc16(data),
            ),
            data,
        ),
        p == ProtocolKind::LoaderV1 ==> mem_write_plan(p, addr, data) == dataout_plan(
            0xFB04,
            be32_bytes(addr) + be16_bytes(data.len() as u16),
            data,
        ),
        p != ProtocolKind::LoaderV1 ==> (mem_write_plan(p, addr, data) matches Plan::Send {
            cdb,
            ..
        } && cdb.len() == 16 && cdb[0] == 0xFB && cdb[1] == 0x06 && cdb[6] as int * 0x100
            + cdb[7] as int == data.len() && cdb[8] == 0 && cdb[9] as int + cdb[10] as int
            * 0x100 == spec_crc16(data) as int),
{
    if p != ProtocolKind::LoaderV1 {
        let args = be32_bytes(addr) + be16_bytes(data.len() as u16) + seq![0u8] + le16_bytes(
            spec_crc16(data),
        );
        let cdb = spec_cdb(0xFB06, args);
        assert(cdb[6] == args[4] && cdb[7] == args[5] && cdb[8] == args[6]);
        assert(cdb[9] == args[7] && cdb[10] == args[8]);
        let n = data.len() as u16;
        assert((n / 0x100) as u8 as int * 0x100 + (n % 0x100) as u8 as int == n as int);
        let c = spec_crc16(data);
        assert((c % 0x100) as u8 as int + (c / 0x100) as u8 as int * 0x100 == c as int);
    }
}

/// A refused command sends nothing: the transport's record is unchanged and the
/// refusal is the result.
pub proof fn lemma_refused_command_sends_nothing<R>(
    e: Error,
    before: Seq<ScsiEvent>,
    after: Seq<ScsiEvent>,
    r: Result<R, Error>,
    decode: spec_fn(Result<ScsiResponse, TransportError>) -> Result<R, Error>,
)
    requires
        performs(Plan::Refuse(e), before, after, r, decode),
    ensures
        after == before,
        r == Err::<R, Error>(e),
{
}

/// A command that is carried out adds exactly one exchange to the transport's
/// record, with the planned request, and its result is decoded from that
/// exchange's outcome.
pub proof fn lemma_sent_command_adds_one_exchange<R>(
    cdb: Seq<u8>,
    data_out: Option<Seq<u8>>,
    data_in_len: usize,
    before: Seq<ScsiEvent>,
    after: Seq<ScsiEvent>,
    r: Result<R, Error>,
    decode: spec_fn(Result<ScsiResponse, TransportError>) -> Result<R, Error>,
)
    requires
        performs(Plan::Send { cdb, data_out, data_in_len }, before, after, r, decode),
    ensures
        after.len() == before.len() + 1,
        after.subrange(0, before.len() as int) == before,
        after.last() matches ScsiEvent::Exec(x) && x.cdb == cdb && x.data_out == data_out
            && x.data_in_len == data_in_len && r == decode(x.outcome),
{
    assert(after.subrange(0, before.len() as int) =~= before);
}

impl<T: ScsiTransport> JlDevice<T> {
    /// Reads which storage device is online.
    pub fn online_device(&mut self) -> (r: Result<OnlineDeviceInfo, Error>)
        ensures
            final(self).spec_protocol() == old(self).spec_protocol(),
            performs(
                online_plan(old(self).spec_protocol()),
                old(self).history(),
                final(self).history(),
                r,
                |o| online_result(old(self).spec_protocol(), o),
            ),
    {
        match self.protocol {
            ProtocolKind::LoaderV2 => {
                let payload = match self.cmd_exec(0xFC0A, no_args().as_slice()) {
                    Ok(p) => p,
                    Err(e) => return Err(e),
                };
                decode_online_v2(payload.as_slice())
            },
            ProtocolKind::LoaderV1 => {
                let payload = match self.cmd_exec(0xFC0B, no_args().as_slice()) {
                    Ok(p) => p,
                    Err(e) => return Err(e),
                };
                decode_online_v1(payload.as_slice())
            },
            ProtocolKind::Uboot1 => Err(Error::UnsupportedProtocol),
        }
    }

    /// Reads the 24-bit flash identifier.
    pub fn read_id(&mut self) -> (r: Result<u32, Error>)
        ensures
            final(self).spec_protocol() == old(self).spec_protocol(),
            performs(
                read_id_plan(old(self).spec_protocol()),
                old(self).history(),
                final(self).history(),
                r,
                |o| read_id_result(old(self).spec_protocol(), o),
            ),
    {
        let cmd: u16 = match self.protocol {
            ProtocolKind::LoaderV2 => 0xFC0B,
            ProtocolKind::LoaderV1 => 0xFC00,
            ProtocolKind::Uboot1 => return Err(Error::UnsupportedProtocol),
        };
        let payload = match self.cmd_exec(cmd, no_args().as_slice()) {
            Ok(p) => p,
            Err(e) => return Err(e),
        };
        decode_be24(payload.as_slice())
    }

    /// Reads the loader's USB buffer size.
    pub fn usb_buffer_size(&mut self) -> (r: Result<u32, Error>)
        ensures
            final(self).spec_protocol() == old(self).spec_protocol(),
            performs(
                v2_query_plan(old(self).spec_protocol(), 0xFC14, seq![]),
                old(self).history(),
                final(self).history(),
                r,
                |o| decode_query(0xFC14, o, |x: Seq<u8>| spec_payload_be32(x)),
            ),
    {
        match self.protocol {
            ProtocolKind::LoaderV2 => {
                let payload = match self.cmd_exec(0xFC14, no_args().as_slice()) {
                    Ok(p) => p,
                    Err(e) => return Err(e),
                };
                decode_be32(payload.as_slice())
            },
            _ => Err(Error::UnsupportedProtocol),
        }
    }

    /// Reads the loader version text.
    pub fn loader_version(&mut self) -> (r: Result<Option<String>, Error>)
        ensures
            final(self).spec_protocol() == old(self).spec_protocol(),
            performs(
                loader_version_plan(old(self).spec_protocol()),
                old(self).history(),
                final(self).history(),
                version_view(r),
                |o| loader_version_result(o),
            ),
    {
        match self.protocol {
            ProtocolKind::LoaderV2 => {
                let cdb = match build_cdb(0xFC15, no_args().as_slice()) {
                    Ok(c) => c,
                    Err(e) => return Err(Error::Msc(e)),
                };
                let response = match self.transport.exec(cdb.as_slice(), None, 16) {
                    Ok(resp) => resp,
                    Err(e) => return Err(Error::Transport(e)),
                };
                decode_loader_version(response.data.as_slice())
            },
            _ => Err(Error::UnsupportedProtocol),
        }
    }

    /// Reads the mask ROM identifier.
    pub fn maskrom_id(&mut self) -> (r: Result<u32, Error>)
        ensures
            final(self).spec_protocol() == old(self).spec_protocol(),
            performs(
                v2_query_plan(old(self).spec_protocol(), 0xFC16, seq![]),
                old(self).history(),
                final(self).history(),
                r,
                |o| decode_query(0xFC16, o, |x: Seq<u8>| spec_payload_be32(x)),
            ),
    {
        match self.protocol {
            ProtocolKind::LoaderV2 => {
                let payload = match self.cmd_exec(0xFC16, no_args().as_slice()) {
                    Ok(p) => p,
                    Err(e) => return Err(e),
                };
                decode_be32(payload.as_slice())
            },
            _ => Err(Error::UnsupportedProtocol),
        }
    }

    /// Starts the application with `arg`.
    pub fn run_app(&mut self, arg: u32) -> (r: Result<(), Error>)
        ensures
            final(self).spec_protocol() == old(self).spec_protocol(),
            performs(
                v2_query_plan(old(self).spec_protocol(), 0xFC0C, be32_bytes(arg)),
                old(self).history(),
                final(self).history(),
                r,
                |o| decode_ack(0xFC0C, o),
            ),
    {
        match self.protocol {
            ProtocolKind::LoaderV2 => {
                let mut args: Vec<u8> = Vec::new();
                push_be32(&mut args, arg);
                self.cmd_ack(0xFC0C, args.as_slice())
            },
            _ => Err(Error::UnsupportedProtocol),
        }
    }

    /// Reads the loader status byte.
    pub fn read_status(&mut self) -> (r: Result<u8, Error>)
        ensures
            final(self).spec_protocol() == old(self).spec_protocol(),
            performs(
                v2_query_plan(old(self).spec_protocol(), 0xFC03, seq![]),
                old(self).history(),
                final(self).history(),
                r,
                |o| decode_query(0xFC03, o, |x: Seq<u8>| spec_payload_u8(x)),
            ),
    {
        match self.protocol {
            ProtocolKind::LoaderV2 => {
                let payload = match self.cmd_exec(0xFC03, no_args().as_slice()) {
                    Ok(p) => p,
                    Err(e) => return Err(e),
                };
                decode_u8(payload.as_slice())
            },
            _ => Err(Error::UnsupportedProtocol),
        }
    }

    /// Sets the flash command bytes; the loader answers with as many bytes as were given.
    pub fn set_flash_cmds(&mut self, cmds: &[u8]) -> (r: Result<(), Error>)
        ensures
            final(self).spec_protocol() == old(self).spec_protocol(),
            performs(
                set_flash_cmds_plan(old(self).spec_protocol(), cmds@),
                old(self).history(),
                final(self).history(),
                r,
                |o| decode_sent(o),
            ),
    {
        match self.protocol {
            ProtocolKind::LoaderV2 => {
                if cmds.len() > 0xffff {
                    return Err(Error::LengthTooLarge(cmds.len()));
                }
                let mut args: Vec<u8> = Vec::new();
                args.push(0);
                args.push(0);
                args.push(0);
                args.push(0);
                push_be16(&mut args, cmds.len() as u16);
                assert(args@ =~= seq![0u8, 0, 0, 0] + be16_bytes(cmds@.len() as u16));
                match self.cmd_exec_datain(0xFC0D, args.as_slice(), cmds.len()) {
                    Ok(_) => Ok(()),
                    Err(e) => Err(e),
                }
            },
            _ => Err(Error::UnsupportedProtocol),
        }
    }

    fn flash_crc(&mut self, cmd: u16, addr: u32, len: usize) -> (r: Result<u16, Error>)
        ensures
            final(self).spec_protocol() == old(self).spec_protocol(),
            performs(
                flash_crc_plan(old(self).spec_protocol(), cmd, addr, len),
                old(self).history(),
                final(self).history(),
                r,
                |o| decode_query(cmd, o, |x: Seq<u8>| spec_payload_be16(x)),
            ),
    {
        match self.protocol {
            ProtocolKind::LoaderV2 => {
                if len > 0xffff {
                    return Err(Error::LengthTooLarge(len));
                }
                let args = addr_len(addr, len as u16);
                let payload = match self.cmd_exec(cmd, args.as_slice()) {
                    Ok(p) => p,
                    Err(e) => return Err(e),
                };
                decode_be16(payload.as_slice())
            },
            _ => Err(Error::UnsupportedProtocol),
        }
    }

    /// Asks the loader for the CRC-16 of `len` flash bytes at `addr`.
    pub fn flash_crc16(&mut self, addr: u32, len: usize) -> (r: Result<u16, Error>)
        ensures
            final(self).spec_protocol() == old(self).spec_protocol(),
            performs(
                flash_crc_plan(old(self).spec_protocol(), 0xFC0E, addr, len),
                old(self).history(),
                final(self).history(),
                r,
                |o| decode_query(0xFC0E, o, |x: Seq<u8>| spec_payload_be16(x)),
            ),
    {
        self.flash_crc(0xFC0E, addr, len)
    }

    /// Asks the loader for the raw CRC-16 of `len` flash bytes at `addr`.
    pub fn flash_crc16_raw(&mut self, addr: u32, len: usize) -> (r: Result<u16, Error>)
        ensures
            final(self).spec_protocol() == old(self).spec_protocol(),
            performs(
                flash_crc_plan(old(self).spec_protocol(), 0xFC13, addr, len),
                old(self).history(),
                final(self).history(),
                r,
                |o| decode_query(0xFC13, o, |x: Seq<u8>| spec_payload_be16(x)),
            ),
    {
        self.flash_crc(0xFC13, addr, len)
    }

    /// Reads the chip key payload without decoding it.
    pub fn read_key_raw(&mut self, arg: u32) -> (r: Result<ChipKeyRaw, Error>)
        ensures
            final(self).spec_protocol() == old(self).spec_protocol(),
            step_events(
                v2_query_plan(old(self).spec_protocol(), 0xFC09, be32_bytes(arg)),
                old(self).history(),
                final(self).history(),
            ),
            old(self).spec_protocol() != ProtocolKind::LoaderV2 ==> r matches Err(
                Error::UnsupportedProtocol,
            ),
            old(self).spec_protocol() == ProtocolKind::LoaderV2 ==> match r {
                Ok(k) => query_payload(0xFC09, last_outcome(final(self).history())) == Ok::<
                    Seq<u8>,
                    Error,
                >(k.payload@),
                Err(e) => query_payload(0xFC09, last_outcome(final(self).history())) == Err::<
                    Seq<u8>,
                    Error,
                >(e),
            },
    {
        match self.protocol {
            ProtocolKind::LoaderV2 => {
                let mut args: Vec<u8> = Vec::new();
                push_be32(&mut args, arg);
                match self.cmd_exec(0xFC09, args.as_slice()) {
                    Ok(payload) => Ok(ChipKeyRaw { payload }),
                    Err(e) => Err(e),
                }
            },
            _ => Err(Error::UnsupportedProtocol),
        }
    }

    /// Reads and deciphers the chip key.
    pub fn chip_key(&mut self, arg: u32) -> (r: Result<u16, Error>)
        ensures
            final(self).spec_protocol() == old(self).spec_protocol(),
            performs(
                v2_query_plan(old(self).spec_protocol(), 0xFC09, be32_bytes(arg)),
                old(self).history(),
                final(self).history(),
                r,
                |o| decode_query(0xFC09, o, |x: Seq<u8>| spec_chip_key(x)),
            ),
    {
        match self.protocol {
            ProtocolKind::LoaderV2 => {
                let mut args: Vec<u8> = Vec::new();
                push_be32(&mut args, arg);
                let payload = match self.cmd_exec(0xFC09, args.as_slice()) {
                    Ok(p) => p,
                    Err(e) => return Err(e),
                };
                decode_chip_key(payload.as_slice())
            },
            _ => Err(Error::UnsupportedProtocol),
        }
    }

    /// Programs the chip key with programming voltage `vpp`.
    pub fn write_chipkey(&mut self, key: u32, vpp: u32) -> (r: Result<u32, Error>)
        ensures
            final(self).spec_protocol() == old(self).spec_protocol(),
            performs(
                v2_query_plan(old(self).spec_protocol(), 0xFC12, write_chipkey_args(key, vpp)),
                old(self).history(),
                final(self).history(),
                r,
                |o| decode_query(0xFC12, o, |x: Seq<u8>| spec_payload_be32(x)),
            ),
    {
        match self.protocol {
            ProtocolKind::LoaderV2 => {
                let mut args: Vec<u8> = Vec::new();
                push_be32(&mut args, key);
                args.push(0);
                push_be32(&mut args, vpp);
                assert(args@ =~= write_chipkey_args(key, vpp));
                let payload = match self.cmd_exec(0xFC12, args.as_slice()) {
                    Ok(p) => p,
                    Err(e) => return Err(e),
                };
                decode_be32(payload.as_slice())
            },
            _ => Err(Error::UnsupportedProtocol),
        }
    }

    /// Selects the code or data flash of a LoaderV1 loader.
    pub fn flash_select(&mut self, sel: LoaderV1FlashSelect) -> (r: Result<(), Error>)
        ensures
            final(self).spec_protocol() == old(self).spec_protocol(),
            performs(
                flash_select_plan(old(self).spec_protocol(), sel),
                old(self).history(),
                final(self).history(),
                r,
                |o| decode_ack(0xFC0C, o),
            ),
    {
        match self.protocol {
            ProtocolKind::LoaderV1 => {
                let args: [u8; 1] = [sel.code()];
                assert(args@ =~= seq![spec_flash_select_code(sel)]);
                self.cmd_ack(0xFC0C, args.as_slice())
            },
            _ => Err(Error::UnsupportedProtocol),
        }
    }

    /// Writes `data` to memory at `addr` through the UBOOT1 RxGp path.
    pub fn mem_write_rxgp(&mut self, addr: u32, data: &[u8]) -> (r: Result<(), Error>)
        ensures
            final(self).spec_protocol() == old(self).spec_protocol(),
            performs(
                rxgp_plan(old(self).spec_protocol(), addr, data@),
                old(self).history(),
                final(self).history(),
                r,
                |o| decode_sent(o),
            ),
    {
        match self.protocol {
            ProtocolKind::Uboot1 => {
                if data.len() > 0xffff {
                    return Err(Error::LengthTooLarge(data.len()));
                }
                let args = checked_write(addr, data);
                self.cmd_exec_dataout(0xFB31, args.as_slice(), data)
            },
            _ => Err(Error::UnsupportedProtocol),
        }
    }
}

/// Flash access of a download-mode device.
pub trait FlashAccess {
    fn flash_read(&mut self, addr: u32, len: usize) -> Result<Vec<u8>, Error>;

    fn flash_write(&mut self, addr: u32, data: &[u8]) -> Result<(), Error>;

    fn flash_erase_sector(&mut self, addr: u32) -> Result<(), Error>;

    fn flash_erase_block(&mut self, addr: u32) -> Result<(), Error>;

    fn flash_erase_chip(&mut self) -> Result<(), Error>;
}

/// Memory access of a download-mode device.
pub trait MemAccess {
    fn mem_read(&mut self, addr: u32, len: usize) -> Result<Vec<u8>, Error>;

    fn mem_write(&mut self, addr: u32, data: &[u8]) -> Result<(), Error>;

    fn mem_jump(&mut self, addr: u32, arg: u32) -> Result<(), Error>;
}

impl<T: ScsiTransport> FlashAccess for JlDevice<T> {
    /// Reads `len` bytes of flash at `addr`.
    fn flash_read(&mut self, addr: u32, len: usize) -> (r: Result<Vec<u8>, Error>)
        ensures
            final(self).spec_protocol() == old(self).spec_protocol(),
            performs(
                flash_read_plan(old(self).spec_protocol(), addr, len),
                old(self).history(),
                final(self).history(),
                r,
                |o| decode_data(o),
            ),
    {
        let cmd: u16 = match self.protocol {
            ProtocolKind::LoaderV2 => 0xFD05,
            ProtocolKind::LoaderV1 => 0xFD01,
            ProtocolKind::Uboot1 => return Err(Error::UnsupportedProtocol),
        };
        if len > 0xffff {
            return Err(Error::LengthTooLarge(len));
        }
        let args = addr_len(addr, len as u16);
        self.cmd_exec_datain(cmd, args.as_slice(), len)
    }

    /// Writes `data` to flash at `addr`, with its CRC-16.
    fn flash_write(&mut self, addr: u32, data: &[u8]) -> (r: Result<(), Error>)
        ensures
            final(self).spec_protocol() == old(self).spec_protocol(),
            performs(
                flash_write_plan(old(self).spec_protocol(), addr, data@),
                old(self).history(),
                final(self).history(),
                r,
                |o| decode_sent(o),
            ),
    {
        let cmd: u16 = match self.protocol {
            ProtocolKind::LoaderV2 => 0xFB04,
            ProtocolKind::LoaderV1 => 0xFB01,
            ProtocolKind::Uboot1 => return Err(Error::UnsupportedProtocol),
        };
        if data.len() > 0xffff {
            return Err(Error::LengthTooLarge(data.len()));
        }
        let args = checked_write(addr, data);
        self.cmd_exec_dataout(cmd, args.as_slice(), data)
    }

    /// Erases the flash sector at `addr`.
    fn flash_erase_sector(&mut self, addr: u32) -> (r: Result<(), Error>)
        ensures
            final(self).spec_protocol() == old(self).spec_protocol(),
            performs(
                loader_query_plan(old(self).spec_protocol(), 0xFB01, 0xFB03, be32_bytes(addr)),
                old(self).history(),
                final(self).history(),
                r,
                |o| decode_ack(loader_cmd(old(self).spec_protocol(), 0xFB01, 0xFB03), o),
            ),
    {
        let cmd: u16 = match self.protocol {
            ProtocolKind::LoaderV2 => 0xFB01,
            ProtocolKind::LoaderV1 => 0xFB03,
            ProtocolKind::Uboot1 => return Err(Error::UnsupportedProtocol),
        };
        let mut args: Vec<u8> = Vec::new();
        push_be32(&mut args, addr);
        self.cmd_ack(cmd, args.as_slice())
    }

    /// Erases the flash block at `addr`.
    fn flash_erase_block(&mut self, addr: u32) -> (r: Result<(), Error>)
        ensures
            final(self).spec_protocol() == old(self).spec_protocol(),
            performs(
                loader_query_plan(old(self).spec_protocol(), 0xFB00, 0xFB00, be32_bytes(addr)),
                old(self).history(),
                final(self).history(),
                r,
                |o| decode_ack(0xFB00, o),
            ),
    {
        match self.protocol {
            ProtocolKind::Uboot1 => Err(Error::UnsupportedProtocol),
            _ => {
                let mut args: Vec<u8> = Vec::new();
                push_be32(&mut args, addr);
                self.cmd_ack(0xFB00, args.as_slice())
            },
        }
    }

    /// Erases the whole flash chip.
    fn flash_erase_chip(&mut self) -> (r: Result<(), Error>)
        ensures
            final(self).spec_protocol() == old(self).spec_protocol(),
            performs(
                loader_query_plan(old(self).spec_protocol(), 0xFB02, 0xFB02, seq![]),
                old(self).history(),
                final(self).history(),
                r,
                |o| decode_ack(0xFB02, o),
            ),
    {
        match self.protocol {
            ProtocolKind::Uboot1 => Err(Error::UnsupportedProtocol),
            _ => self.cmd_ack(0xFB02, no_args().as_slice()),
        }
    }
}

impl<T: ScsiTransport> MemAccess for JlDevice<T> {
    /// Reads `len` bytes of memory at `addr`.
    fn mem_read(&mut self, addr: u32, len: usize) -> (r: Result<Vec<u8>, Error>)
        ensures
            final(self).spec_protocol() == old(self).spec_protocol(),
            performs(
                mem_read_plan(old(self).spec_protocol(), addr, len),
                old(self).history(),
                final(self).history(),
                r,
                |o| decode_data(o),
            ),
    {
        match self.protocol {
            ProtocolKind::LoaderV1 => Err(Error::UnsupportedProtocol),
            _ => {
                if len > 0xffff {
                    return Err(Error::LengthTooLarge(len));
                }
                let args = addr_len(addr, len as u16);
                self.cmd_exec_datain(0xFD07, args.as_slice(), len)
            },
        }
    }

    /// Writes `data` to memory at `addr`; LoaderV2 and UBOOT1 send its CRC-16 along.
    fn mem_write(&mut self, addr: u32, data: &[u8]) -> (r: Result<(), Error>)
        ensures
            final(self).spec_protocol() == old(self).spec_protocol(),
            performs(
                mem_write_plan(old(self).spec_protocol(), addr, data@),
                old(self).history(),
                final(self).history(),
                r,
                |o| decode_sent(o),
            ),
    {
        if data.len() > 0xffff {
            return Err(Error::LengthTooLarge(data.len()));
        }
        match self.protocol {
            ProtocolKind::LoaderV1 => {
                let args = addr_len(addr, data.len() as u16);
                self.cmd_exec_dataout(0xFB04, args.as_slice(), data)
            },
            _ => {
                let args = checked_write(addr, data);
                self.cmd_exec_dataout(0xFB06, args.as_slice(), data)
            },
        }
    }

    /// Jumps to `addr` with a 16-bit argument.
    fn mem_jump(&mut self, addr: u32, arg: u32) -> (r: Result<(), Error>)
        ensures
            final(self).spec_protocol() == old(self).spec_protocol(),
            performs(
                mem_jump_plan(old(self).spec_protocol(), addr, arg),
                old(self).history(),
                final(self).history(),
                r,
                |o| decode_ack(mem_jump_cmd(old(self).spec_protocol()), o),
            ),
    {
        if arg > 0xffff {
            return Err(Error::LengthTooLarge(arg as usize));
        }
        let cmd: u16 = match self.protocol {
            ProtocolKind::LoaderV1 => 0xFB09,
            _ => 0xFB08,
        };
        let args = addr_len(addr, arg as u16);
        self.cmd_ack(cmd, args.as_slice())
    }
}

/// The number of exchanges a plan appends.
pub open spec fn plan_len(plan: Plan) -> int {
    match plan {
        Plan::Refuse(_) => 0,
        Plan::Send { .. } => 1,
    }
}

/// `a` is a prefix of `b`.
pub open spec fn is_prefix(a: Seq<ScsiEvent>, b: Seq<ScsiEvent>) -> bool {
    a.len() <= b.len() && b.subrange(0, a.len() as int) == a
}

/// The view of an optional version string.
pub open spec fn opt_string_view(v: Option<String>) -> Option<Seq<char>> {
    match v {
        Some(s) => Some(s@),
        None => None,
    }
}

/// The history and result of a probe: an INQUIRY, then the online device, flash
/// identifier, USB buffer size, loader version and mask ROM identifier, each
/// as its own command would do it, stopping at the first error.
pub open spec fn probe_spec(
    p: ProtocolKind,
    before: Seq<ScsiEvent>,
    after: Seq<ScsiEvent>,
    r: Result<ProbeInfo, Error>,
) -> bool {
    let h1 = after.subrange(0, before.len() as int + 1);
    &&& after.len() >= before.len() + 1
    &&& h1 == before.push(ScsiEvent::Inquiry(inquiry_outcome(h1)))
    &&& match inquiry_result(inquiry_outcome(h1)) {
        Err(e) => after == h1 && r == Err::<ProbeInfo, Error>(e),
        Ok(inquiry) => probe_online_spec(p, h1, after, inquiry, r),
    }
}

/// The probe after INQUIRY: the online device query, then the rest.
pub open spec fn probe_online_spec(
    p: ProtocolKind,
    h1: Seq<ScsiEvent>,
    after: Seq<ScsiEvent>,
    inquiry: InquiryData,
    r: Result<ProbeInfo, Error>,
) -> bool {
    let plan = online_plan(p);
    let h2 = after.subrange(0, h1.len() + plan_len(plan));
    &&& after.len() >= h1.len() + plan_len(plan)
    &&& step_events(plan, h1, h2)
    &&& match step_result(plan, h2, |o| online_result(p, o)) {
        Err(e) => after == h2 && r == Err::<ProbeInfo, Error>(e),
        Ok(online) => probe_id_spec(p, h2, after, inquiry, online, r),
    }
}

/// The probe after the online device: the flash identifier, then the rest.
pub open spec fn probe_id_spec(
    p: ProtocolKind,
    h2: Seq<ScsiEvent>,
    after: Seq<ScsiEvent>,
    inquiry: InquiryData,
    online: OnlineDeviceInfo,
    r: Result<ProbeInfo, Error>,
) -> bool {
    let plan = read_id_plan(p);
    let h3 = after.subrange(0, h2.len() + plan_len(plan));
    &&& after.len() >= h2.len() + plan_len(plan)
    &&& step_events(plan, h2, h3)
    &&& match step_result(plan, h3, |o| read_id_result(p, o)) {
        Err(e) => after == h3 && r == Err::<ProbeInfo, Error>(e),
        Ok(flash_id) => probe_buffer_spec(p, h3, after, inquiry, online, flash_id, r),
    }
}

/// The probe after the flash identifier: the USB buffer size, then the rest.
pub open spec fn probe_buffer_spec(
    p: ProtocolKind,
    h3: Seq<ScsiEvent>,
    after: Seq<ScsiEvent>,
    inquiry: InquiryData,
    online: OnlineDeviceInfo,
    flash_id: u32,
    r: Result<ProbeInfo, Error>,
) -> bool {
    let plan = v2_query_plan(p, 0xFC14, seq![]);
    let h4 = after.subrange(0, h3.len() + plan_len(plan));
    &&& after.len() >= h3.len() + plan_len(plan)
    &&& step_events(plan, h3, h4)
    &&& match step_result(
        plan,
        h4,
        |o| decode_query(0xFC14, o, |x: Seq<u8>| spec_payload_be32(x)),
    ) {
        Err(e) => after == h4 && r == Err::<ProbeInfo, Error>(e),
        Ok(size) => probe_version_spec(p, h4, after, inquiry, online, flash_id, size, r),
    }
}

/// The probe after the USB buffer size: the loader version, then the rest.
pub open spec fn probe_version_spec(
    p: ProtocolKind,
    h4: Seq<ScsiEvent>,
    after: Seq<ScsiEvent>,
    inquiry: InquiryData,
    online: OnlineDeviceInfo,
    flash_id: u32,
    size: u32,
    r: Result<ProbeInfo, Error>,
) -> bool {
    let plan = loader_version_plan(p);
    let h5 = after.subrange(0, h4.len() + plan_len(plan));
    &&& after.len() >= h4.len() + plan_len(plan)
    &&& step_events(plan, h4, h5)
    &&& match step_result(plan, h5, |o| loader_version_result(o)) {
        Err(e) => after == h5 && r == Err::<ProbeInfo, Error>(e),
        Ok(version) => probe_maskrom_spec(p, h5, after, inquiry, online, flash_id, size, version, r),
    }
}

/// The end of the probe: the mask ROM identifier, and the collected result.
pub open spec fn probe_maskrom_spec(
    p: ProtocolKind,
    h5: Seq<ScsiEvent>,
    after: Seq<ScsiEvent>,
    inquiry: InquiryData,
    online: OnlineDeviceInfo,
    flash_id: u32,
    size: u32,
    version: Option<Seq<char>>,
    r: Result<ProbeInfo, Error>,
) -> bool {
    let plan = v2_query_plan(p, 0xFC16, seq![]);
    &&& after.len() == h5.len() + plan_len(plan)
    &&& step_events(plan, h5, after)
    &&& match step_result(
        plan,
        after,
        |o| decode_query(0xFC16, o, |x: Seq<u8>| spec_payload_be32(x)),
    ) {
        Err(e) => r == Err::<ProbeInfo, Error>(e),
        Ok(maskrom_id) => r matches Ok(info) && info.inquiry == inquiry && info.online_device
            == online && info.flash_id == flash_id && info.usb_buffer_size == size
            && opt_string_view(info.loader_version) == version && info.maskrom_id == maskrom_id,
    }
}

/// A step that follows its plan extends the history by the plan's length.
proof fn lemma_step_extends(plan: Plan, a: Seq<ScsiEvent>, b: Seq<ScsiEvent>)
    requires
        step_events(plan, a, b),
    ensures
        b.len() == a.len() + plan_len(plan),
        is_prefix(a, b),
{
    assert(b.subrange(0, a.len() as int) =~= a);
}

/// Prefixes compose.
proof fn lemma_prefix_trans(a: Seq<ScsiEvent>, b: Seq<ScsiEvent>, c: Seq<ScsiEvent>)
    requires
        is_prefix(a, b),
        is_prefix(b, c),
    ensures
        is_prefix(a, c),
{
    assert(c.subrange(0, a.len() as int) =~= b.subrange(0, a.len() as int));
}

/// A sequence is a prefix of itself.
proof fn lemma_prefix_refl(a: Seq<ScsiEvent>)
    ensures
        is_prefix(a, a),
{
    assert(a.subrange(0, a.len() as int) =~= a);
}

impl<T: ScsiTransport> JlDevice<T> {
    /// Collects INQUIRY data, online device, flash identifier, USB buffer size,
    /// loader version and mask ROM identifier; the first failing query ends the probe.
    pub fn probe_info(&mut self) -> (r: Result<ProbeInfo, Error>)
        ensures
            final(self).spec_protocol() == old(self).spec_protocol(),
            probe_spec(old(self).spec_protocol(), old(self).history(), final(self).history(), r),
    {
        let ghost p = self.spec_protocol();
        let ghost h0 = self.history();
        let inquiry = match self.inquiry() {
            Ok(i) => i,
            Err(e) => {
                proof {
                    lemma_prefix_refl(self.history());
                }
                return Err(e);
            },
        };
        let ghost h1 = self.history();
        let online_device = match self.online_device() {
            Ok(v) => v,
            Err(e) => {
                proof {
                    lemma_step_extends(online_plan(p), h1, self.history());
                    lemma_prefix_refl(self.history());
                }
                return Err(e);
            },
        };
        let ghost h2 = self.history();
        proof {
            lemma_step_extends(online_plan(p), h1, h2);
        }
        let flash_id = match self.read_id() {
            Ok(v) => v,
            Err(e) => {
                proof {
                    lemma_step_extends(read_id_plan(p), h2, self.history());
                    lemma_prefix_trans(h1, h2, self.history());
                    lemma_prefix_refl(self.history());
                }
                return Err(e);
            },
        };
        let ghost h3 = self.history();
        proof {
            lemma_step_extends(read_id_plan(p), h2, h3);
            lemma_prefix_trans(h1, h2, h3);
        }
        let usb_buffer_size = match self.usb_buffer_size() {
            Ok(v) => v,
            Err(e) => {
                proof {
                    lemma_step_extends(v2_query_plan(p, 0xFC14, seq![]), h3, self.history());
                    lemma_prefix_trans(h2, h3, self.history());
                    lemma_prefix_trans(h1, h3, self.history());
                    lemma_prefix_refl(self.history());
                }
                return Err(e);
            },
        };
        let ghost h4 = self.history();
        proof {
            lemma_step_extends(v2_query_plan(p, 0xFC14, seq![]), h3, h4);
            lemma_prefix_trans(h2, h3, h4);
            lemma_prefix_trans(h1, h3, h4);
        }
        let loader_version = match self.loader_version() {
            Ok(v) => v,
            Err(e) => {
                proof {
                    lemma_step_extends(loader_version_plan(p), h4, self.history());
                    lemma_prefix_trans(h3, h4, self.history());
                    lemma_prefix_trans(h2, h4, self.history());
                    lemma_prefix_trans(h1, h4, self.history());
                    lemma_prefix_refl(self.history());
                }
                return Err(e);
            },
        };
        let ghost h5 = self.history();
        proof {
            lemma_step_extends(loader_version_plan(p), h4, h5);
            lemma_prefix_trans(h3, h4, h5);
            lemma_prefix_trans(h2, h4, h5);
            lemma_prefix_trans(h1, h4, h5);
        }
        let maskrom_id = match self.maskrom_id() {
            Ok(v) => v,
            Err(e) => {
                proof {
                    lemma_step_extends(v2_query_plan(p, 0xFC16, seq![]), h5, self.history());
                    lemma_prefix_trans(h4, h5, self.history());
                    lemma_prefix_trans(h3, h5, self.history());
                    lemma_prefix_trans(h2, h5, self.history());
                    lemma_prefix_trans(h1, h5, self.history());
                }
                return Err(e);
            },
        };
        proof {
            lemma_step_extends(v2_query_plan(p, 0xFC16, seq![]), h5, self.history());
            lemma_prefix_trans(h4, h5, self.history());
            lemma_prefix_trans(h3, h5, self.history());
            lemma_prefix_trans(h2, h5, self.history());
            lemma_prefix_trans(h1, h5, self.history());
        }
        Ok(ProbeInfo { inquiry, online_device, flash_id, usb_buffer_size, loader_version, maskrom_id })
    }
}
} // verus!
