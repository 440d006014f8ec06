//! The JieLi download-mode command sets: value types, errors and the decoding
//! of response payloads.

use vstd::prelude::*;
use vstd::utf8::*;

use crate::msc::{spec_msc_message, MscError};
use crate::text::{decimal_chars, hex_padded, push_decimal, push_hex};
use crate::scsi::{spec_transport_message, InquiryData, TransportError};

verus! {

/// The storage device a loader reports as online.
#[derive(Debug, Clone, Copy, PartialEq, Eq)]
pub enum OnlineDeviceType {
    NoDevice,
    Sdram,
    SdCard,
    Spi0Nor,
    Spi0Nand,
    Otp,
    Spi1Nor,
    Spi1Nand,
    SpiFlash,
}

/// The numeric code of each online device type.
pub open spec fn spec_online_code(t: OnlineDeviceType) -> u32 {
    match t {
        OnlineDeviceType::NoDevice => 0x00,
        OnlineDeviceType::Sdram => 0x01,
        OnlineDeviceType::SdCard => 0x02,
        OnlineDeviceType::Spi0Nor => 0x03,
        OnlineDeviceType::Spi0Nand => 0x04,
        OnlineDeviceType::Otp => 0x05,
        OnlineDeviceType::Spi1Nor => 0x16,
        OnlineDeviceType::Spi1Nand => 0x17,
        OnlineDeviceType::SpiFlash => 0x101,
    }
}

/// The display name of each online device type.
pub open spec fn spec_online_name(t: OnlineDeviceType) -> Seq<char> {
    match t {
        OnlineDeviceType::NoDevice => "None"@,
        OnlineDeviceType::Sdram => "Sdram"@,
        OnlineDeviceType::SdCard => "SdCard"@,
        OnlineDeviceType::Spi0Nor => "Spi0Nor"@,
        OnlineDeviceType::Spi0Nand => "Spi0Nand"@,
        OnlineDeviceType::Otp => "Otp"@,
        OnlineDeviceType::Spi1Nor => "Spi1Nor"@,
        OnlineDeviceType::Spi1Nand => "Spi1Nand"@,
        OnlineDeviceType::SpiFlash => "SpiFlash"@,
    }
}

impl OnlineDeviceType {
    /// The numeric code of the device type.
    pub fn code(&self) -> (r: u32)
        ensures
            r == spec_online_code(*self),
    {
        match self {
            OnlineDeviceType::NoDevice => 0x00,
            OnlineDeviceType::Sdram => 0x01,
            OnlineDeviceType::SdCard => 0x02,
            OnlineDeviceType::Spi0Nor => 0x03,
            OnlineDeviceType::Spi0Nand => 0x04,
            OnlineDeviceType::Otp => 0x05,
            OnlineDeviceType::Spi1Nor => 0x16,
            OnlineDeviceType::Spi1Nand => 0x17,
            OnlineDeviceType::SpiFlash => 0x101,
        }
    }

    /// The name under which the device type is reported.
    pub fn name(&self) -> (r: &'static str)
        ensures
            r@ == spec_online_name(*self),
    {
        match self {
            OnlineDeviceType::NoDevice => "None",
            OnlineDeviceType::Sdram => "Sdram",
            OnlineDeviceType::SdCard => "SdCard",
            OnlineDeviceType::Spi0Nor => "Spi0Nor",
            OnlineDeviceType::Spi0Nand => "Spi0Nand",
            OnlineDeviceType::Otp => "Otp",
            OnlineDeviceType::Spi1Nor => "Spi1Nor",
            OnlineDeviceType::Spi1Nand => "Spi1Nand",
            OnlineDeviceType::SpiFlash => "SpiFlash",
        }
    }
}

/// The command set a device in download mode speaks.
#[derive(Debug, Clone, Copy, PartialEq, Eq)]
pub enum ProtocolKind {
    Uboot1,
    LoaderV1,
    LoaderV2,
}

/// The online storage device and, when reported, its identifier.
#[derive(Debug, Clone)]
pub struct OnlineDeviceInfo {
    pub kind: OnlineDeviceType,
    pub id: Option<u32>,
}

/// Everything a probe of a LoaderV2 device collects.
#[derive(Debug, Clone)]
pub struct ProbeInfo {
    pub inquiry: InquiryData,
    pub online_device: OnlineDeviceInfo,
    pub flash_id: u32,
    pub usb_buffer_size: u32,
    pub loader_version: Option<String>,
    pub maskrom_id: u32,
}

/// The undecoded chip key response payload.
#[derive(Debug, Clone)]
pub struct ChipKeyRaw {
    pub payload: Vec<u8>,
}

/// The flash a LoaderV1 loader operates on.
#[derive(Debug, Clone, Copy, PartialEq, Eq)]
pub enum LoaderV1FlashSelect {
    Code,
    Data,
}

/// The selector byte of each LoaderV1 flash.
pub open spec fn spec_flash_select_code(s: LoaderV1FlashSelect) -> u8 {
    match s {
        LoaderV1FlashSelect::Code => 0,
        LoaderV1FlashSelect::Data => 1,
    }
}

impl LoaderV1FlashSelect {
    /// The selector byte sent to the loader.
    pub fn code(&self) -> (r: u8)
        ensures
            r == spec_flash_select_code(*self),
    {
        match self {
            LoaderV1FlashSelect::Code => 0,
            LoaderV1FlashSelect::Data => 1,
        }
    }
}

/// Errors of the download-mode protocol layer.
#[derive(Debug)]
pub enum Error {
    Transport(TransportError),
    Msc(MscError),
    UnsupportedProtocol,
    ResponseTooShort,
    ResponsePayloadTooShort { expected: usize, actual: usize },
    UnexpectedOnlineDevice(u8),
    LengthTooLarge(usize),
    InvalidLoaderVersion,
}

/// What `ensure_payload_len` decides for a payload and a minimum length.
pub open spec fn spec_payload_len(payload: Seq<u8>, expected: usize) -> Result<(), Error> {
    if payload.len() < expected {
        Err(Error::ResponsePayloadTooShort { expected, actual: payload.len() as usize })
    } else {
        Ok(())
    }
}

/// Fails with `ResponsePayloadTooShort` when the payload is shorter than `expected`.
pub fn ensure_payload_len(payload: &[u8], expected: usize) -> (r: Result<(), Error>)
    ensures
        r == spec_payload_len(payload@, expected),
{
    if payload.len() < expected {
        return Err(Error::ResponsePayloadTooShort { expected, actual: payload.len() });
    }
    Ok(())
}

/// The big-endian 32-bit value of four bytes.
pub open spec fn be32(b0: u8, b1: u8, b2: u8, b3: u8) -> u32 {
    (b0 as int * 0x1000000 + b1 as int * 0x10000 + b2 as int * 0x100 + b3 as int) as u32
}

/// The first four payload bytes as a big-endian value.
pub open spec fn spec_payload_be32(p: Seq<u8>) -> Result<u32, Error> {
    if p.len() < 4 {
        Err(Error::ResponsePayloadTooShort { expected: 4, actual: p.len() as usize })
    } else {
        Ok(be32(p[0], p[1], p[2], p[3]))
    }
}

/// The first three payload bytes as a big-endian value.
pub open spec fn spec_payload_be24(p: Seq<u8>) -> Result<u32, Error> {
    if p.len() < 3 {
        Err(Error::ResponsePayloadTooShort { expected: 3, actual: p.len() as usize })
    } else {
        Ok(be32(0, p[0], p[1], p[2]))
    }
}

/// The first two payload bytes as a big-endian value.
pub open spec fn spec_payload_be16(p: Seq<u8>) -> Result<u16, Error> {
    if p.len() < 2 {
        Err(Error::ResponsePayloadTooShort { expected: 2, actual: p.len() as usize })
    } else {
        Ok(crate::msc::be16(p[0], p[1]))
    }
}

/// The first payload byte.
pub open spec fn spec_payload_u8(p: Seq<u8>) -> Result<u8, Error> {
    if p.len() < 1 {
        Err(Error::ResponsePayloadTooShort { expected: 1, actual: p.len() as usize })
    } else {
        Ok(p[0])
    }
}

/// Decodes a payload that carries a big-endian 32-bit value.
pub fn decode_be32(p: &[u8]) -> (r: Result<u32, Error>)
    ensures
        r == spec_payload_be32(p@),
{
    match ensure_payload_len(p, 4) {
        Err(e) => Err(e),
        Ok(()) => Ok(
            (p[0] as u32) * 0x1000000 + (p[1] as u32) * 0x10000 + (p[2] as u32) * 0x100 + (
            p[3] as u32),
        ),
    }
}

/// Decodes a payload that carries a big-endian 24-bit value.
pub fn decode_be24(p: &[u8]) -> (r: Result<u32, Error>)
    ensures
        r == spec_payload_be24(p@),
{
    match ensure_payload_len(p, 3) {
        Err(e) => Err(e),
        Ok(()) => Ok((p[0] as u32) * 0x10000 + (p[1] as u32) * 0x100 + (p[2] as u32)),
    }
}

/// Decodes a payload that carries a big-endian 16-bit value.
pub fn decode_be16(p: &[u8]) -> (r: Result<u16, Error>)
    ensures
        r == spec_payload_be16(p@),
{
    match ensure_payload_len(p, 2) {
        Err(e) => Err(e),
        Ok(()) => Ok((p[0] as u16) * 0x100 + (p[1] as u16)),
    }
}

/// Decodes a payload that carries one byte.
pub fn decode_u8(p: &[u8]) -> (r: Result<u8, Error>)
    ensures
        r == spec_payload_u8(p@),
{
    match ensure_payload_len(p, 1) {
        Err(e) => Err(e),
        Ok(()) => Ok(p[0]),
    }
}

/// The little-endian 32-bit value of four bytes.
pub open spec fn le32(b0: u8, b1: u8, b2: u8, b3: u8) -> u32 {
    be32(b3, b2, b1, b0)
}

/// The online device a LoaderV2 payload reports: the type code in byte 0 and,
/// when the payload has six bytes, a little-endian identifier in bytes 2..6.
pub open spec fn spec_online_v2(p: Seq<u8>) -> Result<OnlineDeviceInfo, Error> {
    if p.len() == 0 {
        Err(Error::ResponseTooShort)
    } else {
        let id = if p.len() >= 6 {
            Some(le32(p[2], p[3], p[4], p[5]))
        } else {
            None
        };
        let kind = if p[0] == 0x00 {
            Some(OnlineDeviceType::NoDevice)
        } else if p[0] == 0x01 {
            Some(OnlineDeviceType::Sdram)
        } else if p[0] == 0x02 {
            Some(OnlineDeviceType::SdCard)
        } else if p[0] == 0x03 {
            Some(OnlineDeviceType::Spi0Nor)
        } else if p[0] == 0x04 {
            Some(OnlineDeviceType::Spi0Nand)
        } else if p[0] == 0x05 {
            Some(OnlineDeviceType::Otp)
        } else if p[0] == 0x16 {
            Some(OnlineDeviceType::Spi1Nor)
        } else if p[0] == 0x17 {
            Some(OnlineDeviceType::Spi1Nand)
        } else {
            None
        };
        match kind {
            Some(k) => Ok(OnlineDeviceInfo { kind: k, id }),
            None => Err(Error::UnexpectedOnlineDevice(p[0])),
        }
    }
}

/// The online device a LoaderV1 payload reports in byte 0.
pub open spec fn spec_online_v1(p: Seq<u8>) -> Result<OnlineDeviceInfo, Error> {
    if p.len() == 0 {
        Err(Error::ResponseTooShort)
    } else if p[0] == 0x00 {
        Ok(OnlineDeviceInfo { kind: OnlineDeviceType::NoDevice, id: None })
    } else if p[0] == 0x01 {
        Ok(OnlineDeviceInfo { kind: OnlineDeviceType::SpiFlash, id: None })
    } else if p[0] == 0x02 {
        Ok(OnlineDeviceInfo { kind: OnlineDeviceType::SdCard, id: None })
    } else {
        Err(Error::UnexpectedOnlineDevice(p[0]))
    }
}

/// Decodes a LoaderV2 online device payload.
pub fn decode_online_v2(p: &[u8]) -> (r: Result<OnlineDeviceInfo, Error>)
    ensures
        r == spec_online_v2(p@),
{
    if p.len() == 0 {
        return Err(Error::ResponseTooShort);
    }
    let kind = match p[0] {
        0x00 => OnlineDeviceType::NoDevice,
        0x01 => OnlineDeviceType::Sdram,
        0x02 => OnlineDeviceType::SdCard,
        0x03 => OnlineDeviceType::Spi0Nor,
        0x04 => OnlineDeviceType::Spi0Nand,
        0x05 => OnlineDeviceType::Otp,
        0x16 => OnlineDeviceType::Spi1Nor,
        0x17 => OnlineDeviceType::Spi1Nand,
        other => return Err(Error::UnexpectedOnlineDevice(other)),
    };
    let id = if p.len() >= 6 {
        Some(
            (p[5] as u32) * 0x1000000 + (p[4] as u32) * 0x10000 + (p[3] as u32) * 0x100 + (
            p[2] as u32),
        )
    } else {
        None
    };
    Ok(OnlineDeviceInfo { kind, id })
}

/// Decodes a LoaderV1 online device payload.
pub fn decode_online_v1(p: &[u8]) -> (r: Result<OnlineDeviceInfo, Error>)
    ensures
        r == spec_online_v1(p@),
{
    if p.len() == 0 {
        return Err(Error::ResponseTooShort);
    }
    let kind = match p[0] {
        0x00 => OnlineDeviceType::NoDevice,
        0x01 => OnlineDeviceType::SpiFlash,
        0x02 => OnlineDeviceType::SdCard,
        other => return Err(Error::UnexpectedOnlineDevice(other)),
    };
    Ok(OnlineDeviceInfo { kind, id: None })
}

/// `s` without leading NUL characters.
pub open spec fn trim_nul_start(s: Seq<char>) -> Seq<char>
    decreases s.len(),
{
    if s.len() > 0 && s[0] == '\0' {
        trim_nul_start(s.drop_first())
    } else {
        s
    }
}

/// `s` without trailing NUL characters.
pub open spec fn trim_nul_end(s: Seq<char>) -> Seq<char>
    decreases s.len(),
{
    if s.len() > 0 && s.last() == '\0' {
        trim_nul_end(s.drop_last())
    } else {
        s
    }
}

/// `s` without leading and trailing NUL characters.
pub open spec fn trim_nul(s: Seq<char>) -> Seq<char> {
    trim_nul_end(trim_nul_start(s))
}

/// Removes leading and trailing NUL characters from `s`.
pub fn trim_nul_str(s: &str) -> (r: String)
    ensures
        r@ == trim_nul(s@),
{
    let n = s.unicode_len();
    let mut i: usize = 0;
    assert(s@.subrange(0, n as int) =~= s@);
    while i < n && s.get_char(i) == '\0'
        invariant
            n == s@.len(),
            i <= n,
            trim_nul_start(s@) == trim_nul_start(s@.subrange(i as int, n as int)),
        decreases n - i,
    {
        assert(s@.subrange(i as int, n as int).drop_first() =~= s@.subrange(i + 1, n as int));
        i = i + 1;
    }
    assert(trim_nul_start(s@) == s@.subrange(i as int, n as int)) by {
        if i < n {
            assert(s@.subrange(i as int, n as int)[0] == s@[i as int]);
        }
    }
    let mut j: usize = n;
    while j > i && s.get_char(j - 1) == '\0'
        invariant
            n == s@.len(),
            i <= j <= n,
            trim_nul(s@) == trim_nul_end(s@.subrange(i as int, j as int)),
        decreases j,
    {
        assert(s@.subrange(i as int, j as int).drop_last() =~= s@.subrange(i as int, j - 1));
        j = j - 1;
    }
    assert(trim_nul(s@) == s@.subrange(i as int, j as int)) by {
        if i < j {
            assert(s@.subrange(i as int, j as int).last() == s@[j - 1]);
        }
    }
    s.substring_char(i, j).to_owned()
}

/// The loader version a response carries: bytes 2..6 in reverse order, read as
/// UTF-8 text without surrounding NULs; no version when the response is shorter than six bytes.
pub open spec fn spec_loader_version(d: Seq<u8>) -> Result<Option<Seq<char>>, Error> {
    if d.len() < 6 {
        Ok(None)
    } else {
        let raw = seq![d[5], d[4], d[3], d[2]];
        if valid_utf8(raw) {
            Ok(Some(trim_nul(decode_utf8(raw))))
        } else {
            Err(Error::InvalidLoaderVersion)
        }
    }
}

/// The view of a decoded loader version.
pub open spec fn version_view(r: Result<Option<String>, Error>) -> Result<Option<Seq<char>>, Error> {
    match r {
        Ok(Some(s)) => Ok(Some(s@)),
        Ok(None) => Ok(None),
        Err(e) => Err(e),
    }
}

/// Decodes the loader version from a raw version response.
pub fn decode_loader_version(d: &[u8]) -> (r: Result<Option<String>, Error>)
    ensures
        version_view(r) == spec_loader_version(d@),
{
    if d.len() < 6 {
        return Ok(None);
    }
    let raw: [u8; 4] = [d[5], d[4], d[3], d[2]];
    assert(raw@ =~= seq![d@[5], d@[4], d@[3], d@[2]]);
    match crate::scsi::utf8_str(raw.as_slice()) {
        None => Err(Error::InvalidLoaderVersion),
        Some(text) => Ok(Some(trim_nul_str(text))),
    }
}

/// The chip key a payload carries: bytes 5 and 4 deciphered with the all-ones
/// key and read little endian.
pub open spec fn spec_chip_key(p: Seq<u8>) -> Result<u16, Error> {
    if p.len() < 6 {
        Err(Error::ResponsePayloadTooShort { expected: 6, actual: p.len() as usize })
    } else {
        let d = crate::crc::spec_cipher(seq![p[5], p[4]], 0xffff_ffff);
        Ok((d[0] as int + d[1] as int * 256) as u16)
    }
}

/// Decodes the chip key from a chip key payload.
pub fn decode_chip_key(p: &[u8]) -> (r: Result<u16, Error>)
    ensures
        r == spec_chip_key(p@),
{
    match ensure_payload_len(p, 6) {
        Err(e) => Err(e),
        Ok(()) => {
            let src: [u8; 2] = [p[5], p[4]];
            assert(src@ =~= seq![p@[5], p@[4]]);
            let decoded = crate::crc::jl_crc_cipher_bytes(src.as_slice(), 0xffff_ffff);
            Ok((decoded[0] as u16) + (decoded[1] as u16) * 256)
        },
    }
}

/// The text of an `Error` whose text does not come from the system.
pub open spec fn spec_error_message(e: Error) -> Seq<char> {
    match e {
        Error::Transport(t) => spec_transport_message(t),
        Error::Msc(m) => spec_msc_message(m),
        Error::UnsupportedProtocol => "unsupported protocol path"@,
        Error::ResponseTooShort => "response too short"@,
        Error::ResponsePayloadTooShort { expected, actual } => "response payload too short: expected at least "@
            + decimal_chars(expected as nat) + ", got "@ + decimal_chars(actual as nat),
        Error::UnexpectedOnlineDevice(b) => "unexpected online device type: 0x"@ + hex_padded(
            b as nat,
            2,
        ),
        Error::LengthTooLarge(n) => "length too large for protocol field: "@ + decimal_chars(
            n as nat,
        ),
        Error::InvalidLoaderVersion => "invalid loader version string"@,
    }
}

impl Error {
    /// The text describing the error; transport and framing errors give their own text.
    pub fn message(&self) -> (r: String)
        ensures
            !(*self matches Error::Transport(TransportError::Io(_))) ==> r@ == spec_error_message(
                *self,
            ),
            *self matches Error::Transport(TransportError::Io(_)) ==> crate::text::chars_start_with(
                r@,
                "io error: "@,
            ),
    {
        match self {
            Error::Transport(t) => t.message(),
            Error::Msc(m) => m.message(),
            Error::UnsupportedProtocol => "unsupported protocol path".to_owned(),
            Error::ResponseTooShort => "response too short".to_owned(),
            Error::ResponsePayloadTooShort { expected, actual } => {
                let mut s = "response payload too short: expected at least ".to_owned();
                push_decimal(&mut s, *expected as u64);
                s.append(", got ");
                push_decimal(&mut s, *actual as u64);
                s
            },
            Error::UnexpectedOnlineDevice(b) => {
                let mut s = "unexpected online device type: 0x".to_owned();
                push_hex(&mut s, *b as u64, 2);
                s
            },
            Error::LengthTooLarge(n) => {
                let mut s = "length too large for protocol field: ".to_owned();
                push_decimal(&mut s, *n as u64);
                s
            },
            Error::InvalidLoaderVersion => "invalid loader version string".to_owned(),
        }
    }
}

/// Deciphering the chip key undoes its enciphering: a payload whose bytes 5 and 4
/// are the low and high byte of `k` enciphered under the all-ones key decodes to `k`.
pub proof fn lemma_chip_key_roundtrip(p: Seq<u8>, k: u16)
    requires
        p.len() >= 6,
        seq![p[5], p[4]] == crate::crc::spec_cipher(seq![(k % 256) as u8, (k / 256) as u8], 0xffff_ffff),
    ensures
        spec_chip_key(p) == Ok::<u16, Error>(k),
{
    crate::crc::lemma_cipher_involution(seq![(k % 256) as u8, (k / 256) as u8], 0xffff_ffff);
    let d = crate::crc::spec_cipher(seq![p[5], p[4]], 0xffff_ffff);
    assert(d[0] == (k % 256) as u8 && d[1] == (k / 256) as u8);
}

/// The chip key `0x1234`, as the loader sends it enciphered (`b6 1b` in bytes 4
/// and 5), decodes to `0x1234`.
pub proof fn lemma_chip_key_known_answer()
    ensures
        spec_chip_key(seq![0u8, 0u8, 0u8, 0u8, 0xB6u8, 0x1Bu8]) == Ok::<u16, Error>(0x1234),
{
    crate::crc::lemma_cipher_known_answer();
    let d = crate::crc::spec_cipher(seq![0x1Bu8, 0xB6u8], 0xffff_ffff);
    assert((0x1Bu8 ^ 0x2Fu8) == 0x34u8 && (0xB6u8 ^ 0xA4u8) == 0x12u8) by (bit_vector);
    assert(d[0] == 0x34u8 && d[1] == 0x12u8);
}

/// A LoaderV2 online report names the device type whose code is the byte the
/// loader sent: every type other than `SpiFlash` is reported by its own code, any
/// other byte is an unexpected device type, and a six-byte payload carries the
/// identifier in bytes 2..6, least significant first.
pub proof fn lemma_online_v2_decodes_by_code(p: Seq<u8>, t: OnlineDeviceType)
    requires
        p.len() > 0,
    ensures
        t != OnlineDeviceType::SpiFlash && spec_online_code(t) == p[0] as u32 ==> (spec_online_v2(
            p,
        ) matches Ok(info) && info.kind == t),
        (forall|u: OnlineDeviceType|
            u == OnlineDeviceType::SpiFlash || spec_online_code(u) != p[0] as u32) ==> spec_online_v2(
            p,
        ) == Err::<OnlineDeviceInfo, Error>(Error::UnexpectedOnlineDevice(p[0])),
        spec_online_v2(p) matches Ok(info) ==> spec_online_code(info.kind) == p[0] as u32
            && info.id == (if p.len() >= 6 {
            Some(
                (p[2] as int + p[3] as int * 0x100 + p[4] as int * 0x1_0000 + p[5] as int
                    * 0x100_0000) as u32,
            )
        } else {
            None
        }),
{
    if forall|u: OnlineDeviceType|
        u == OnlineDeviceType::SpiFlash || spec_online_code(u) != p[0] as u32 {
        assert(spec_online_code(OnlineDeviceType::NoDevice) == 0);
        assert(spec_online_code(OnlineDeviceType::Sdram) == 1);
        assert(spec_online_code(OnlineDeviceType::SdCard) == 2);
        assert(spec_online_code(OnlineDeviceType::Spi0Nor) == 3);
        assert(spec_online_code(OnlineDeviceType::Spi0Nand) == 4);
        assert(spec_online_code(OnlineDeviceType::Otp) == 5);
        assert(spec_online_code(OnlineDeviceType::Spi1Nor) == 0x16);
        assert(spec_online_code(OnlineDeviceType::Spi1Nand) == 0x17);
    }
}

} // verus!
