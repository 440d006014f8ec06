use std::collections::VecDeque;

use jl_uboot::crc::{jl_crc16, jl_crc16_seed, jl_crc_cipher_bytes, legacy_jl_crc16_reference};
use jl_uboot::device::{FlashAccess, JlDevice, MemAccess};
use jl_uboot::msc::{build_cdb, MscError};
use jl_uboot::scsi::{InquiryData, ScsiResponse, ScsiTransport, TransportError};
use jl_uboot::uboot::{ensure_payload_len, Error, LoaderV1FlashSelect, OnlineDeviceType, ProtocolKind};

#[derive(Debug)]
struct ExpectedExec {
    cdb: [u8; 16],
    data_out: Option<Vec<u8>>,
    data_in_len: usize,
    response: Result<Vec<u8>, TransportError>,
}

#[derive(Debug)]
struct MockTransport {
    path: String,
    inquiry: InquiryData,
    execs: VecDeque<ExpectedExec>,
}

impl MockTransport {
    fn new() -> Self {
        Self {
            path: "/dev/mocksg0".to_string(),
            inquiry: InquiryData {
                vendor: "JIELI".to_string(),
                product: "UBOOT".to_string(),
                revision: "1.00".to_string(),
                raw: vec![0; 36],
            },
            execs: VecDeque::new(),
        }
    }

    fn expect_query(mut self, cmd: u16, args: &[u8], payload: &[u8]) -> Self {
        let mut response = Vec::with_capacity(payload.len() + 2);
        response.extend_from_slice(&cmd.to_be_bytes());
        response.extend_from_slice(payload);
        self.execs.push_back(ExpectedExec {
            cdb: build_cdb(cmd, args).expect("query cdb"),
            data_out: None,
            data_in_len: 16,
            response: Ok(response),
        });
        self
    }

    fn expect_datain(mut self, cmd: u16, args: &[u8], len: usize, response: &[u8]) -> Self {
        self.execs.push_back(ExpectedExec {
            cdb: build_cdb(cmd, args).expect("datain cdb"),
            data_out: None,
            data_in_len: len,
            response: Ok(response.to_vec()),
        });
        self
    }

    fn expect_dataout(mut self, cmd: u16, args: &[u8], data: &[u8]) -> Self {
        self.execs.push_back(ExpectedExec {
            cdb: build_cdb(cmd, args).expect("dataout cdb"),
            data_out: Some(data.to_vec()),
            data_in_len: 0,
            response: Ok(Vec::new()),
        });
        self
    }
}

impl ScsiTransport for MockTransport {
    fn path(&self) -> &str {
        &self.path
    }

    fn exec(
        &mut self,
        cdb: &[u8],
        data_out: Option<&[u8]>,
        data_in_len: usize,
    ) -> Result<ScsiResponse, TransportError> {
        let expected = self.execs.pop_front().expect("unexpected exec call");
        assert_eq!(cdb, expected.cdb);
        assert_eq!(data_in_len, expected.data_in_len);
        assert_eq!(data_out, expected.data_out.as_deref());
        expected.response.map(|data| ScsiResponse { data, resid: 0 })
    }

    fn inquiry(&mut self) -> Result<InquiryData, TransportError> {
        Ok(self.inquiry.clone())
    }
}

#[test]
fn crc16_matches_legacy_reference() {
    let data = b"JieLi test payload";
    assert_eq!(jl_crc16(data), legacy_jl_crc16_reference(data));
}

#[test]
fn crc16_seed_is_consistent() {
    let a = jl_crc16_seed(b"hello", 0x1234);
    let b = jl_crc16_seed(b"hello", 0x1234);
    assert_eq!(a, b);
}

#[test]
fn chipkey_cipher_is_reversible_with_same_key() {
    let data = [0x12, 0x34, 0x56, 0x78];
    let enc = jl_crc_cipher_bytes(&data, 0xffff_ffff);
    let dec = jl_crc_cipher_bytes(&enc, 0xffff_ffff);
    assert_eq!(dec, data);
}

#[test]
fn ensure_payload_len_reports_actual_length() {
    let err = ensure_payload_len(&[1, 2], 4).expect_err("must fail");
    match err {
        Error::ResponsePayloadTooShort { expected, actual } => {
            assert_eq!(expected, 4);
            assert_eq!(actual, 2);
        }
        other => panic!("unexpected error: {other:?}"),
    }
}

#[test]
fn online_device_type_numeric_values_are_stable() {
    assert_eq!(OnlineDeviceType::Spi0Nor.code(), 0x03);
    assert_eq!(OnlineDeviceType::Spi1Nor.code(), 0x16);
    assert_eq!(OnlineDeviceType::SpiFlash.code(), 0x101);
}

#[test]
fn probe_info_collects_loaderv2_fields() {
    let transport = MockTransport::new()
        .expect_query(0xFC0A, &[], &[0x03, 0x00, 0x78, 0x56, 0x34, 0x12])
        .expect_query(0xFC0B, &[], &[0x12, 0x34, 0x56])
        .expect_query(0xFC14, &[], &[0x00, 0x00, 0x10, 0x00])
        .expect_datain(0xFC15, &[], 16, &[0, 0, b'1', b'2', b'3', b'4'])
        .expect_query(0xFC16, &[], &[0xAA, 0xBB, 0xCC, 0xDD]);
    let mut dev = JlDevice::new(transport, ProtocolKind::LoaderV2);

    let info = dev.probe_info().expect("probe info");
    assert_eq!(info.inquiry.vendor, "JIELI");
    assert_eq!(info.online_device.kind, OnlineDeviceType::Spi0Nor);
    assert_eq!(info.online_device.id, Some(0x1234_5678));
    assert_eq!(info.flash_id, 0x12_34_56);
    assert_eq!(info.usb_buffer_size, 0x1000);
    assert_eq!(info.loader_version.as_deref(), Some("4321"));
    assert_eq!(info.maskrom_id, 0xAABB_CCDD);
}

#[test]
fn loader_v1_flash_read_uses_expected_command() {
    let transport = MockTransport::new().expect_datain(
        0xFD01,
        &[0x00, 0x01, 0x00, 0x00, 0x00, 0x04],
        4,
        &[0xDE, 0xAD, 0xBE, 0xEF],
    );
    let mut dev = JlDevice::new(transport, ProtocolKind::LoaderV1);
    let data = dev.flash_read(0x0001_0000, 4).expect("flash read");
    assert_eq!(data, vec![0xDE, 0xAD, 0xBE, 0xEF]);
}

#[test]
fn mem_write_rxgp_uses_crc_and_command() {
    let payload = [0x10, 0x20, 0x30, 0x40];
    let crc = jl_crc16(&payload);
    let mut args = Vec::new();
    args.extend_from_slice(&0x1F00_0000u32.to_be_bytes());
    args.extend_from_slice(&(payload.len() as u16).to_be_bytes());
    args.push(0);
    args.extend_from_slice(&crc.to_le_bytes());
    let transport = MockTransport::new().expect_dataout(0xFB31, &args, &payload);
    let mut dev = JlDevice::new(transport, ProtocolKind::Uboot1);

    dev.mem_write_rxgp(0x1F00_0000, &payload)
        .expect("rxgp write");
}

#[test]
fn flash_crc16_uses_expected_command_and_decodes_result() {
    let transport = MockTransport::new().expect_query(
        0xFC0E,
        &[0x00, 0x00, 0x10, 0x00, 0x00, 0x80],
        &[0x12, 0x34],
    );
    let mut dev = JlDevice::new(transport, ProtocolKind::LoaderV2);

    let crc = dev.flash_crc16(0x0000_1000, 0x80).expect("flash crc16");
    assert_eq!(crc, 0x1234);
}

#[test]
fn flash_crc16_raw_uses_expected_command_and_decodes_result() {
    let transport = MockTransport::new().expect_query(
        0xFC13,
        &[0x00, 0x00, 0x20, 0x00, 0x00, 0x40],
        &[0x56, 0x78],
    );
    let mut dev = JlDevice::new(transport, ProtocolKind::LoaderV2);

    let crc = dev
        .flash_crc16_raw(0x0000_2000, 0x40)
        .expect("flash crc16 raw");
    assert_eq!(crc, 0x5678);
}

#[test]
fn read_status_uses_expected_command_and_decodes_result() {
    let transport = MockTransport::new().expect_query(0xFC03, &[], &[0xA5]);
    let mut dev = JlDevice::new(transport, ProtocolKind::LoaderV2);

    let status = dev.read_status().expect("read status");
    assert_eq!(status, 0xA5);
}

#[test]
fn maskrom_id_uses_expected_command_and_decodes_result() {
    let transport = MockTransport::new().expect_query(0xFC16, &[], &[0x11, 0x22, 0x33, 0x44]);
    let mut dev = JlDevice::new(transport, ProtocolKind::LoaderV2);

    let id = dev.maskrom_id().expect("maskrom id");
    assert_eq!(id, 0x1122_3344);
}

#[test]
fn read_key_raw_preserves_payload_bytes() {
    let transport = MockTransport::new().expect_query(
        0xFC09,
        &[0x00, 0xAC, 0x69, 0x00],
        &[0x10, 0x20, 0x30, 0x40, 0x50],
    );
    let mut dev = JlDevice::new(transport, ProtocolKind::LoaderV2);

    let raw = dev.read_key_raw(0x00AC6900).expect("read key raw");
    assert_eq!(raw.payload, vec![0x10, 0x20, 0x30, 0x40, 0x50]);
}

#[test]
fn chip_key_decodes_expected_value() {
    let encoded = jl_crc_cipher_bytes(&[0x34, 0x12], 0xffff_ffff);
    let transport = MockTransport::new().expect_query(
        0xFC09,
        &[0x00, 0xAC, 0x69, 0x00],
        &[0x00, 0x00, 0x00, 0x00, encoded[1], encoded[0]],
    );
    let mut dev = JlDevice::new(transport, ProtocolKind::LoaderV2);

    let key = dev.chip_key(0x00AC6900).expect("chip key");
    assert_eq!(key, 0x1234);
}

#[test]
fn chip_key_requires_minimum_payload_length() {
    let transport = MockTransport::new().expect_query(
        0xFC09,
        &[0x00, 0xAC, 0x69, 0x00],
        &[0x00, 0x01, 0x02, 0x03, 0x04],
    );
    let mut dev = JlDevice::new(transport, ProtocolKind::LoaderV2);

    let err = dev.chip_key(0x00AC6900).expect_err("must fail");
    match err {
        Error::ResponsePayloadTooShort { expected, actual } => {
            assert_eq!(expected, 6);
            assert_eq!(actual, 5);
        }
        other => panic!("unexpected error: {other:?}"),
    }
}

#[test]
fn set_flash_cmds_uses_datain_path_with_expected_length() {
    let cmds = [0x03, 0x0B, 0x05, 0xD8, 0x20, 0x52, 0x60, 0xC7];
    let transport = MockTransport::new().expect_datain(
        0xFC0D,
        &[0x00, 0x00, 0x00, 0x00, 0x00, 0x08],
        cmds.len(),
        &cmds,
    );
    let mut dev = JlDevice::new(transport, ProtocolKind::LoaderV2);

    dev.set_flash_cmds(&cmds).expect("set flash cmds");
}

#[test]
fn run_app_uses_expected_command() {
    let transport = MockTransport::new().expect_query(0xFC0C, &[0x00, 0x00, 0x00, 0x02], &[]);
    let mut dev = JlDevice::new(transport, ProtocolKind::LoaderV2);

    dev.run_app(2).expect("run app");
}

#[test]
fn write_chipkey_uses_expected_payload() {
    let transport = MockTransport::new().expect_query(
        0xFC12,
        &[0x12, 0x34, 0x56, 0x78, 0x00, 0x00, 0x00, 0x13, 0x88],
        &[0xAA, 0xBB, 0xCC, 0xDD],
    );
    let mut dev = JlDevice::new(transport, ProtocolKind::LoaderV2);

    let value = dev.write_chipkey(0x1234_5678, 5000).expect("write chipkey");
    assert_eq!(value, 0xAABB_CCDD);
}

#[test]
fn loader_v1_flash_select_uses_expected_command() {
    let transport = MockTransport::new().expect_query(0xFC0C, &[0x01], &[]);
    let mut dev = JlDevice::new(transport, ProtocolKind::LoaderV1);

    dev.flash_select(LoaderV1FlashSelect::Data)
        .expect("flash select");
}

#[test]
fn mem_jump_uses_protocol_specific_command() {
    let transport =
        MockTransport::new().expect_query(0xFB09, &[0x1F, 0x00, 0x00, 0x00, 0x00, 0x02], &[]);
    let mut dev = JlDevice::new(transport, ProtocolKind::LoaderV1);

    dev.mem_jump(0x1F00_0000, 2).expect("mem jump");
}

#[test]
fn loader_v1_usb_buffer_size_is_unsupported() {
    let transport = MockTransport::new();
    let mut dev = JlDevice::new(transport, ProtocolKind::LoaderV1);

    let err = dev.usb_buffer_size().expect_err("must fail");
    assert!(matches!(err, Error::UnsupportedProtocol));
}

#[test]
fn uboot1_flash_read_is_unsupported() {
    let transport = MockTransport::new();
    let mut dev = JlDevice::new(transport, ProtocolKind::Uboot1);

    let err = dev.flash_read(0, 4).expect_err("must fail");
    assert!(matches!(err, Error::UnsupportedProtocol));
}

#[test]
fn command_mismatch_surfaces_as_msc_error() {
    let mut transport = MockTransport::new();
    transport.execs.push_back(ExpectedExec {
        cdb: build_cdb(0xFC0B, &[]).expect("cdb"),
        data_out: None,
        data_in_len: 16,
        response: Ok(vec![0xFC, 0x0A, 0x03]),
    });
    let mut dev = JlDevice::new(transport, ProtocolKind::LoaderV2);

    let err = dev.read_id().expect_err("must fail");
    match err {
        Error::Msc(MscError::CommandMismatch { expected, actual }) => {
            assert_eq!(expected, 0xFC0B);
            assert_eq!(actual, 0xFC0A);
        }
        other => panic!("unexpected error: {other:?}"),
    }
}

#[test]
fn transport_error_is_preserved() {
    let mut transport = MockTransport::new();
    transport.execs.push_back(ExpectedExec {
        cdb: build_cdb(0xFC16, &[]).expect("cdb"),
        data_out: None,
        data_in_len: 16,
        response: Err(TransportError::SgIo("timeout".to_string())),
    });
    let mut dev = JlDevice::new(transport, ProtocolKind::LoaderV2);

    let err = dev.maskrom_id().expect_err("must fail");
    match err {
        Error::Transport(TransportError::SgIo(text)) => assert_eq!(text, "timeout"),
        other => panic!("unexpected error: {other:?}"),
    }
}

#[test]
fn uboot1_refuses_queries_without_sending() {
    let mut dev = JlDevice::new(MockTransport::new(), ProtocolKind::Uboot1);
    assert!(matches!(dev.online_device(), Err(Error::UnsupportedProtocol)));
    assert!(matches!(dev.read_id(), Err(Error::UnsupportedProtocol)));
    assert!(matches!(dev.flash_erase_chip(), Err(Error::UnsupportedProtocol)));
    assert!(matches!(dev.flash_write(0, &[1]), Err(Error::UnsupportedProtocol)));
    assert!(matches!(dev.flash_select(LoaderV1FlashSelect::Code), Err(Error::UnsupportedProtocol)));
    assert!(dev.transport().execs.is_empty());
}

#[test]
fn loader_v1_refuses_memory_read_and_v2_queries() {
    let mut dev = JlDevice::new(MockTransport::new(), ProtocolKind::LoaderV1);
    assert!(matches!(dev.mem_read(0, 4), Err(Error::UnsupportedProtocol)));
    assert!(matches!(dev.maskrom_id(), Err(Error::UnsupportedProtocol)));
    assert!(matches!(dev.loader_version(), Err(Error::UnsupportedProtocol)));
    assert!(matches!(dev.mem_write_rxgp(0, &[1]), Err(Error::UnsupportedProtocol)));
}

#[test]
fn lengths_beyond_sixteen_bits_are_refused() {
    let mut dev = JlDevice::new(MockTransport::new(), ProtocolKind::LoaderV2);
    match dev.flash_read(0, 0x1_0000) {
        Err(Error::LengthTooLarge(n)) => assert_eq!(n, 0x1_0000),
        other => panic!("unexpected: {other:?}"),
    }
    match dev.mem_jump(0, 0x1_0000) {
        Err(Error::LengthTooLarge(n)) => assert_eq!(n, 0x1_0000),
        other => panic!("unexpected: {other:?}"),
    }
    match dev.flash_crc16(0, 0x2_0000) {
        Err(Error::LengthTooLarge(n)) => assert_eq!(n, 0x2_0000),
        other => panic!("unexpected: {other:?}"),
    }
}

#[test]
fn loader_v1_online_device_maps_spi_flash() {
    let transport = MockTransport::new().expect_query(0xFC0B, &[], &[0x01, 0xAA]);
    let mut dev = JlDevice::new(transport, ProtocolKind::LoaderV1);
    let info = dev.online_device().expect("online");
    assert_eq!(info.kind, OnlineDeviceType::SpiFlash);
    assert_eq!(info.id, None);
}

#[test]
fn unexpected_online_device_type_is_reported() {
    let transport = MockTransport::new().expect_query(0xFC0A, &[], &[0x42]);
    let mut dev = JlDevice::new(transport, ProtocolKind::LoaderV2);
    match dev.online_device() {
        Err(Error::UnexpectedOnlineDevice(b)) => assert_eq!(b, 0x42),
        other => panic!("unexpected: {other:?}"),
    }
}

#[test]
fn online_device_without_identifier_when_payload_is_short() {
    let transport = MockTransport::new().expect_query(0xFC0A, &[], &[0x16, 0x00, 0x01]);
    let mut dev = JlDevice::new(transport, ProtocolKind::LoaderV2);
    let info = dev.online_device().expect("online");
    assert_eq!(info.kind, OnlineDeviceType::Spi1Nor);
    assert_eq!(info.id, None);
}

#[test]
fn empty_online_payload_is_too_short() {
    let transport = MockTransport::new().expect_query(0xFC0A, &[], &[]);
    let mut dev = JlDevice::new(transport, ProtocolKind::LoaderV2);
    assert!(matches!(dev.online_device(), Err(Error::ResponseTooShort)));
}

#[test]
fn short_loader_version_response_has_no_version() {
    let transport = MockTransport::new().expect_datain(0xFC15, &[], 16, &[0, 0, b'1', b'2', b'3']);
    let mut dev = JlDevice::new(transport, ProtocolKind::LoaderV2);
    assert_eq!(dev.loader_version().expect("version"), None);
}

#[test]
fn loader_version_strips_nul_padding() {
    let transport = MockTransport::new().expect_datain(0xFC15, &[], 16, &[0, 0, 0, b'A', b'B', 0]);
    let mut dev = JlDevice::new(transport, ProtocolKind::LoaderV2);
    assert_eq!(dev.loader_version().expect("version").as_deref(), Some("BA"));
}

#[test]
fn invalid_loader_version_bytes_are_rejected() {
    let transport = MockTransport::new().expect_datain(0xFC15, &[], 16, &[0, 0, 0xff, 0xfe, 0x41, 0x42]);
    let mut dev = JlDevice::new(transport, ProtocolKind::LoaderV2);
    assert!(matches!(dev.loader_version(), Err(Error::InvalidLoaderVersion)));
}

#[test]
fn loader_v1_memory_write_has_no_checksum() {
    let data = [1u8, 2, 3];
    let transport = MockTransport::new().expect_dataout(0xFB04, &[0x00, 0x00, 0x40, 0x00, 0x00, 0x03], &data);
    let mut dev = JlDevice::new(transport, ProtocolKind::LoaderV1);
    dev.mem_write(0x4000, &data).expect("mem write");
}

#[test]
fn loader_v2_flash_write_and_erase_use_v2_commands() {
    let data = [9u8, 8];
    let crc = jl_crc16(&data).to_le_bytes();
    let transport = MockTransport::new()
        .expect_dataout(0xFB04, &[0, 0, 0x10, 0, 0, 2, 0, crc[0], crc[1]], &data)
        .expect_query(0xFB01, &[0, 0, 0x10, 0], &[])
        .expect_query(0xFB00, &[0, 1, 0, 0], &[])
        .expect_query(0xFB02, &[], &[]);
    let mut dev = JlDevice::new(transport, ProtocolKind::LoaderV2);
    dev.flash_write(0x1000, &data).expect("write");
    dev.flash_erase_sector(0x1000).expect("sector");
    dev.flash_erase_block(0x10000).expect("block");
    dev.flash_erase_chip().expect("chip");
    assert!(dev.transport().execs.is_empty());
}

#[test]
fn loader_v1_sector_erase_uses_v1_command() {
    let transport = MockTransport::new().expect_query(0xFB03, &[0, 0, 0x20, 0], &[]);
    let mut dev = JlDevice::new(transport, ProtocolKind::LoaderV1);
    dev.flash_erase_sector(0x2000).expect("sector");
}

#[test]
fn uboot1_memory_read_and_jump() {
    let transport = MockTransport::new()
        .expect_datain(0xFD07, &[0x1F, 0, 0, 0, 0, 2], 2, &[0xAB, 0xCD])
        .expect_query(0xFB08, &[0x1F, 0, 0, 0, 0, 0], &[]);
    let mut dev = JlDevice::new(transport, ProtocolKind::Uboot1);
    assert_eq!(dev.mem_read(0x1F00_0000, 2).expect("read"), vec![0xAB, 0xCD]);
    dev.mem_jump(0x1F00_0000, 0).expect("jump");
}

#[test]
fn inquiry_passes_through_transport() {
    let mut dev = JlDevice::new(MockTransport::new(), ProtocolKind::LoaderV2);
    let inq = dev.inquiry().expect("inquiry");
    assert_eq!(inq.product, "UBOOT");
    assert_eq!(dev.transport().path(), "/dev/mocksg0");
    assert_eq!(dev.protocol(), ProtocolKind::LoaderV2);
}

#[test]
fn crc16_known_value() {
    assert_eq!(jl_crc16(b"123456789"), 0x31C3);
    assert_eq!(jl_crc16(b""), 0);
    assert_eq!(jl_crc16_seed(b"", 0xBEEF), 0xBEEF);
}

#[test]
fn crc16_can_be_computed_in_pieces() {
    let whole = jl_crc16(b"JieLi test payload");
    let first = jl_crc16_seed(b"JieLi ", 0);
    assert_eq!(jl_crc16_seed(b"test payload", first), whole);
}

#[test]
fn cipher_changes_data_and_depends_on_key() {
    let data = [0u8; 4];
    let a = jl_crc_cipher_bytes(&data, 0xffff_ffff);
    let b = jl_crc_cipher_bytes(&data, 0x0000_0001);
    assert_ne!(a, b);
    assert_eq!(jl_crc_cipher_bytes(&[], 7), Vec::<u8>::new());
}

#[test]
fn error_messages_match_protocol_errors() {
    assert_eq!(Error::UnsupportedProtocol.message(), "unsupported protocol path");
    assert_eq!(
        Error::ResponsePayloadTooShort { expected: 6, actual: 5 }.message(),
        "response payload too short: expected at least 6, got 5"
    );
    assert_eq!(Error::UnexpectedOnlineDevice(0x7).message(), "unexpected online device type: 0x07");
    assert_eq!(Error::LengthTooLarge(70000).message(), "length too large for protocol field: 70000");
    assert_eq!(Error::InvalidLoaderVersion.message(), "invalid loader version string");
    assert_eq!(Error::ResponseTooShort.message(), "response too short");
    assert_eq!(
        Error::Transport(TransportError::SgIo("boom".into())).message(),
        "linux SG_IO transport error: boom"
    );
    assert_eq!(Error::Msc(MscError::ResponseTooShort).message(), "response too short");
}
