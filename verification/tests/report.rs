use jl_uboot::report::{probe_report, protocol_name};
use jl_uboot::scsi::{InquiryData, TransportError};
use jl_uboot::uboot::{Error, OnlineDeviceInfo, OnlineDeviceType, ProtocolKind};

fn inquiry() -> InquiryData {
    InquiryData {
        vendor: "JIELI".into(),
        product: "UBOOT".into(),
        revision: "1.00".into(),
        raw: vec![],
    }
}

#[test]
fn probe_report_shows_every_field() {
    let lines = probe_report(
        "/dev/sg3",
        &inquiry(),
        ProtocolKind::LoaderV2,
        &Ok(OnlineDeviceInfo { kind: OnlineDeviceType::Spi0Nor, id: Some(1) }),
        &Ok(0x123456),
        &Ok(4096),
        &Ok(Some("L2A1".into())),
        &Ok(0xdeadbeef),
    );
    assert_eq!(
        lines,
        vec![
            "device          : /dev/sg3",
            "vendor          : JIELI",
            "product         : UBOOT",
            "revision        : 1.00",
            "protocol        : LoaderV2",
            "online device   : Spi0Nor, id: Some(1)",
            "flash id        : 0x123456",
            "usb buffer size : 4096",
            "loader version  : L2A1",
            "maskrom id      : 0xdeadbeef",
        ]
    );
}

#[test]
fn probe_report_marks_unavailable_fields() {
    let lines = probe_report(
        "E:",
        &inquiry(),
        ProtocolKind::LoaderV1,
        &Ok(OnlineDeviceInfo { kind: OnlineDeviceType::NoDevice, id: None }),
        &Ok(0x12),
        &Err(Error::UnsupportedProtocol),
        &Ok(None),
        &Err(Error::Transport(TransportError::SgIo("timeout".into()))),
    );
    assert_eq!(lines[4], "protocol        : LoaderV1");
    assert_eq!(lines[5], "online device   : None, id: None");
    assert_eq!(lines[6], "flash id        : 0x000012");
    assert_eq!(lines[7], "usb buffer size : <unavailable> (unsupported protocol path)");
    assert_eq!(lines[8], "loader version  : <unknown>");
    assert_eq!(
        lines[9],
        "maskrom id      : <unavailable> (linux SG_IO transport error: timeout)"
    );
}

#[test]
fn protocol_names_are_debug_names() {
    assert_eq!(protocol_name(ProtocolKind::Uboot1), "Uboot1");
    assert_eq!(protocol_name(ProtocolKind::LoaderV1), "LoaderV1");
    assert_eq!(protocol_name(ProtocolKind::LoaderV2), "LoaderV2");
}
