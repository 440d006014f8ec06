use jl_uboot::scsi::{ScsiDirection, TransportError};
use jl_uboot::windows::{
    attach_visible_selectors, extract_hex_field, guid_bytes, interface_path_text,
    widestr_to_string, looks_like_usb_msc_instance,
    looks_like_windows_volume_selector, match_volume_candidate, matches_allowlist,
    normalize_volume_selector, parse_vid_pid, raw_volume_path, select_usb_msc_candidates,
    sptd_transfer_outcome, sptd_transfer_plan, timeout_secs, usb_msc_candidates, DiskInterface,
    SetupApiUsbMscCandidate, DEFAULT_USB_VID,
};

#[test]
fn usb_storage_instance_is_recognized() {
    assert!(looks_like_usb_msc_instance(
        r"USBSTOR\DISK&VEN_JL&PROD_UBOOT&REV_1.00\123456"
    ));
    assert!(looks_like_usb_msc_instance(r"USB\VID_4A4C&PID_1234\ABCDEF"));
    assert!(!looks_like_usb_msc_instance(r"PCI\VEN_8086&DEV_1234\0"));
}

#[test]
fn vid_pid_are_parsed_case_insensitively() {
    assert_eq!(
        parse_vid_pid(r"USB\VID_4a4c&PID_00f1\ABCDEF"),
        (Some(0x4A4C), Some(0x00F1))
    );
    assert_eq!(
        parse_vid_pid(r"USBSTOR\DISK&VEN_JL&PROD_X\NO_VID_PID"),
        (None, None)
    );
}

#[test]
fn allowlist_requires_known_vid() {
    let allow = [0x4A4C, 0x1234];
    assert!(matches_allowlist(Some(0x4A4C), &allow));
    assert!(!matches_allowlist(Some(0x9999), &allow));
    assert!(!matches_allowlist(None, &allow));
}

#[test]
fn lowercase_usb_storage_prefix_is_recognized() {
    assert!(looks_like_usb_msc_instance(r"usbstor\disk&ven_jl"));
    assert!(looks_like_usb_msc_instance(r"usb\vid_4a4c"));
    assert!(!looks_like_usb_msc_instance(r"US"));
}

#[test]
fn hex_field_needs_four_hex_digits() {
    assert_eq!(extract_hex_field(r"USB\VID_4A4C&PID_1", "PID_"), None);
    assert_eq!(extract_hex_field(r"USB\VID_4A4G&PID_0001", "VID_"), None);
    assert_eq!(extract_hex_field(r"USB\VID_4A4C&PID_0001", "PID_"), Some(1));
    assert_eq!(extract_hex_field(r"usb\vid_beef", "VID_"), Some(0xBEEF));
}

#[test]
fn empty_allowlist_accepts_nothing() {
    assert!(!matches_allowlist(Some(DEFAULT_USB_VID), &[]));
}

#[test]
fn volume_selectors_are_normalized() {
    assert!(looks_like_windows_volume_selector("e:"));
    assert!(!looks_like_windows_volume_selector("e"));
    assert!(!looks_like_windows_volume_selector("1:"));
    assert_eq!(normalize_volume_selector("e:"), Some("E:".to_string()));
    assert_eq!(normalize_volume_selector("X:"), Some("X:".to_string()));
    assert_eq!(normalize_volume_selector("EF:"), None);
    assert_eq!(raw_volume_path("e:").unwrap(), r"\\.\E:");
    match raw_volume_path("nope") {
        Err(TransportError::DeviceNotFound(s)) => assert_eq!(s, "nope"),
        other => panic!("unexpected: {other:?}"),
    }
}

#[test]
fn timeout_rounds_up_to_whole_seconds() {
    assert_eq!(timeout_secs(0), 1);
    assert_eq!(timeout_secs(1), 1);
    assert_eq!(timeout_secs(1000), 1);
    assert_eq!(timeout_secs(1001), 2);
    assert_eq!(timeout_secs(5000), 5);
    assert_eq!(timeout_secs(u32::MAX), 4_294_968);
}

fn iface(path: Option<&str>, id: Option<&str>) -> DiskInterface {
    DiskInterface {
        device_path: path.map(|s| s.to_string()),
        instance_id: id.map(|s| s.to_string()),
    }
}

#[test]
fn enumeration_keeps_allowed_usb_storage_only() {
    let guid = [7u8; 16];
    let found = select_usb_msc_candidates(
        &[
            iface(Some("p1"), Some(r"USB\VID_4A4C&PID_00F1\A")),
            iface(Some("p2"), Some(r"PCI\VEN_8086")),
            iface(Some("p3"), Some(r"USB\VID_9999&PID_0001\B")),
            iface(None, Some(r"USB\VID_4A4C&PID_0002\C")),
            iface(Some("p5"), None),
            iface(Some("p6"), Some(r"USBSTOR\DISK&VEN_JL")),
        ],
        &[DEFAULT_USB_VID],
        guid,
    );
    assert_eq!(found.len(), 1);
    assert_eq!(found[0].device_path, "p1");
    assert_eq!(found[0].vid, Some(0x4A4C));
    assert_eq!(found[0].pid, Some(0x00F1));
    assert_eq!(found[0].note, r"USB\VID_4A4C&PID_00F1\A");
    assert_eq!(found[0].interface_guid, guid);
    assert_eq!(found[0].visible_selector, None);
}

fn cand(path: &str) -> SetupApiUsbMscCandidate {
    SetupApiUsbMscCandidate {
        device_path: path.to_string(),
        vid: Some(0x4A4C),
        pid: None,
        interface_guid: [0; 16],
        note: format!("note-{path}"),
        visible_selector: None,
    }
}

#[test]
fn visible_selectors_take_first_letter_on_same_disk() {
    let out = attach_visible_selectors(
        vec![cand("a"), cand("b"), cand("c")],
        &[Some(2), None, Some(9)],
        &[None, Some(2), None, None, Some(2)],
    );
    assert_eq!(out.len(), 3);
    assert_eq!(out[0].visible_selector.as_deref(), Some("B:"));
    assert_eq!(out[1].visible_selector, None);
    assert_eq!(out[2].visible_selector, None);
    assert_eq!(out[0].device_path, "a");
}

#[test]
fn volume_selector_matches_candidate_on_its_disk() {
    let m = match_volume_candidate("E:".to_string(), 4, vec![cand("a"), cand("b")], &[Some(3), Some(4)])
        .unwrap();
    assert_eq!(m.device_path, "b");
    assert_eq!(m.visible_selector.as_deref(), Some("E:"));
    match match_volume_candidate("F:".to_string(), 8, vec![cand("a")], &[None]) {
        Err(TransportError::DeviceNotFound(s)) => assert_eq!(s, "F:"),
        other => panic!("unexpected: {other:?}"),
    }
}

#[test]
fn usb_candidates_carry_selector_ids_and_note() {
    let mut c = cand("\\\\?\\usbstor#disk");
    c.visible_selector = Some("E:".to_string());
    let out = usb_msc_candidates(vec![c]);
    assert_eq!(out.len(), 1);
    assert_eq!(out[0].selector.as_deref(), Some("E:"));
    assert_eq!(out[0].path, "\\\\?\\usbstor#disk");
    assert_eq!(out[0].vid, Some(0x4A4C));
    assert_eq!(out[0].pid, None);
    assert_eq!(out[0].note.as_deref(), Some("note-\\\\?\\usbstor#disk"));
}

#[test]
fn pass_through_plan_checks_cdb_and_direction() {
    match sptd_transfer_plan(0, None, 0) {
        Err(TransportError::InvalidCdbLength(0)) => {}
        other => panic!("unexpected: {other:?}"),
    }
    match sptd_transfer_plan(17, None, 0) {
        Err(TransportError::InvalidCdbLength(17)) => {}
        other => panic!("unexpected: {other:?}"),
    }
    match sptd_transfer_plan(16, Some(4), 8) {
        Err(TransportError::WinScsi(m)) => {
            assert_eq!(m, "bidirectional SCSI pass-through is not supported")
        }
        other => panic!("unexpected: {other:?}"),
    }
    assert_eq!(sptd_transfer_plan(16, Some(4), 0).unwrap(), (ScsiDirection::ToDevice, 4));
    assert_eq!(sptd_transfer_plan(6, None, 36).unwrap(), (ScsiDirection::FromDevice, 36));
    assert_eq!(sptd_transfer_plan(6, None, 0).unwrap(), (ScsiDirection::NoTransfer, 0));
}

#[test]
fn pass_through_outcome_reports_status_and_sense() {
    let sense = [0x70u8, 0x00, 0x05, 0xff];
    match sptd_transfer_outcome(2, 3, &sense, vec![1, 2]) {
        Err(TransportError::WinScsi(m)) => assert_eq!(m, "sptd failed: scsi_status=0x02, sense=700005"),
        other => panic!("unexpected: {other:?}"),
    }
    match sptd_transfer_outcome(0x12, 40, &sense, vec![]) {
        Err(TransportError::WinScsi(m)) => assert_eq!(m, "sptd failed: scsi_status=0x12, sense=700005ff"),
        other => panic!("unexpected: {other:?}"),
    }
    let ok = sptd_transfer_outcome(0, 32, &sense, vec![9, 8, 7]).unwrap();
    assert_eq!(ok.data, vec![9, 8, 7]);
    assert_eq!(ok.resid, 0);
}

#[test]
fn hex_field_accepts_leading_plus_like_from_str_radix() {
    assert_eq!(extract_hex_field(r"USB\VID_+4A4", "VID_"), Some(0x4A4));
    assert_eq!(extract_hex_field(r"USB\VID_+", "VID_"), None);
}

#[test]
fn wide_strings_stop_at_nul_and_reject_bad_utf16() {
    let units: Vec<u16> = "USB\\VID_4A4C".encode_utf16().chain([0, 0x41]).collect();
    assert_eq!(widestr_to_string(&units).unwrap(), "USB\\VID_4A4C");
    let full: Vec<u16> = "abc".encode_utf16().collect();
    assert_eq!(widestr_to_string(&full).unwrap(), "abc");
    match widestr_to_string(&[0xD800, 0x41, 0]) {
        Err(TransportError::WinScsi(m)) => assert_eq!(m, "failed to decode UTF-16 device instance id"),
        other => panic!("unexpected: {other:?}"),
    }
    assert_eq!(interface_path_text(&"\\\\?\\usb".encode_utf16().collect::<Vec<u16>>()).unwrap(), "\\\\?\\usb");
    match interface_path_text(&[0xDC00]) {
        Err(TransportError::WinScsi(m)) => assert_eq!(m, "failed to decode UTF-16 device interface path"),
        other => panic!("unexpected: {other:?}"),
    }
}

#[test]
fn guid_bytes_follow_windows_layout() {
    let b = guid_bytes(0x53F56307, 0xB6BF, 0x11D0, [0x94, 0xF2, 0x00, 0xA0, 0xC9, 0x1E, 0xFB, 0x8B]);
    assert_eq!(
        b,
        [0x07, 0x63, 0xF5, 0x53, 0xBF, 0xB6, 0xD0, 0x11, 0x94, 0xF2, 0x00, 0xA0, 0xC9, 0x1E, 0xFB, 0x8B]
    );
}
