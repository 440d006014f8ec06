use jl_uboot::cli::{
    choose_read_output, exit_code_for, find_text_line, hexdump_line, hexdump_lines,
    matches_jieli_candidate, progress_line, require_yes, resolve_auto_detect_matches,
    runner_exit_code_for, select_auto_detect_candidate, selector_for_candidate,
    vendor_filter_accepts, ChunkedRead, ChunkedWrite, CliError, ExitCode, Failure, ReadOutput,
};
use jl_uboot::scsi::{InquiryData, ScsiCandidate, TransportError};
use jl_uboot::uboot::Error;

fn candidate(selector: Option<&str>, path: &str, note: Option<&str>) -> ScsiCandidate {
    ScsiCandidate {
        selector: selector.map(|s| s.into()),
        path: path.into(),
        vid: None,
        pid: None,
        note: note.map(|s| s.into()),
    }
}

#[test]
fn lib_selector_for_candidate_prefers_selector_then_note_then_path() {
    let candidate = ScsiCandidate {
        selector: Some("E:".into()),
        path: "/dev/sg3".into(),
        vid: None,
        pid: None,
        note: Some("USBSTOR".into()),
    };
    assert_eq!(selector_for_candidate(&candidate), "E:");

    let candidate = ScsiCandidate {
        selector: None,
        path: "/dev/sg3".into(),
        vid: None,
        pid: None,
        note: Some("USBSTOR".into()),
    };
    assert_eq!(selector_for_candidate(&candidate), "USBSTOR");

    let candidate = ScsiCandidate {
        selector: None,
        path: "/dev/sg3".into(),
        vid: None,
        pid: None,
        note: None,
    };
    assert_eq!(selector_for_candidate(&candidate), "/dev/sg3");
}

#[test]
fn lib_auto_detect_match_resolution_handles_zero_single_and_multiple() {
    let no_match = resolve_auto_detect_matches(Vec::new()).unwrap_err();
    assert!(no_match.message().contains("no matching JieLi"));

    let single = resolve_auto_detect_matches(vec![ScsiCandidate {
        selector: Some("E:".into()),
        path: "/dev/sg3".into(),
        vid: Some(0x4A4C),
        pid: Some(0x00F1),
        note: None,
    }])
    .unwrap();
    assert_eq!(single.selector, "E:");
    assert_eq!(single.transport_path, "/dev/sg3");

    let multiple = resolve_auto_detect_matches(vec![
        ScsiCandidate {
            selector: Some("E:".into()),
            path: "/dev/sg3".into(),
            vid: None,
            pid: None,
            note: None,
        },
        ScsiCandidate {
            selector: Some("F:".into()),
            path: "/dev/sg4".into(),
            vid: None,
            pid: None,
            note: None,
        },
    ])
    .unwrap_err();
    assert!(multiple
        .message()
        .contains("multiple matching JieLi targets found (2)"));
}

#[test]
fn lib_auto_detect_filter_only_keeps_matching_candidates() {
    let resolved = select_auto_detect_candidate(
        vec![
            ScsiCandidate {
                selector: Some("not-jieli".into()),
                path: "/dev/sg2".into(),
                vid: None,
                pid: None,
                note: None,
            },
            ScsiCandidate {
                selector: Some("JIELI-DL".into()),
                path: "/dev/sg3".into(),
                vid: None,
                pid: None,
                note: None,
            },
        ],
        |candidate: &ScsiCandidate| candidate.selector.as_deref() == Some("JIELI-DL"),
    )
    .unwrap();

    assert_eq!(resolved.selector, "JIELI-DL");
    assert_eq!(resolved.transport_path, "/dev/sg3");
}

#[test]
fn auto_detect_errors_are_device_not_found() {
    match resolve_auto_detect_matches(Vec::new()) {
        Err(TransportError::DeviceNotFound(m)) => {
            assert_eq!(m, "no matching JieLi download-mode target found")
        }
        other => panic!("unexpected: {other:?}"),
    }
    let three = vec![
        candidate(None, "/dev/sg1", None),
        candidate(None, "/dev/sg2", None),
        candidate(None, "/dev/sg3", None),
    ];
    match resolve_auto_detect_matches(three) {
        Err(TransportError::DeviceNotFound(m)) => {
            assert_eq!(m, "multiple matching JieLi targets found (3); pass --device")
        }
        other => panic!("unexpected: {other:?}"),
    }
    let none_kept = select_auto_detect_candidate(
        vec![candidate(None, "/dev/sg1", None)],
        |_c: &ScsiCandidate| false,
    );
    assert!(matches!(none_kept, Err(TransportError::DeviceNotFound(_))));
}

fn inquiry(vendor: &str, product: &str) -> InquiryData {
    InquiryData {
        vendor: vendor.into(),
        product: product.into(),
        revision: "1.0".into(),
        raw: vec![],
    }
}

#[test]
fn jieli_targets_are_recognized_by_product_prefix() {
    assert!(matches_jieli_candidate(&inquiry("JIELI", "UBOOT1.00")));
    assert!(matches_jieli_candidate(&inquiry("X", "UDISK")));
    assert!(matches_jieli_candidate(&inquiry("X", "DEVICE V2")));
    assert!(!matches_jieli_candidate(&inquiry("JIELI", "uboot")));
    assert!(!matches_jieli_candidate(&inquiry("JIELI", "")));
}

#[test]
fn vendor_filter_ignores_ascii_case() {
    let inq = inquiry("JieLi", "UBOOT");
    assert!(vendor_filter_accepts(&inq, None));
    assert!(vendor_filter_accepts(&inq, Some("JIELI")));
    assert!(!vendor_filter_accepts(&inq, Some("JIELIX")));
}

#[test]
fn confirmation_is_required_for_destructive_ops() {
    assert!(require_yes(true, "flash-erase-chip").is_ok());
    let err = require_yes(false, "flash-erase-chip").unwrap_err();
    assert_eq!(err.message(), "flash-erase-chip is destructive; pass --yes to continue");
}

#[test]
fn exit_codes_follow_policy() {
    assert_eq!(ExitCode::Success.status(), 0);
    let cli = Failure::Cli(CliError::ConfirmationRequired("jump".into()));
    assert_eq!(exit_code_for(&cli).status(), 14);
    let io = Failure::LocalIo(std::io::Error::new(std::io::ErrorKind::NotFound, "gone"));
    assert_eq!(exit_code_for(&io).status(), 10);
    let missing = Failure::Transport(TransportError::DeviceNotFound("/dev/x".into()));
    assert_eq!(exit_code_for(&missing).status(), 11);
    let sg = Failure::Transport(TransportError::SgIo("boom".into()));
    assert_eq!(exit_code_for(&sg).status(), 12);
    let proto = Failure::Device(Error::UnsupportedProtocol);
    assert_eq!(exit_code_for(&proto).status(), 13);
    let nested = Failure::Device(Error::Transport(TransportError::DeviceNotFound("d".into())));
    assert_eq!(exit_code_for(&nested).status(), 11);
    let nested_io = Failure::Device(Error::Transport(TransportError::Io(std::io::Error::new(
        std::io::ErrorKind::Other,
        "x",
    ))));
    assert_eq!(exit_code_for(&nested_io).status(), 10);
    let other = Failure::Other("?".into());
    assert_eq!(exit_code_for(&other).status(), 1);
}

#[test]
fn runner_exit_codes_count_unclassified_as_protocol() {
    let other = Failure::Other("?".into());
    assert_eq!(runner_exit_code_for(&other).status(), 13);
    let sg = Failure::Transport(TransportError::SgIo("boom".into()));
    assert_eq!(runner_exit_code_for(&sg).status(), 12);
    let missing = Failure::Transport(TransportError::DeviceNotFound("x".into()));
    assert_eq!(runner_exit_code_for(&missing).status(), 11);
}

#[test]
fn failure_messages() {
    let sg = Failure::Transport(TransportError::SgIo("boom".into()));
    assert_eq!(sg.message(), "linux SG_IO transport error: boom");
    let proto = Failure::Device(Error::UnsupportedProtocol);
    assert_eq!(proto.message(), "unsupported protocol path");
    let missing = Failure::Transport(TransportError::DeviceNotFound("/definitely/not/present".into()));
    assert_eq!(missing.message(), "device path not found: /definitely/not/present");
    let io = Failure::LocalIo(std::io::Error::new(std::io::ErrorKind::NotFound, "gone"));
    assert_eq!(io.message(), "gone");
}

#[test]
fn progress_lines() {
    assert_eq!(progress_line("mem-read", 4, 4), "progress mem-read: 4/4 bytes");
    assert_eq!(progress_line("flash-write", 4096, 10000), "progress flash-write: 4096/10000 bytes");
}

#[test]
fn chunked_read_requests_tile_the_range() {
    let mut r = ChunkedRead::new(0xFFFF_FFF0, 40, 16);
    let mut requests = Vec::new();
    while let Some((addr, len)) = r.next_request() {
        requests.push((addr, len));
        let piece = vec![len as u8; len];
        r.accept(&piece);
        assert_eq!(r.done(), requests.iter().map(|q| q.1).sum::<usize>());
    }
    assert_eq!(requests, vec![(0xFFFF_FFF0, 16), (0x0000_0000, 16), (0x0000_0010, 8)]);
    assert_eq!(r.total(), 40);
    let data = r.into_data();
    assert_eq!(data.len(), 40);
    assert_eq!(data[39], 8);
}

#[test]
fn chunked_read_zero_chunk_counts_as_one_and_empty_read_is_done() {
    let r = ChunkedRead::new(5, 2, 0);
    assert_eq!(r.next_request(), Some((5, 1)));
    let empty = ChunkedRead::new(5, 0, 4);
    assert_eq!(empty.next_request(), None);
}

#[test]
fn chunked_write_pieces_cover_the_data() {
    let mut w = ChunkedWrite::new(0x1000, 10, 4);
    let mut pieces = Vec::new();
    while let Some(p) = w.next_chunk() {
        pieces.push(p);
        let done = w.advance();
        assert_eq!(done, p.2);
    }
    assert_eq!(pieces, vec![(0x1000, 0, 4), (0x1004, 4, 8), (0x1008, 8, 10)]);
    assert_eq!(ChunkedWrite::new(0, 0, 4).next_chunk(), None);
}

#[test]
fn hexdump_lines_match_fixed_layout() {
    let line = hexdump_line(&[0x41, 0x42, 0x7f, 0x00], 0x1000);
    assert_eq!(line, format!("00001000  41 42 7f 00 {} AB..", " ".repeat(36)));
    let data: Vec<u8> = (0x20..0x31).collect();
    let lines = hexdump_lines(&data, 0xFFFF_FFF8);
    assert_eq!(lines.len(), 2);
    assert!(lines[0].starts_with("fffffff8  20 21 22"));
    assert!(lines[1].starts_with("00000008  30 "));
    assert!(lines[1].ends_with(" 0"));
    assert!(hexdump_lines(&[], 0).is_empty());
}

#[test]
fn read_output_prefers_file_then_stdout_then_hexdump() {
    assert_eq!(choose_read_output(Some("out.bin"), true, true), ReadOutput::File("out.bin".into()));
    assert_eq!(choose_read_output(None, true, true), ReadOutput::Stdout);
    assert_eq!(choose_read_output(None, false, true), ReadOutput::Hexdump);
    assert_eq!(choose_read_output(None, false, false), ReadOutput::Hexdump);
}

#[test]
fn find_line_lists_metadata_when_known() {
    let c = ScsiCandidate {
        selector: Some("/dev/sg3".into()),
        path: "/dev/sg3".into(),
        vid: Some(0x4A4C),
        pid: Some(0x00F1),
        note: Some("USBSTOR\\DISK&VEN_JL".into()),
    };
    let inq = inquiry("JIELI", "UBOOT");
    let line = find_text_line(&c, &inq, &["online=Spi0Nor".to_string(), "flash=0x123456".to_string()]);
    assert_eq!(
        line,
        "/dev/sg3  JIELI UBOOT (1.0)  [online=Spi0Nor, flash=0x123456]  selector=/dev/sg3  vid=0x4a4c  pid=0x00f1  note=USBSTOR\\DISK&VEN_JL"
    );
    let bare = find_text_line(&candidate(None, "/dev/sg2", None), &inq, &[]);
    assert_eq!(bare, "/dev/sg2  JIELI UBOOT (1.0)");
}
