use jl_uboot::linux::{
    path_join, pick_scsi_generic, sg_node_paths, sg_resolve_step, sg_transfer_outcome,
    sg_transfer_plan, str_lex_le, SgFact, SgResolve,
};
use jl_uboot::scsi::{ScsiDirection, TransportError};

fn names(list: &[&str]) -> Vec<String> {
    list.iter().map(|s| s.to_string()).collect()
}

fn done(state: SgResolve) -> Result<String, TransportError> {
    match state {
        SgResolve::Done(r) => r,
        _ => panic!("resolution not finished"),
    }
}

#[test]
fn sg_selector_resolves_to_itself() {
    let s = sg_resolve_step("/tmp/dev/sg3", "/tmp/dev", SgResolve::CheckSelector, SgFact::Exists(true));
    assert!(matches!(s, SgResolve::Canonicalize));
    let s = sg_resolve_step(
        "/tmp/dev/sg3",
        "/tmp/dev",
        s,
        SgFact::Canonical { path: "/tmp/dev/sg3".into(), name: Some("sg3".into()) },
    );
    assert_eq!(done(s).unwrap(), "/tmp/dev/sg3");
}

#[test]
fn block_selector_resolves_through_scsi_generic_directory() {
    let sel = "/tmp/dev/disk/by-id/usb-jieli-target";
    let s = sg_resolve_step(sel, "/tmp/dev", SgResolve::CheckSelector, SgFact::Exists(true));
    let s = sg_resolve_step(
        sel,
        "/tmp/dev",
        s,
        SgFact::Canonical { path: "/tmp/dev/sdc".into(), name: Some("sdc".into()) },
    );
    match &s {
        SgResolve::CheckBlockClass { canonical, name } => {
            assert_eq!(canonical, "/tmp/dev/sdc");
            assert_eq!(name, "sdc");
        }
        _ => panic!("expected block class check"),
    }
    let s = sg_resolve_step(sel, "/tmp/dev", s, SgFact::Exists(true));
    assert!(matches!(s, SgResolve::CheckGenericDir { .. }));
    let s = sg_resolve_step(sel, "/tmp/dev", s, SgFact::Exists(true));
    assert!(matches!(s, SgResolve::ListGenericDir { .. }));
    let s = sg_resolve_step(sel, "/tmp/dev", s, SgFact::Entries(names(&["sg4"])));
    assert_eq!(done(s).unwrap(), "/tmp/dev/sg4");
}

#[test]
fn missing_selector_is_device_not_found() {
    let s = sg_resolve_step("/definitely/not/present", "/dev", SgResolve::CheckSelector, SgFact::Exists(false));
    match done(s) {
        Err(TransportError::DeviceNotFound(p)) => assert_eq!(p, "/definitely/not/present"),
        other => panic!("unexpected: {other:?}"),
    }
}

#[test]
fn selector_without_name_is_device_not_found() {
    let s = sg_resolve_step("/", "/dev", SgResolve::Canonicalize, SgFact::Canonical { path: "/".into(), name: None });
    match done(s) {
        Err(TransportError::DeviceNotFound(p)) => assert_eq!(p, "/"),
        other => panic!("unexpected: {other:?}"),
    }
}

#[test]
fn unlisted_block_device_is_used_as_is() {
    let s = SgResolve::CheckBlockClass { canonical: "/dev/ttyUSB0".into(), name: "ttyUSB0".into() };
    let s = sg_resolve_step("/dev/ttyUSB0", "/dev", s, SgFact::Exists(false));
    assert_eq!(done(s).unwrap(), "/dev/ttyUSB0");
}

#[test]
fn block_device_without_scsi_generic_is_an_error() {
    let s = SgResolve::CheckGenericDir { canonical: "/dev/sda".into(), name: "sda".into() };
    let s = sg_resolve_step("/dev/sda", "/dev", s, SgFact::Exists(false));
    match done(s) {
        Err(TransportError::SgIo(m)) => assert_eq!(m, "no scsi_generic mapping found for /dev/sda"),
        other => panic!("unexpected: {other:?}"),
    }
}

#[test]
fn scsi_generic_entries_must_name_exactly_one_node() {
    assert_eq!(pick_scsi_generic("/dev/sdb", "/dev", &names(&["sg3"])).unwrap(), "/dev/sg3");
    assert_eq!(
        pick_scsi_generic("/dev/sdb", "/dev/", &names(&["sg3", "other", "sg3"])).unwrap(),
        "/dev/sg3"
    );
    match pick_scsi_generic("/dev/sdb", "/dev", &names(&["foo", "bar"])) {
        Err(TransportError::SgIo(m)) => assert_eq!(m, "no scsi_generic device found for /dev/sdb"),
        other => panic!("unexpected: {other:?}"),
    }
    match pick_scsi_generic("/dev/sdb", "/dev", &names(&["sg1", "sg2", "sg1"])) {
        Err(TransportError::SgIo(m)) => {
            assert_eq!(m, "multiple scsi_generic devices found for /dev/sdb (2)")
        }
        other => panic!("unexpected: {other:?}"),
    }
}

#[test]
fn path_join_follows_unix_rules() {
    assert_eq!(path_join("/dev", "sg3"), "/dev/sg3");
    assert_eq!(path_join("/dev/", "sg3"), "/dev/sg3");
    assert_eq!(path_join("", "sg3"), "sg3");
    assert_eq!(path_join("/dev", "/abs"), "/abs");
    for (dir, name) in [("/dev", "sg3"), ("/dev/", "sg3"), ("", "sg3"), ("/dev", "/abs"), ("a/b", "c")] {
        assert_eq!(
            path_join(dir, name),
            std::path::Path::new(dir).join(name).display().to_string()
        );
    }
}

#[test]
fn sg_plan_checks_cdb_and_direction() {
    match sg_transfer_plan(0, None, 0) {
        Err(TransportError::InvalidCdbLength(0)) => {}
        other => panic!("unexpected: {other:?}"),
    }
    match sg_transfer_plan(256, None, 0) {
        Err(TransportError::InvalidCdbLength(256)) => {}
        other => panic!("unexpected: {other:?}"),
    }
    match sg_transfer_plan(16, Some(1), 1) {
        Err(TransportError::SgIo(m)) => assert_eq!(m, "bidirectional SG_IO transfers are not supported"),
        other => panic!("unexpected: {other:?}"),
    }
    assert_eq!(sg_transfer_plan(255, Some(0), 0).unwrap(), (ScsiDirection::ToDevice, 0));
    assert_eq!(sg_transfer_plan(16, None, 512).unwrap(), (ScsiDirection::FromDevice, 512));
    assert_eq!(sg_transfer_plan(6, None, 0).unwrap(), (ScsiDirection::NoTransfer, 0));
}

#[test]
fn sg_outcome_truncates_by_residual_count() {
    let r = sg_transfer_outcome(0, 0, 0, &[0; 32], 0, 2, vec![1, 2, 3, 4]).unwrap();
    assert_eq!(r.data, vec![1, 2]);
    assert_eq!(r.resid, 2);
    let r = sg_transfer_outcome(0, 0, 0, &[0; 32], 0, -5, vec![1, 2]).unwrap();
    assert_eq!(r.data, vec![1, 2]);
    assert_eq!(r.resid, 0);
    let r = sg_transfer_outcome(2, 0, 0, &[0; 32], 0, 9, vec![1, 2]).unwrap();
    assert!(r.data.is_empty());
    assert_eq!(r.resid, 9);
}

#[test]
fn sg_outcome_reports_driver_failure_with_sense() {
    let sense = [0x70u8, 0x00, 0x05, 0x00, 0x11];
    match sg_transfer_outcome(1, 0x7, 0x28, &sense, 3, 0, vec![]) {
        Err(TransportError::SgIo(m)) => assert_eq!(
            m,
            "transfer failed: info=0x01, host_status=0x07, driver_status=0x28, sense=700005"
        ),
        other => panic!("unexpected: {other:?}"),
    }
    match sg_transfer_outcome(0x101, 0x1234, 0, &sense, 0, 0, vec![]) {
        Err(TransportError::SgIo(m)) => assert_eq!(
            m,
            "transfer failed: info=0x101, host_status=0x1234, driver_status=0x00, sense="
        ),
        other => panic!("unexpected: {other:?}"),
    }
    match sg_transfer_outcome(3, 0, 0, &sense, 200, 0, vec![]) {
        Err(TransportError::SgIo(m)) => assert!(m.ends_with("sense=7000050011")),
        other => panic!("unexpected: {other:?}"),
    }
}

#[test]
fn sg_nodes_are_listed_in_path_order() {
    let listed = sg_node_paths("/dev", &names(&["sg10", "sda", "sg2", "sg1", "tty0", "sg0"]));
    assert_eq!(listed, vec!["/dev/sg0", "/dev/sg1", "/dev/sg10", "/dev/sg2"]);
    let mut expected: Vec<std::path::PathBuf> = ["sg10", "sg2", "sg1", "sg0"]
        .iter()
        .map(|n| std::path::Path::new("/dev").join(n))
        .collect();
    expected.sort();
    let expected: Vec<String> = expected.iter().map(|p| p.display().to_string()).collect();
    assert_eq!(listed, expected);
    assert!(sg_node_paths("/dev", &names(&["sda", "loop0"])).is_empty());
}

#[test]
fn lexicographic_order_by_code_point() {
    assert!(str_lex_le("", "a"));
    assert!(str_lex_le("sg1", "sg10"));
    assert!(!str_lex_le("sg10", "sg1"));
    assert!(str_lex_le("sg10", "sg2"));
    assert!(str_lex_le("same", "same"));
    assert!(str_lex_le("Z", "a"));
    assert!(str_lex_le("é", "ê"));
}
