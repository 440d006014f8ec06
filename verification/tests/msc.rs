use jl_uboot::msc::{build_cdb, parse_response_command, validate_response_command, MscError};

#[test]
fn build_cdb_pads_with_ff() {
    let cdb = build_cdb(0xfc0b, &[0x11, 0x22, 0x33]).expect("cdb");
    assert_eq!(cdb[0], 0xfc);
    assert_eq!(cdb[1], 0x0b);
    assert_eq!(&cdb[2..5], &[0x11, 0x22, 0x33]);
    assert!(cdb[5..].iter().all(|&b| b == 0xff));
}

#[test]
fn build_cdb_rejects_too_large_args() {
    let args = [0u8; 15];
    let err = build_cdb(0xfc0b, &args).expect_err("must fail");
    match err {
        MscError::CdbTooLarge(len) => assert_eq!(len, 17),
        other => panic!("unexpected error: {other:?}"),
    }
}

#[test]
fn parse_response_command_works() {
    let cmd = parse_response_command(&[0xfc, 0x16, 0x00, 0x01]).expect("cmd");
    assert_eq!(cmd, 0xfc16);
}

#[test]
fn validate_response_command_detects_mismatch() {
    let err = validate_response_command(0xfc0e, &[0xfc, 0x13]).expect_err("must fail");
    match err {
        MscError::CommandMismatch { expected, actual } => {
            assert_eq!(expected, 0xfc0e);
            assert_eq!(actual, 0xfc13);
        }
        other => panic!("unexpected error: {other:?}"),
    }
}

#[test]
fn build_cdb_accepts_fourteen_args_exactly() {
    let args: Vec<u8> = (1..=14).collect();
    let cdb = build_cdb(0x1234, &args).expect("cdb");
    assert_eq!(cdb[0], 0x12);
    assert_eq!(cdb[1], 0x34);
    assert_eq!(&cdb[2..], args.as_slice());
}

#[test]
fn build_cdb_without_args_is_command_and_padding() {
    let cdb = build_cdb(0xfd05, &[]).expect("cdb");
    assert_eq!(cdb, [0xfd, 0x05, 0xff, 0xff, 0xff, 0xff, 0xff, 0xff, 0xff, 0xff, 0xff, 0xff, 0xff, 0xff, 0xff, 0xff]);
}

#[test]
fn built_cdb_echo_reads_back_its_command() {
    let cdb = build_cdb(0xfc0a, &[1, 2]).expect("cdb");
    assert_eq!(parse_response_command(&cdb), Ok(0xfc0a));
    assert_eq!(validate_response_command(0xfc0a, &cdb), Ok(()));
}

#[test]
fn short_response_is_rejected() {
    assert_eq!(parse_response_command(&[0xfc]), Err(MscError::ResponseTooShort));
    assert_eq!(parse_response_command(&[]), Err(MscError::ResponseTooShort));
    assert_eq!(validate_response_command(0xfc0a, &[0xfc]), Err(MscError::ResponseTooShort));
}

#[test]
fn msc_error_messages() {
    assert_eq!(MscError::CdbTooLarge(17).message(), "cdb length too large: 17");
    assert_eq!(MscError::ResponseTooShort.message(), "response too short");
    assert_eq!(
        MscError::CommandMismatch { expected: 0xfc0e, actual: 0x13 }.message(),
        "command mismatch: expected 0xfc0e, got 0x0013"
    );
}
