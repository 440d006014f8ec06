//! Vendor SCSI command descriptor blocks (CDBs) and response command echo checks.

use vstd::prelude::*;

use crate::text::{decimal_chars, hex_padded, push_decimal, push_hex};

verus! {

/// Errors in CDB framing and response command checks.
#[derive(Debug, Clone, Copy, PartialEq, Eq)]
pub enum MscError {
    /// The CDB would be longer than 16 bytes; carries the length it would have had.
    CdbTooLarge(usize),
    /// The response is shorter than the two-byte command echo.
    ResponseTooShort,
    /// The response echoes another command than the one sent.
    CommandMismatch { expected: u16, actual: u16 },
}

/// The 16-byte CDB for `cmd` with `args`: the command big-endian, then the
/// arguments, then `0xff` padding.
pub open spec fn spec_cdb(cmd: u16, args: Seq<u8>) -> Seq<u8> {
    Seq::new(
        16,
        |i: int|
            if i == 0 {
                (cmd / 256) as u8
            } else if i == 1 {
                (cmd % 256) as u8
            } else if i - 2 < args.len() {
                args[i - 2]
            } else {
                0xffu8
            },
    )
}

/// What `build_cdb` returns for `cmd` and `args`.
pub open spec fn spec_build_cdb(cmd: u16, args: Seq<u8>) -> Result<Seq<u8>, MscError> {
    if args.len() > 14 {
        Err(MscError::CdbTooLarge((args.len() + 2) as usize))
    } else {
        Ok(spec_cdb(cmd, args))
    }
}

/// The big-endian 16-bit value of two bytes.
pub open spec fn be16(hi: u8, lo: u8) -> u16 {
    (hi as int * 256 + lo as int) as u16
}

/// The command echoed at the start of a response.
pub open spec fn spec_response_command(response: Seq<u8>) -> Result<u16, MscError> {
    if response.len() < 2 {
        Err(MscError::ResponseTooShort)
    } else {
        Ok(be16(response[0], response[1]))
    }
}

/// Whether `response` echoes `expected`, and which error it gives if not.
pub open spec fn spec_validate_response(expected: u16, response: Seq<u8>) -> Result<(), MscError> {
    match spec_response_command(response) {
        Err(e) => Err(e),
        Ok(actual) => if actual == expected {
            Ok(())
        } else {
            Err(MscError::CommandMismatch { expected, actual })
        },
    }
}

/// Builds the 16-byte vendor CDB for `cmd` with up to 14 argument bytes.
pub fn build_cdb(cmd: u16, args: &[u8]) -> (r: Result<[u8; 16], MscError>)
    requires
        args@.len() <= isize::MAX,
    ensures
        match r {
            Ok(cdb) => spec_build_cdb(cmd, args@) == Ok::<Seq<u8>, MscError>(cdb@),
            Err(e) => spec_build_cdb(cmd, args@) == Err::<Seq<u8>, MscError>(e),
        },
{
    if args.len() > 14 {
        return Err(MscError::CdbTooLarge(args.len() + 2));
    }
    let mut cdb = [0xffu8; 16];
    cdb[0] = (cmd / 256) as u8;
    cdb[1] = (cmd % 256) as u8;
    let mut i: usize = 0;
    while i < args.len()
        invariant
            args.len() <= 14,
            i <= args.len(),
            cdb@.len() == 16,
            cdb@[0] == (cmd / 256) as u8,
            cdb@[1] == (cmd % 256) as u8,
            forall|k: int| 2 <= k < 2 + i ==> cdb@[k] == args@[k - 2],
            forall|k: int| 2 + i <= k < 16 ==> cdb@[k] == 0xffu8,
        decreases args.len() - i,
    {
        cdb[i + 2] = args[i];
        i = i + 1;
    }
    assert(cdb@ =~= spec_cdb(cmd, args@));
    Ok(cdb)
}

/// Reads the big-endian command echo at the start of a response.
pub fn parse_response_command(response: &[u8]) -> (r: Result<u16, MscError>)
    ensures
        r == spec_response_command(response@),
{
    if response.len() < 2 {
        return Err(MscError::ResponseTooShort);
    }
    Ok(response[0] as u16 * 256 + response[1] as u16)
}

/// Checks that a response echoes the command that was sent.
pub fn validate_response_command(expected: u16, response: &[u8]) -> (r: Result<(), MscError>)
    ensures
        r == spec_validate_response(expected, response@),
{
    let actual = match parse_response_command(response) {
        Ok(a) => a,
        Err(e) => return Err(e),
    };
    if actual != expected {
        return Err(MscError::CommandMismatch { expected, actual });
    }
    Ok(())
}

/// The text of an `MscError`.
pub open spec fn spec_msc_message(e: MscError) -> Seq<char> {
    match e {
        MscError::CdbTooLarge(n) => "cdb length too large: "@ + decimal_chars(n as nat),
        MscError::ResponseTooShort => "response too short"@,
        MscError::CommandMismatch { expected, actual } => "command mismatch: expected 0x"@
            + hex_padded(expected as nat, 4) + ", got 0x"@ + hex_padded(actual as nat, 4),
    }
}

impl MscError {
    /// The text describing the error.
    pub fn message(&self) -> (r: String)
        ensures
            r@ == spec_msc_message(*self),
    {
        match self {
            MscError::CdbTooLarge(n) => {
                let mut s = "cdb length too large: ".to_owned();
                push_decimal(&mut s, *n as u64);
                s
            },
            MscError::ResponseTooShort => "response too short".to_owned(),
            MscError::CommandMismatch { expected, actual } => {
                let mut s = "command mismatch: expected 0x".to_owned();
                push_hex(&mut s, *expected as u64, 4);
                s.append(", got 0x");
                push_hex(&mut s, *actual as u64, 4);
                s
            },
        }
    }
}

/// A device that echoes the command block it was sent answers with the command the
/// block was built for: reading the echo of a built CDB gives back its command,
/// and the echo check for that command passes.
pub proof fn lemma_cdb_echo_roundtrip(cmd: u16, args: Seq<u8>)
    requires
        args.len() <= 14,
    ensures
        spec_build_cdb(cmd, args) == Ok::<Seq<u8>, MscError>(spec_cdb(cmd, args)),
        spec_response_command(spec_cdb(cmd, args)) == Ok::<u16, MscError>(cmd),
        spec_validate_response(cmd, spec_cdb(cmd, args)) == Ok::<(), MscError>(()),
{
    let cdb = spec_cdb(cmd, args);
    assert(cdb[0] == (cmd / 256) as u8);
    assert(cdb[1] == (cmd % 256) as u8);
    assert(((cmd / 256) as u8) as int * 256 + ((cmd % 256) as u8) as int == cmd as int);
}

} // verus!
