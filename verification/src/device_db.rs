//! The known chip families and the USB loaders that bring them into download mode.

use vstd::prelude::*;

verus! {

/// The command protocol a loader speaks once it runs.
#[derive(Debug, Clone, Copy, PartialEq, Eq)]
pub enum ProtocolVersion {
    Uboot1,
    LoaderV1,
    LoaderV2,
}

/// A chip family and the marketing names of its members.
#[derive(Debug, Clone)]
pub struct ChipFamily {
    pub family: &'static str,
    pub names: &'static [&'static str],
    pub notes: Option<&'static str>,
}

/// A loader image: which family it is for, where its file lies, where it is
/// loaded and how it is started.
#[derive(Debug, Clone)]
pub struct LoaderInfo {
    pub family: &'static str,
    pub file: &'static str,
    pub address: u32,
    pub protocol: ProtocolVersion,
    pub argument: Option<u32>,
    pub block_size: Option<usize>,
    pub encryption: Option<&'static str>,
}

/// Whether a table entry describes `family` with exactly the member names `names`
/// and the notes `notes`.
pub open spec fn family_is(
    f: ChipFamily,
    family: Seq<char>,
    names: Seq<Seq<char>>,
    notes: Option<Seq<char>>,
) -> bool {
    &&& f.family@ == family
    &&& f.names@.len() == names.len()
    &&& forall|i: int| 0 <= i < names.len() ==> (#[trigger] f.names@[i])@ == names[i]
    &&& match (f.notes, notes) {
        (None, None) => true,
        (Some(a), Some(b)) => a@ == b,
        _ => false,
    }
}

/// The chip families: `br17` (AC690N), `br23` (AC695N, AC635N) and `br28`
/// (AC701N, the current SDK family).
pub fn chip_families() -> (r: Vec<ChipFamily>)
    ensures
        r@.len() == 3,
        family_is(r@[0], "br17"@, seq!["AC690N"@], None),
        family_is(r@[1], "br23"@, seq!["AC695N"@, "AC635N"@], None),
        family_is(r@[2], "br28"@, seq!["AC701N"@], Some("current SDK family"@)),
{
    let br17: &'static [&'static str] = &["AC690N"];
    let br23: &'static [&'static str] = &["AC695N", "AC635N"];
    let br28: &'static [&'static str] = &["AC701N"];
    let mut r: Vec<ChipFamily> = Vec::new();
    r.push(ChipFamily { family: "br17", names: br17, notes: None });
    r.push(ChipFamily { family: "br23", names: br23, notes: None });
    r.push(ChipFamily { family: "br28", names: br28, notes: Some("current SDK family") });
    r
}

/// The USB loaders: the `br17` loader, loaded at 0x2000 and started with argument
/// 0x0011, speaking LoaderV2, with no block size or encryption given.
pub fn usb_loaders() -> (r: Vec<LoaderInfo>)
    ensures
        r@.len() == 1,
        r@[0].family@ == "br17"@,
        r@[0].file@ == "loaderblobs/usb/br17loader.bin"@,
        r@[0].address == 0x2000,
        r@[0].protocol == ProtocolVersion::LoaderV2,
        r@[0].argument == Some(0x0011u32),
        r@[0].block_size is None,
        r@[0].encryption is None,
{
    let mut r: Vec<LoaderInfo> = Vec::new();
    r.push(
        LoaderInfo {
            family: "br17",
            file: "loaderblobs/usb/br17loader.bin",
            address: 0x2000,
            protocol: ProtocolVersion::LoaderV2,
            argument: Some(0x0011),
            block_size: None,
            encryption: None,
        },
    );
    r
}

} // verus!
