use jl_uboot::device_db::{chip_families, usb_loaders, ProtocolVersion};

#[test]
fn chip_family_table() {
    let families = chip_families();
    assert_eq!(families.len(), 3);
    assert_eq!(families[0].family, "br17");
    assert_eq!(families[0].names, &["AC690N"]);
    assert_eq!(families[1].names, &["AC695N", "AC635N"]);
    assert_eq!(families[2].family, "br28");
    assert_eq!(families[2].notes, Some("current SDK family"));
    assert_eq!(families[1].notes, None);
}

#[test]
fn usb_loader_table() {
    let loaders = usb_loaders();
    assert_eq!(loaders.len(), 1);
    let l = &loaders[0];
    assert_eq!(l.family, "br17");
    assert_eq!(l.file, "loaderblobs/usb/br17loader.bin");
    assert_eq!(l.address, 0x2000);
    assert_eq!(l.protocol, ProtocolVersion::LoaderV2);
    assert_eq!(l.argument, Some(0x0011));
    assert_eq!(l.block_size, None);
    assert_eq!(l.encryption, None);
}
