//! Host-side protocol library for JieLi USB mass-storage download mode:
//! SCSI command framing, the LoaderV2 / LoaderV1 / UBOOT1 command sets,
//! their checksums and key cipher, and the decision logic of the command-line tools.

pub mod cli;
pub mod crc;
pub mod device;
pub mod device_db;
pub mod linux;
pub mod msc;
pub mod report;
pub mod scsi;
pub mod text;
pub mod uboot;
pub mod windows;
