# jl_uboot

Host-side tooling for JieLi USB mass-storage download mode, with its protocol
logic verified by Verus.

Layout:

- `src/` — the verified library:
  - `msc` — vendor command blocks and the command echo check;
  - `scsi` — the transport trait (with the record of exchanges each operation
    appends to), INQUIRY decoding, candidates;
  - `uboot`, `device` — the LoaderV2 / LoaderV1 / UBOOT1 command sets: each
    device operation is specified by the exchange it sends and the result it
    decodes from the reply;
  - `crc` — the CRC-16 and the chip key stream cipher;
  - `linux`, `windows` — the decisions of the SG_IO and SCSI pass-through
    transports and of device discovery;
  - `cli`, `report` — device selection, exit codes, chunked transfers, and the
    text output of the tools;
  - `device_db` — the known chip families and loaders;
  - `text` — number rendering and character-level string helpers.
- `app/` — the `jluboot` and `jlrunner` executables: argument parsing, file and
  device I/O, ioctl and SetupAPI calls, JSON output.
- `tests/` — tests of the library, including a scripted transport for the
  device commands.
