# fnirsi_usbtester_flasher

Firmware flasher for FNIRSI USB testers (FNB-58), with its core verified by Verus.

- `src/` — the verified library:
  - `checksum.rs`: CRC-8 (polynomial 0x39) of HID reports;
  - `packets.rs`: the 64-byte reports (device info, erase, write, finalize, status poll) and the chunking of a firmware image;
  - `flasher.rs`: the bootloader protocol as a state machine (`FlashSession`) that hands out actions and consumes events;
  - `device_registry.rs`: supported models, lookup by USB IDs, choice of the device to flash;
  - `usb_class.rs`: names of USB interface classes.
- `app/` — the command-line program: USB enumeration (rusb), HID I/O (hidapi), prompts, progress bar.
- `tests/` — tests of the library.
