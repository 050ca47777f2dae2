//! Verified core of a firmware flasher for FNIRSI USB testers: the device
//! registry, the CRC-8 checksum of the bootloader's HID reports, the reports
//! themselves, and the flashing protocol as a state machine.

pub mod checksum;
pub mod packets;
pub mod flasher;
pub mod device_registry;
pub mod usb_class;
