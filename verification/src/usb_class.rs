//! Names of USB interface class codes.

use vstd::prelude::*;

verus! {

/// The name of USB interface class `code`, or "Unknown".
pub open spec fn spec_interface_class_name(code: u8) -> Seq<char> {
    if code == 0x01 {
        "Audio"@
    } else if code == 0x02 {
        "CDC (Communications)"@
    } else if code == 0x03 {
        "HID (Human Interface)"@
    } else if code == 0x06 {
        "Still Imaging"@
    } else if code == 0x07 {
        "Printer"@
    } else if code == 0x08 {
        "Mass Storage"@
    } else if code == 0x09 {
        "Hub"@
    } else if code == 0x0A {
        "CDC-Data"@
    } else if code == 0x0B {
        "Smart Card"@
    } else if code == 0x0D {
        "Content Security"@
    } else if code == 0x0E {
        "Video"@
    } else if code == 0x0F {
        "Personal Healthcare"@
    } else if code == 0xDC {
        "Diagnostic Device"@
    } else if code == 0xE0 {
        "Wireless Controller"@
    } else if code == 0xEF {
        "Miscellaneous"@
    } else if code == 0xFE {
        "Application Specific"@
    } else if code == 0xFF {
        "Vendor Specific"@
    } else {
        "Unknown"@
    }
}

/// The name of USB interface class `code`, such as "HID (Human Interface)" for 0x03.
pub fn interface_class_name(code: u8) -> (name: &'static str)
    ensures
        name@ == spec_interface_class_name(code),
{
    match code {
        0x01 => "Audio",
        0x02 => "CDC (Communications)",
        0x03 => "HID (Human Interface)",
        0x06 => "Still Imaging",
        0x07 => "Printer",
        0x08 => "Mass Storage",
        0x09 => "Hub",
        0x0A => "CDC-Data",
        0x0B => "Smart Card",
        0x0D => "Content Security",
        0x0E => "Video",
        0x0F => "Personal Healthcare",
        0xDC => "Diagnostic Device",
        0xE0 => "Wireless Controller",
        0xEF => "Miscellaneous",
        0xFE => "Application Specific",
        0xFF => "Vendor Specific",
        _ => "Unknown",
    }
}

/// Each class code of the USB-IF table has its own name, and "Unknown" is the
/// name of exactly the codes outside the table.
pub proof fn law_interface_class_names(code: u8)
    ensures
        code == 0x01 ==> spec_interface_class_name(code) == "Audio"@,
        code == 0x02 ==> spec_interface_class_name(code) == "CDC (Communications)"@,
        code == 0x03 ==> spec_interface_class_name(code) == "HID (Human Interface)"@,
        code == 0x06 ==> spec_interface_class_name(code) == "Still Imaging"@,
        code == 0x07 ==> spec_interface_class_name(code) == "Printer"@,
        code == 0x08 ==> spec_interface_class_name(code) == "Mass Storage"@,
        code == 0x09 ==> spec_interface_class_name(code) == "Hub"@,
        code == 0x0A ==> spec_interface_class_name(code) == "CDC-Data"@,
        code == 0x0B ==> spec_interface_class_name(code) == "Smart Card"@,
        code == 0x0D ==> spec_interface_class_name(code) == "Content Security"@,
        code == 0x0E ==> spec_interface_class_name(code) == "Video"@,
        code == 0x0F ==> spec_interface_class_name(code) == "Personal Healthcare"@,
        code == 0xDC ==> spec_interface_class_name(code) == "Diagnostic Device"@,
        code == 0xE0 ==> spec_interface_class_name(code) == "Wireless Controller"@,
        code == 0xEF ==> spec_interface_class_name(code) == "Miscellaneous"@,
        code == 0xFE ==> spec_interface_class_name(code) == "Application Specific"@,
        code == 0xFF ==> spec_interface_class_name(code) == "Vendor Specific"@,
        spec_interface_class_name(code) == "Unknown"@ <==> !(
            code == 0x01
            || code == 0x02
            || code == 0x03
            || code == 0x06
            || code == 0x07
            || code == 0x08
            || code == 0x09
            || code == 0x0A
            || code == 0x0B
            || code == 0x0D
            || code == 0x0E
            || code == 0x0F
            || code == 0xDC
            || code == 0xE0
            || code == 0xEF
            || code == 0xFE
            || code == 0xFF
        ),
{
    reveal_strlit("Audio");
    reveal_strlit("CDC (Communications)");
    reveal_strlit("HID (Human Interface)");
    reveal_strlit("Still Imaging");
    reveal_strlit("Printer");
    reveal_strlit("Mass Storage");
    reveal_strlit("Hub");
    reveal_strlit("CDC-Data");
    reveal_strlit("Smart Card");
    reveal_strlit("Content Security");
    reveal_strlit("Video");
    reveal_strlit("Personal Healthcare");
    reveal_strlit("Diagnostic Device");
    reveal_strlit("Wireless Controller");
    reveal_strlit("Miscellaneous");
    reveal_strlit("Application Specific");
    reveal_strlit("Vendor Specific");
    reveal_strlit("Unknown");
    assert("Audio"@[0] != "Unknown"@[0]);
    assert("CDC (Communications)"@[0] != "Unknown"@[0]);
    assert("HID (Human Interface)"@[0] != "Unknown"@[0]);
    assert("Still Imaging"@[0] != "Unknown"@[0]);
    assert("Printer"@[0] != "Unknown"@[0]);
    assert("Mass Storage"@[0] != "Unknown"@[0]);
    assert("Hub"@[0] != "Unknown"@[0]);
    assert("CDC-Data"@[0] != "Unknown"@[0]);
    assert("Smart Card"@[0] != "Unknown"@[0]);
    assert("Content Security"@[0] != "Unknown"@[0]);
    assert("Video"@[0] != "Unknown"@[0]);
    assert("Personal Healthcare"@[0] != "Unknown"@[0]);
    assert("Diagnostic Device"@[0] != "Unknown"@[0]);
    assert("Wireless Controller"@[0] != "Unknown"@[0]);
    assert("Miscellaneous"@[0] != "Unknown"@[0]);
    assert("Application Specific"@[0] != "Unknown"@[0]);
    assert("Vendor Specific"@[0] != "Unknown"@[0]);
}

} // verus!
