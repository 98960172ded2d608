//! Helpers for a HID remote listener: decoding a report's first byte to a
//! semantic button name, the reverse mapping from names to HID usage
//! identifiers, and the fixed shape of an 8-byte keyboard report.

use vstd::prelude::*;
use vstd::string::StringExecFns;
use crate::text::str_eq;

verus! {

/// The semantic button name a HID report's first byte selects, if any.
pub open spec fn hid_action_of(data: Seq<u8>) -> Option<Seq<char>> {
    if data.len() > 0 {
        if data[0] == 0x41 {
            Some("Up"@)
        } else if data[0] == 0x42 {
            Some("Down"@)
        } else if data[0] == 0x43 {
            Some("Left"@)
        } else if data[0] == 0x44 {
            Some("Right"@)
        } else if data[0] == 0x45 {
            Some("Select"@)
        } else {
            None
        }
    } else {
        None
    }
}

/// Decode a received HID report to the semantic button name it selects.
pub fn map_hid_to_action(data: &[u8]) -> (r: Option<String>)
    ensures
        match r {
            Some(s) => hid_action_of(data@) == Some(s@),
            None => hid_action_of(data@) is None,
        },
{
    if data.len() > 0 {
        let b = data[0];
        if b == 0x41 {
            Some(String::from_str("Up"))
        } else if b == 0x42 {
            Some(String::from_str("Down"))
        } else if b == 0x43 {
            Some(String::from_str("Left"))
        } else if b == 0x44 {
            Some(String::from_str("Right"))
        } else if b == 0x45 {
            Some(String::from_str("Select"))
        } else {
            None
        }
    } else {
        None
    }
}

/// The HID usage identifier a semantic button name is sent as, if any:
/// the arrow keys and the spacebar for select.
pub open spec fn hid_key_of(action: Seq<char>) -> Option<u8> {
    if action == "Up"@ {
        Some(0x52u8)
    } else if action == "Down"@ {
        Some(0x51u8)
    } else if action == "Left"@ {
        Some(0x50u8)
    } else if action == "Right"@ {
        Some(0x4Fu8)
    } else if action == "Select"@ {
        Some(0x2Cu8)
    } else {
        None
    }
}

/// Encode a semantic button name as the HID usage identifier to send.
pub fn map_action_to_hid_key(action: &str) -> (r: Option<u8>)
    ensures
        r == hid_key_of(action@),
{
    if str_eq(action, "Up") {
        Some(0x52)
    } else if str_eq(action, "Down") {
        Some(0x51)
    } else if str_eq(action, "Left") {
        Some(0x50)
    } else if str_eq(action, "Right") {
        Some(0x4F)
    } else if str_eq(action, "Select") {
        Some(0x2C)
    } else {
        None
    }
}

/// An 8-byte HID keyboard report holding one key code: the key stands in the
/// third byte, everything else is zero. A report for key 0 releases all keys.
pub fn hid_report(hid_key: u8) -> (r: Vec<u8>)
    ensures
        r@.len() == 8,
        r@[2] == hid_key,
        forall|i: int| 0 <= i < 8 && i != 2 ==> r@[i] == 0u8,
{
    let mut r: Vec<u8> = Vec::new();
    r.push(0);
    r.push(0);
    r.push(hid_key);
    r.push(0);
    r.push(0);
    r.push(0);
    r.push(0);
    r.push(0);
    r
}

} // verus!
