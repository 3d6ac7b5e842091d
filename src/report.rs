use vstd::prelude::*;
use crate::keyboard::{ClickModel, KeyboardKey, KeysClick, key_usage, modifier_mask};

verus! {

/// Identifier of the vendor control report that carries every payload.
pub const CONTROL_REPORT_ID: u8 = 0x40;

/// Bytes written to the device per report: the control report's full size.
pub const CONTROL_REPORT_SIZE: usize = 0x41;

/// Identifier of the keyboard payload inside a control report.
pub const KEYBOARD_REPORT_ID: u8 = 0x07;

/// Length of the keyboard layout: three header bytes, the modifier byte, a
/// reserved byte and six key slots.
pub const KEYBOARD_REPORT_SIZE: u8 = 9;

/// Identifier of the mouse payload inside a control report.
pub const MOUSE_REPORT_ID: u8 = 0x03;

/// Length of the mouse layout: three header bytes, the button byte, two
/// little-endian coordinates and the wheel byte.
pub const MOUSE_REPORT_SIZE: u8 = 9;

/// Usage code in key slot `i`: the key's code, or zero for an unused slot.
pub open spec fn key_slot(keys: Seq<KeyboardKey>, i: int) -> u8 {
    if 0 <= i < keys.len() {
        key_usage(keys[i])
    } else {
        0
    }
}

/// The keyboard layout of a click.
pub open spec fn keyboard_report_bytes(c: ClickModel) -> Seq<u8> {
    seq![
        CONTROL_REPORT_ID,
        KEYBOARD_REPORT_SIZE,
        KEYBOARD_REPORT_ID,
        modifier_mask(c.modifiers),
        0u8,
        key_slot(c.keys, 0),
        key_slot(c.keys, 1),
        key_slot(c.keys, 2),
        key_slot(c.keys, 3),
        key_slot(c.keys, 4),
        key_slot(c.keys, 5),
    ]
}

/// Low byte of a 16-bit value.
pub open spec fn low_byte(v: u16) -> u8 {
    (v % 256) as u8
}

/// High byte of a 16-bit value.
pub open spec fn high_byte(v: u16) -> u8 {
    (v / 256) as u8
}

/// The mouse layout, coordinates already in device units.
pub open spec fn mouse_report_bytes(buttons: u8, x: u16, y: u16, wheel: u8) -> Seq<u8> {
    seq![
        CONTROL_REPORT_ID,
        MOUSE_REPORT_SIZE,
        MOUSE_REPORT_ID,
        buttons,
        low_byte(x),
        high_byte(x),
        low_byte(y),
        high_byte(y),
        wheel,
    ]
}

/// A report as written to the device: its layout, then zeros up to the
/// control report's size.
pub open spec fn control_frame_bytes(report: Seq<u8>) -> Seq<u8> {
    report + Seq::new((CONTROL_REPORT_SIZE - report.len()) as nat, |i: int| 0u8)
}

/// Encodes a click as a keyboard report. Keys fill the slots in order;
/// unused slots are zero.
pub fn keyboard_report(click: &KeysClick) -> (r: Vec<u8>)
    ensures
        r@ == keyboard_report_bytes(click@),
{
    let keys = click.keys();
    let mut slots: Vec<u8> = Vec::with_capacity(6);
    let mut i: usize = 0;
    while i < 6
        invariant
            i <= 6,
            keys@ == click@.keys,
            slots@.len() == i,
            forall|j: int| 0 <= j < i ==> slots@[j] == key_slot(click@.keys, j),
        decreases 6 - i,
    {
        if i < keys.len() {
            slots.push(keys[i].id());
        } else {
            slots.push(0);
        }
        i = i + 1;
    }
    let r = vec![
        CONTROL_REPORT_ID,
        KEYBOARD_REPORT_SIZE,
        KEYBOARD_REPORT_ID,
        click.modifier_mask(),
        0u8,
        slots[0],
        slots[1],
        slots[2],
        slots[3],
        slots[4],
        slots[5],
    ];
    assert(r@ =~= keyboard_report_bytes(click@));
    r
}

/// The report that releases every key and modifier.
pub fn release_report() -> (r: Vec<u8>)
    ensures
        r@ == keyboard_report_bytes(ClickModel::empty()),
        forall|i: int| 3 <= i < r@.len() ==> r@[i] == 0,
{
    let r = keyboard_report(&KeysClick::empty());
    proof {
        lemma_release_report_clear();
    }
    r
}

/// Encodes a mouse report from device-unit coordinates.
pub fn mouse_report(buttons: u8, x: u16, y: u16, wheel: u8) -> (r: Vec<u8>)
    ensures
        r@ == mouse_report_bytes(buttons, x, y, wheel),
{
    let r = vec![
        CONTROL_REPORT_ID,
        MOUSE_REPORT_SIZE,
        MOUSE_REPORT_ID,
        buttons,
        (x % 256) as u8,
        (x / 256) as u8,
        (y % 256) as u8,
        (y / 256) as u8,
        wheel,
    ];
    assert(r@ =~= mouse_report_bytes(buttons, x, y, wheel));
    r
}

/// Pads a report with zeros to the size of one write to the device.
pub fn control_frame(report: &Vec<u8>) -> (r: Vec<u8>)
    requires
        report@.len() <= CONTROL_REPORT_SIZE,
    ensures
        r@ == control_frame_bytes(report@),
        r@.len() == CONTROL_REPORT_SIZE,
{
    let mut r: Vec<u8> = Vec::with_capacity(CONTROL_REPORT_SIZE);
    let mut i: usize = 0;
    while i < CONTROL_REPORT_SIZE
        invariant
            i <= CONTROL_REPORT_SIZE,
            report@.len() <= CONTROL_REPORT_SIZE,
            r@.len() == i,
            forall|j: int| 0 <= j < i ==> r@[j] == control_frame_bytes(report@)[j],
        decreases CONTROL_REPORT_SIZE - i,
    {
        if i < report.len() {
            r.push(report[i]);
        } else {
            r.push(0);
        }
        i = i + 1;
    }
    assert(r@ =~= control_frame_bytes(report@));
    r
}

/// The release report holds a zero modifier byte, a zero reserved byte and
/// six empty key slots.
pub proof fn lemma_release_report_clear()
    ensures
        forall|i: int|
            3 <= i < keyboard_report_bytes(ClickModel::empty()).len() ==> keyboard_report_bytes(
                ClickModel::empty(),
            )[i] == 0,
{
    assert(modifier_mask(ClickModel::empty().modifiers) == 0);
}

} // verus!
