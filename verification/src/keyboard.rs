//! Keyboard and pointer input: USB HID usages mapped to each peer platform's
//! native key codes, local key codes mapped to RustDesk control keys, and the
//! key events that the client sends.
use crate::text::{
    chars_of, contains, contains_str, lower, lower_chars, trim, trimmed_chars,
};
use vstd::prelude::*;

verus! {

/// A RustDesk protocol control key, as far as this client sends them.
#[derive(Clone, Copy, Debug, PartialEq, Eq, Structural)]
pub enum ControlKey {
    Shift,
    RShift,
    Control,
    RControl,
    Alt,
    RAlt,
    CapsLock,
    Return,
    Escape,
    Space,
    Backspace,
    Tab,
    LeftArrow,
    UpArrow,
    RightArrow,
    DownArrow,
    PageUp,
    PageDown,
    End,
    Home,
    Insert,
    Delete,
    Pause,
    Snapshot,
    Apps,
    Scroll,
    Meta,
    RWin,
    F1,
    F2,
    F3,
    F4,
    F5,
    F6,
    F7,
    F8,
    F9,
    F10,
    F11,
    F12,
    CtrlAltDel,
}

/// How the peer interprets a key event.
#[derive(Clone, Copy, Debug, PartialEq, Eq, Structural)]
pub enum KeyboardMode {
    Legacy,
    Mapped,
}

/// What a key event carries.
#[derive(Clone, Debug, PartialEq, Eq)]
pub enum KeyPayload {
    ControlKey(ControlKey),
    Chr(u32),
    Text(String),
}

/// A key event as sent to the peer.
#[derive(Clone, Debug, PartialEq, Eq)]
pub struct KeyEvent {
    pub down: bool,
    pub press: bool,
    pub mode: KeyboardMode,
    pub modifiers: Vec<ControlKey>,
    pub payload: Option<KeyPayload>,
}

// ---------------------------------------------------------------- HID tables

pub open spec fn windows_letters() -> Seq<u32> {
    seq![0x1E, 0x30, 0x2E, 0x20, 0x12, 0x21, 0x22, 0x23, 0x17, 0x24, 0x25, 0x26, 0x32, 0x31,
        0x18, 0x19, 0x10, 0x13, 0x1F, 0x14, 0x16, 0x2F, 0x11, 0x2D, 0x15, 0x2C]
}

pub open spec fn windows_digits() -> Seq<u32> {
    seq![0x02, 0x03, 0x04, 0x05, 0x06, 0x07, 0x08, 0x09, 0x0A, 0x0B]
}

pub open spec fn windows_printable() -> Seq<u32> {
    seq![0x1C, 0x01, 0x0E, 0x0F, 0x39, 0x0C, 0x0D, 0x1A, 0x1B, 0x2B, 0, 0x27, 0x28, 0x29, 0x33,
        0x34, 0x35]
}

pub open spec fn linux_letters() -> Seq<u32> {
    seq![38, 56, 54, 40, 26, 41, 42, 43, 31, 44, 45, 46, 58, 57, 32, 33, 24, 27, 39, 28, 30, 55,
        25, 53, 29, 52]
}

pub open spec fn linux_digits() -> Seq<u32> {
    seq![10, 11, 12, 13, 14, 15, 16, 17, 18, 19]
}

pub open spec fn linux_printable() -> Seq<u32> {
    seq![36, 9, 22, 23, 65, 20, 21, 34, 35, 51, 0, 47, 48, 49, 59, 60, 61]
}

pub open spec fn macos_letters() -> Seq<u32> {
    seq![0, 11, 8, 2, 14, 3, 5, 4, 34, 38, 40, 37, 46, 45, 31, 35, 12, 15, 1, 17, 32, 9, 13, 7,
        16, 6]
}

pub open spec fn macos_digits() -> Seq<u32> {
    seq![18, 19, 20, 21, 23, 22, 26, 28, 25, 29]
}

pub open spec fn macos_printable() -> Seq<u32> {
    seq![36, 53, 51, 48, 49, 27, 24, 33, 30, 42, 0xFFFF_FFFF, 41, 39, 50, 43, 47, 44]
}

pub open spec fn android_letters() -> Seq<u32> {
    seq![29, 30, 31, 32, 33, 34, 35, 36, 37, 38, 39, 40, 41, 42, 43, 44, 45, 46, 47, 48, 49, 50,
        51, 52, 53, 54]
}

pub open spec fn android_digits() -> Seq<u32> {
    seq![8, 9, 10, 11, 12, 13, 14, 15, 16, 7]
}

pub open spec fn android_printable() -> Seq<u32> {
    seq![66, 111, 67, 61, 62, 69, 70, 71, 72, 73, 0, 74, 75, 68, 55, 56, 76]
}

/// Table entry for a HID usage: letters 0x04..=0x1D, digits 0x1E..=0x27 and
/// printable keys 0x28..=0x38; `missing` outside those ranges.
pub open spec fn table_entry(
    hid: u32,
    letters: Seq<u32>,
    digits: Seq<u32>,
    printable: Seq<u32>,
    missing: u32,
) -> u32 {
    if 0x04 <= hid && hid <= 0x1D {
        letters[hid - 0x04]
    } else if 0x1E <= hid && hid <= 0x27 {
        digits[hid - 0x1E]
    } else if 0x28 <= hid && hid <= 0x38 {
        printable[hid - 0x28]
    } else {
        missing
    }
}

/// Table lookup where 0 marks an unsupported usage.
pub open spec fn spec_lookup(
    hid: u32,
    letters: Seq<u32>,
    digits: Seq<u32>,
    printable: Seq<u32>,
) -> Option<u32> {
    let code = table_entry(hid, letters, digits, printable, 0);
    if code != 0 {
        Some(code)
    } else {
        None
    }
}

/// Looks a HID usage up in three tables; a zero entry means unsupported.
pub fn lookup_usb_hid_code(
    hid: u32,
    letters: &[u32; 26],
    digits: &[u32; 10],
    printable: &[u32; 17],
) -> (r: Option<u32>)
    ensures
        r == spec_lookup(hid, letters@, digits@, printable@),
{
    let code = if 0x04 <= hid && hid <= 0x1D {
        letters[(hid - 0x04) as usize]
    } else if 0x1E <= hid && hid <= 0x27 {
        digits[(hid - 0x1E) as usize]
    } else if 0x28 <= hid && hid <= 0x38 {
        printable[(hid - 0x28) as usize]
    } else {
        0
    };
    if code != 0 {
        Some(code)
    } else {
        None
    }
}

pub open spec fn spec_windows_code(hid: u32) -> Option<u32> {
    spec_lookup(hid, windows_letters(), windows_digits(), windows_printable())
}

pub open spec fn spec_linux_code(hid: u32) -> Option<u32> {
    spec_lookup(hid, linux_letters(), linux_digits(), linux_printable())
}

pub open spec fn spec_android_code(hid: u32) -> Option<u32> {
    spec_lookup(hid, android_letters(), android_digits(), android_printable())
}

/// macOS virtual key 0 is the A key, so unsupported usages are marked with
/// `u32::MAX` instead of 0.
pub open spec fn spec_macos_code(hid: u32) -> Option<u32> {
    let code = table_entry(hid, macos_letters(), macos_digits(), macos_printable(), 0xFFFF_FFFF);
    if code != 0xFFFF_FFFF {
        Some(code)
    } else {
        None
    }
}

/// Windows set-one scan code for a HID usage.
pub fn usb_hid_to_windows_scan_code(hid: u32) -> (r: Option<u32>)
    ensures
        r == spec_windows_code(hid),
{
    let letters: [u32; 26] = [
        0x1E, 0x30, 0x2E, 0x20, 0x12, 0x21, 0x22, 0x23, 0x17, 0x24, 0x25, 0x26, 0x32, 0x31, 0x18,
        0x19, 0x10, 0x13, 0x1F, 0x14, 0x16, 0x2F, 0x11, 0x2D, 0x15, 0x2C,
    ];
    let digits: [u32; 10] = [0x02, 0x03, 0x04, 0x05, 0x06, 0x07, 0x08, 0x09, 0x0A, 0x0B];
    let printable: [u32; 17] = [
        0x1C, 0x01, 0x0E, 0x0F, 0x39, 0x0C, 0x0D, 0x1A, 0x1B, 0x2B, 0, 0x27, 0x28, 0x29, 0x33,
        0x34, 0x35,
    ];
    assert(letters@ =~= windows_letters());
    assert(digits@ =~= windows_digits());
    assert(printable@ =~= windows_printable());
    lookup_usb_hid_code(hid, &letters, &digits, &printable)
}

/// Xorg/XKB key code (Linux evdev code plus 8) for a HID usage.
pub fn usb_hid_to_linux_xorg_code(hid: u32) -> (r: Option<u32>)
    ensures
        r == spec_linux_code(hid),
{
    let letters: [u32; 26] = [
        38, 56, 54, 40, 26, 41, 42, 43, 31, 44, 45, 46, 58, 57, 32, 33, 24, 27, 39, 28, 30, 55, 25,
        53, 29, 52,
    ];
    let digits: [u32; 10] = [10, 11, 12, 13, 14, 15, 16, 17, 18, 19];
    let printable: [u32; 17] = [36, 9, 22, 23, 65, 20, 21, 34, 35, 51, 0, 47, 48, 49, 59, 60, 61];
    assert(letters@ =~= linux_letters());
    assert(digits@ =~= linux_digits());
    assert(printable@ =~= linux_printable());
    lookup_usb_hid_code(hid, &letters, &digits, &printable)
}

/// macOS virtual key code for a HID usage.
pub fn usb_hid_to_macos_code(hid: u32) -> (r: Option<u32>)
    ensures
        r == spec_macos_code(hid),
{
    let letters: [u32; 26] = [
        0, 11, 8, 2, 14, 3, 5, 4, 34, 38, 40, 37, 46, 45, 31, 35, 12, 15, 1, 17, 32, 9, 13, 7, 16,
        6,
    ];
    let digits: [u32; 10] = [18, 19, 20, 21, 23, 22, 26, 28, 25, 29];
    let printable: [u32; 17] = [
        36, 53, 51, 48, 49, 27, 24, 33, 30, 42, 0xFFFF_FFFF, 41, 39, 50, 43, 47, 44,
    ];
    assert(letters@ =~= macos_letters());
    assert(digits@ =~= macos_digits());
    assert(printable@ =~= macos_printable());
    let code = if 0x04 <= hid && hid <= 0x1D {
        letters[(hid - 0x04) as usize]
    } else if 0x1E <= hid && hid <= 0x27 {
        digits[(hid - 0x1E) as usize]
    } else if 0x28 <= hid && hid <= 0x38 {
        printable[(hid - 0x28) as usize]
    } else {
        0xFFFF_FFFF
    };
    if code != 0xFFFF_FFFF {
        Some(code)
    } else {
        None
    }
}

/// The digit and letter keys keep their meaning across the tables that lay
/// them out in order: HID `0x1E + d` (the digits 1 to 9, then 0) is Windows
/// scan code `0x02 + d` and Xorg code `10 + d`; on Android the digits 1 to 9
/// are `KEYCODE_1` to `KEYCODE_9` (8 to 16) and 0 is `KEYCODE_0` (7), and
/// the letters A to Z (HID `0x04 + i`) are `KEYCODE_A + i` (29 + i). The
/// non-US `#` key (HID 0x32) and usages outside `0x04..=0x38` have no code.
pub proof fn digit_and_letter_keys_keep_their_meaning(d: u32, i: u32, hid: u32)
    ensures
        d <= 9 ==> spec_windows_code((0x1E + d) as u32) == Some((0x02 + d) as u32),
        d <= 9 ==> spec_linux_code((0x1E + d) as u32) == Some((10 + d) as u32),
        d <= 8 ==> spec_android_code((0x1E + d) as u32) == Some((8 + d) as u32),
        spec_android_code(0x27) == Some(7u32),
        i <= 25 ==> spec_android_code((0x04 + i) as u32) == Some((29 + i) as u32),
        spec_windows_code(0x32) is None && spec_linux_code(0x32) is None && spec_android_code(
            0x32,
        ) is None && spec_macos_code(0x32) is None,
        !(0x04 <= hid <= 0x38) ==> spec_windows_code(hid) is None && spec_linux_code(hid) is None
            && spec_android_code(hid) is None && spec_macos_code(hid) is None,
{
}

/// Android key code for a HID usage.
pub fn usb_hid_to_android_code(hid: u32) -> (r: Option<u32>)
    ensures
        r == spec_android_code(hid),
{
    let letters: [u32; 26] = [
        29, 30, 31, 32, 33, 34, 35, 36, 37, 38, 39, 40, 41, 42, 43, 44, 45, 46, 47, 48, 49, 50, 51,
        52, 53, 54,
    ];
    let digits: [u32; 10] = [8, 9, 10, 11, 12, 13, 14, 15, 16, 7];
    let printable: [u32; 17] = [66, 111, 67, 61, 62, 69, 70, 71, 72, 73, 0, 74, 75, 68, 55, 56, 76];
    assert(letters@ =~= android_letters());
    assert(digits@ =~= android_digits());
    assert(printable@ =~= android_printable());
    lookup_usb_hid_code(hid, &letters, &digits, &printable)
}

/// The peer platform family that decides which key-code table applies.
pub open spec fn platform_family(peer_platform: Seq<char>) -> int {
    let p = lower(trim(peer_platform));
    if contains(p, "linux"@) {
        1
    } else if contains(p, "android"@) {
        2
    } else if contains(p, "mac"@) || contains(p, "darwin"@) || contains(p, "osx"@) {
        3
    } else {
        0
    }
}

pub open spec fn spec_peer_code(hid: u32, peer_platform: Seq<char>) -> Option<u32> {
    let family = platform_family(peer_platform);
    if family == 1 {
        spec_linux_code(hid)
    } else if family == 2 {
        spec_android_code(hid)
    } else if family == 3 {
        spec_macos_code(hid)
    } else {
        spec_windows_code(hid)
    }
}

/// The peer's native key code for a HID usage. Linux peers get Xorg codes,
/// Android and macOS peers their own codes, and every other platform
/// (Windows, or a peer that reports none) Windows scan codes.
pub fn map_usb_hid_to_peer_code(hid: u32, peer_platform: &str) -> (r: Option<u32>)
    ensures
        r == spec_peer_code(hid, peer_platform@),
{
    let trimmed = trimmed_chars(peer_platform);
    let platform = lower_chars(&trimmed);
    if contains_str(&platform, "linux") {
        usb_hid_to_linux_xorg_code(hid)
    } else if contains_str(&platform, "android") {
        usb_hid_to_android_code(hid)
    } else if contains_str(&platform, "mac") || contains_str(&platform, "darwin")
        || contains_str(&platform, "osx") {
        usb_hid_to_macos_code(hid)
    } else {
        usb_hid_to_windows_scan_code(hid)
    }
}

// ------------------------------------------------------- local key codes

pub open spec fn spec_control_for(key_code: i32) -> Option<ControlKey> {
    if key_code == 16 {
        Some(ControlKey::Shift)
    } else if key_code == 161 {
        Some(ControlKey::RShift)
    } else if key_code == 17 {
        Some(ControlKey::Control)
    } else if key_code == 163 {
        Some(ControlKey::RControl)
    } else if key_code == 18 {
        Some(ControlKey::Alt)
    } else if key_code == 165 {
        Some(ControlKey::RAlt)
    } else if key_code == 20 {
        Some(ControlKey::CapsLock)
    } else if key_code == 13 {
        Some(ControlKey::Return)
    } else if key_code == 27 {
        Some(ControlKey::Escape)
    } else if key_code == 32 {
        Some(ControlKey::Space)
    } else if key_code == 8 {
        Some(ControlKey::Backspace)
    } else if key_code == 9 {
        Some(ControlKey::Tab)
    } else if key_code == 37 {
        Some(ControlKey::LeftArrow)
    } else if key_code == 38 {
        Some(ControlKey::UpArrow)
    } else if key_code == 39 {
        Some(ControlKey::RightArrow)
    } else if key_code == 40 {
        Some(ControlKey::DownArrow)
    } else if key_code == 33 {
        Some(ControlKey::PageUp)
    } else if key_code == 34 {
        Some(ControlKey::PageDown)
    } else if key_code == 35 {
        Some(ControlKey::End)
    } else if key_code == 36 {
        Some(ControlKey::Home)
    } else if key_code == 45 {
        Some(ControlKey::Insert)
    } else if key_code == 46 {
        Some(ControlKey::Delete)
    } else if key_code == 19 {
        Some(ControlKey::Pause)
    } else if key_code == 44 {
        Some(ControlKey::Snapshot)
    } else if key_code == 93 {
        Some(ControlKey::Apps)
    } else if key_code == 145 {
        Some(ControlKey::Scroll)
    } else if key_code == 91 {
        Some(ControlKey::Meta)
    } else if key_code == 92 {
        Some(ControlKey::RWin)
    } else if 112 <= key_code && key_code <= 123 {
        Some(function_key(key_code - 111))
    } else {
        None
    }
}

/// Function key `F<n>` for `1 <= n <= 12`.
pub open spec fn function_key(n: int) -> ControlKey {
    if n == 1 {
        ControlKey::F1
    } else if n == 2 {
        ControlKey::F2
    } else if n == 3 {
        ControlKey::F3
    } else if n == 4 {
        ControlKey::F4
    } else if n == 5 {
        ControlKey::F5
    } else if n == 6 {
        ControlKey::F6
    } else if n == 7 {
        ControlKey::F7
    } else if n == 8 {
        ControlKey::F8
    } else if n == 9 {
        ControlKey::F9
    } else if n == 10 {
        ControlKey::F10
    } else if n == 11 {
        ControlKey::F11
    } else {
        ControlKey::F12
    }
}

/// The protocol control key for a local (virtual-key) code, if it is one.
pub fn key_code_to_control(key_code: i32) -> (r: Option<ControlKey>)
    ensures
        r == spec_control_for(key_code),
{
    match key_code {
        16 => Some(ControlKey::Shift),
        161 => Some(ControlKey::RShift),
        17 => Some(ControlKey::Control),
        163 => Some(ControlKey::RControl),
        18 => Some(ControlKey::Alt),
        165 => Some(ControlKey::RAlt),
        20 => Some(ControlKey::CapsLock),
        13 => Some(ControlKey::Return),
        27 => Some(ControlKey::Escape),
        32 => Some(ControlKey::Space),
        8 => Some(ControlKey::Backspace),
        9 => Some(ControlKey::Tab),
        37 => Some(ControlKey::LeftArrow),
        38 => Some(ControlKey::UpArrow),
        39 => Some(ControlKey::RightArrow),
        40 => Some(ControlKey::DownArrow),
        33 => Some(ControlKey::PageUp),
        34 => Some(ControlKey::PageDown),
        35 => Some(ControlKey::End),
        36 => Some(ControlKey::Home),
        45 => Some(ControlKey::Insert),
        46 => Some(ControlKey::Delete),
        19 => Some(ControlKey::Pause),
        44 => Some(ControlKey::Snapshot),
        93 => Some(ControlKey::Apps),
        145 => Some(ControlKey::Scroll),
        91 => Some(ControlKey::Meta),
        92 => Some(ControlKey::RWin),
        112 => Some(ControlKey::F1),
        113 => Some(ControlKey::F2),
        114 => Some(ControlKey::F3),
        115 => Some(ControlKey::F4),
        116 => Some(ControlKey::F5),
        117 => Some(ControlKey::F6),
        118 => Some(ControlKey::F7),
        119 => Some(ControlKey::F8),
        120 => Some(ControlKey::F9),
        121 => Some(ControlKey::F10),
        122 => Some(ControlKey::F11),
        123 => Some(ControlKey::F12),
        _ => None,
    }
}

/// Bit reported by a key code when it is itself a modifier key.
pub open spec fn spec_modifier_bit(key_code: i32) -> i32 {
    if key_code == 17 || key_code == 163 {
        1
    } else if key_code == 16 || key_code == 161 {
        2
    } else if key_code == 18 || key_code == 165 {
        4
    } else if key_code == 91 || key_code == 92 {
        8
    } else if key_code == 20 {
        16
    } else {
        0
    }
}

/// The modifier-mask bit that a modifier key code contributes, 0 for other
/// keys. Left and right keys of one kind share their bit.
pub fn modifier_bit_for_key_code(key_code: i32) -> (bit: i32)
    ensures
        bit == spec_modifier_bit(key_code),
{
    match key_code {
        17 | 163 => 1,
        16 | 161 => 2,
        18 | 165 => 4,
        91 | 92 => 8,
        20 => 16,
        _ => 0,
    }
}

/// The control keys named by a modifier mask: bit 1 Control, 2 Shift,
/// 4 Alt, 8 Meta, 16 CapsLock, in that order.
pub open spec fn spec_mask_controls(mask: i32) -> Seq<ControlKey> {
    (if mask & 1 != 0 { seq![ControlKey::Control] } else { Seq::empty() }) + (if mask & 2 != 0 {
        seq![ControlKey::Shift]
    } else {
        Seq::empty()
    }) + (if mask & 4 != 0 { seq![ControlKey::Alt] } else { Seq::empty() }) + (if mask & 8 != 0 {
        seq![ControlKey::Meta]
    } else {
        Seq::empty()
    }) + (if mask & 16 != 0 { seq![ControlKey::CapsLock] } else { Seq::empty() })
}

/// The position of a modifier in the order the controls are listed in.
pub open spec fn modifier_rank(k: ControlKey) -> int {
    match k {
        ControlKey::Control => 0,
        ControlKey::Shift => 1,
        ControlKey::Alt => 2,
        ControlKey::Meta => 3,
        ControlKey::CapsLock => 4,
        _ => 5,
    }
}

/// Each bit of a modifier mask names its own key: bit 1 is present exactly
/// when Control is listed, 2 Shift, 4 Alt, 8 Meta and 16 CapsLock. Nothing
/// else is listed, and the keys come in that order, each once.
pub proof fn modifier_bits_name_their_keys(mask: i32)
    ensures
        (mask & 1 != 0) <==> spec_mask_controls(mask).contains(ControlKey::Control),
        (mask & 2 != 0) <==> spec_mask_controls(mask).contains(ControlKey::Shift),
        (mask & 4 != 0) <==> spec_mask_controls(mask).contains(ControlKey::Alt),
        (mask & 8 != 0) <==> spec_mask_controls(mask).contains(ControlKey::Meta),
        (mask & 16 != 0) <==> spec_mask_controls(mask).contains(ControlKey::CapsLock),
        forall|i: int|
            0 <= i < spec_mask_controls(mask).len() ==> modifier_rank(
                #[trigger] spec_mask_controls(mask)[i],
            ) < 5,
        forall|i: int, j: int|
            0 <= i < j < spec_mask_controls(mask).len() ==> modifier_rank(
                #[trigger] spec_mask_controls(mask)[i],
            ) < modifier_rank(#[trigger] spec_mask_controls(mask)[j]),
{
    let e = Seq::<ControlKey>::empty();
    let p0 = if mask & 1 != 0 { seq![ControlKey::Control] } else { e };
    let p1 = if mask & 2 != 0 { seq![ControlKey::Shift] } else { e };
    let p2 = if mask & 4 != 0 { seq![ControlKey::Alt] } else { e };
    let p3 = if mask & 8 != 0 { seq![ControlKey::Meta] } else { e };
    let p4 = if mask & 16 != 0 { seq![ControlKey::CapsLock] } else { e };
    let s = spec_mask_controls(mask);
    assert(s == p0 + p1 + p2 + p3 + p4);
    assert forall|i: int| 0 <= i < s.len() implies {
        let r = modifier_rank(#[trigger] s[i]);
        &&& r < 5
        &&& (r == 0 ==> mask & 1 != 0)
        &&& (r == 1 ==> mask & 2 != 0)
        &&& (r == 2 ==> mask & 4 != 0)
        &&& (r == 3 ==> mask & 8 != 0)
        &&& (r == 4 ==> mask & 16 != 0)
        &&& i >= (if r > 0 && mask & 1 != 0 { 1int } else { 0 }) + (if r > 1 && mask & 2 != 0 { 1int } else { 0 })
            + (if r > 2 && mask & 4 != 0 { 1int } else { 0 }) + (if r > 3 && mask & 8 != 0 { 1int } else { 0 })
        &&& i == (if r > 0 && mask & 1 != 0 { 1int } else { 0 }) + (if r > 1 && mask & 2 != 0 { 1int } else { 0 })
            + (if r > 2 && mask & 4 != 0 { 1int } else { 0 }) + (if r > 3 && mask & 8 != 0 { 1int } else { 0 })
    } by {
    }
    if mask & 1 != 0 {
        assert(s[0] == ControlKey::Control);
    }
    if mask & 2 != 0 {
        let i = if mask & 1 != 0 { 1int } else { 0 };
        assert(s[i] == ControlKey::Shift);
    }
    if mask & 4 != 0 {
        let i = (if mask & 1 != 0 { 1int } else { 0 }) + (if mask & 2 != 0 { 1int } else { 0 });
        assert(s[i] == ControlKey::Alt);
    }
    if mask & 8 != 0 {
        let i = (if mask & 1 != 0 { 1int } else { 0 }) + (if mask & 2 != 0 { 1int } else { 0 }) + (
        if mask & 4 != 0 { 1int } else { 0 });
        assert(s[i] == ControlKey::Meta);
    }
    if mask & 16 != 0 {
        let i = (if mask & 1 != 0 { 1int } else { 0 }) + (if mask & 2 != 0 { 1int } else { 0 }) + (
        if mask & 4 != 0 { 1int } else { 0 }) + (if mask & 8 != 0 { 1int } else { 0 });
        assert(s[i] == ControlKey::CapsLock);
    }
}

pub fn modifier_mask_to_controls(modifier_mask: i32) -> (v: Vec<ControlKey>)
    ensures
        v@ == spec_mask_controls(modifier_mask),
{
    let mut v: Vec<ControlKey> = Vec::new();
    let ghost s0: Seq<ControlKey> = if modifier_mask & 1 != 0 {
        seq![ControlKey::Control]
    } else {
        Seq::empty()
    };
    if modifier_mask & 1 != 0 {
        v.push(ControlKey::Control);
    }
    assert(v@ =~= s0);
    let ghost s1: Seq<ControlKey> = s0 + if modifier_mask & 2 != 0 {
        seq![ControlKey::Shift]
    } else {
        Seq::empty()
    };
    if modifier_mask & 2 != 0 {
        v.push(ControlKey::Shift);
    }
    assert(v@ =~= s1);
    let ghost s2: Seq<ControlKey> = s1 + if modifier_mask & 4 != 0 {
        seq![ControlKey::Alt]
    } else {
        Seq::empty()
    };
    if modifier_mask & 4 != 0 {
        v.push(ControlKey::Alt);
    }
    assert(v@ =~= s2);
    let ghost s3: Seq<ControlKey> = s2 + if modifier_mask & 8 != 0 {
        seq![ControlKey::Meta]
    } else {
        Seq::empty()
    };
    if modifier_mask & 8 != 0 {
        v.push(ControlKey::Meta);
    }
    assert(v@ =~= s3);
    let ghost s4: Seq<ControlKey> = s3 + if modifier_mask & 16 != 0 {
        seq![ControlKey::CapsLock]
    } else {
        Seq::empty()
    };
    if modifier_mask & 16 != 0 {
        v.push(ControlKey::CapsLock);
    }
    assert(v@ =~= s4);
    v
}


// ------------------------------------------------------------ key events

/// What a local key code sends: its control key, or else the code itself
/// (negative codes become 0) as a character.
pub open spec fn spec_key_payload(key_code: i32) -> KeyPayload {
    match spec_control_for(key_code) {
        Some(c) => KeyPayload::ControlKey(c),
        None => KeyPayload::Chr(if key_code > 0 { key_code as u32 } else { 0 }),
    }
}

/// The event for a local key code. Action 0 is a key-down, 2 a press; the
/// modifier that the key itself represents is removed from the mask.
pub fn key_event_for_code(key_code: i32, action: i32, modifier_mask: i32) -> (e: KeyEvent)
    ensures
        e.down == (action == 0),
        e.press == (action == 2),
        e.mode == KeyboardMode::Legacy,
        e.modifiers@ == spec_mask_controls(modifier_mask & !spec_modifier_bit(key_code)),
        e.payload == Some(spec_key_payload(key_code)),
{
    let bit = modifier_bit_for_key_code(key_code);
    let modifiers = modifier_mask_to_controls(modifier_mask & !bit);
    let payload = match key_code_to_control(key_code) {
        Some(ctrl) => KeyPayload::ControlKey(ctrl),
        None => KeyPayload::Chr(if key_code > 0 { key_code as u32 } else { 0 }),
    };
    KeyEvent { down: action == 0, press: action == 2, mode: KeyboardMode::Legacy, modifiers, payload: Some(payload) }
}

/// The event for a physical key given as a HID usage (negative usages count
/// as 0), in the peer's native codes; `None` when the peer's table has no
/// code for it.
pub fn physical_key_event(usb_hid_code: i32, action: i32, modifier_mask: i32, peer_platform: &str) -> (r: Option<KeyEvent>)
    ensures
        ({
            let hid = if usb_hid_code > 0 { usb_hid_code as u32 } else { 0u32 };
            match spec_peer_code(hid, peer_platform@) {
                None => r.is_none(),
                Some(code) => r matches Some(e) && e.down == (action == 0) && e.press == (action
                    == 2) && e.mode == KeyboardMode::Mapped && e.modifiers@ == spec_mask_controls(
                    modifier_mask,
                ) && e.payload == Some(KeyPayload::Chr(code)),
            }
        }),
{
    let hid: u32 = if usb_hid_code > 0 { usb_hid_code as u32 } else { 0 };
    match map_usb_hid_to_peer_code(hid, peer_platform) {
        None => None,
        Some(code) => {
            let modifiers = modifier_mask_to_controls(modifier_mask);
            Some(KeyEvent { down: action == 0, press: action == 2, mode: KeyboardMode::Mapped, modifiers, payload: Some(KeyPayload::Chr(code)) })
        },
    }
}

/// Whether two character sequences are equal.
pub fn chars_equal(a: &Vec<char>, b: &Vec<char>) -> (r: bool)
    ensures
        r == (a@ == b@),
{
    if a.len() != b.len() {
        return false;
    }
    let r = crate::text::occurs_at_exec(a, b, 0);
    assert(a@.subrange(0, b@.len() as int) =~= a@);
    r
}

/// Whether the platform string is `windows` in any ASCII case.
pub open spec fn is_windows_name(peer_platform: Seq<char>) -> bool {
    lower(peer_platform) == "windows"@
}

/// Ctrl+Alt+Delete for the peer: the secure attention control on Windows,
/// a Delete press with Control and Alt elsewhere.
pub fn ctrl_alt_del_event(peer_platform: &str) -> (e: KeyEvent)
    ensures
        e.mode == KeyboardMode::Legacy,
        is_windows_name(peer_platform@) ==> e.down && !e.press && e.modifiers@.len() == 0
            && e.payload == Some(KeyPayload::ControlKey(ControlKey::CtrlAltDel)),
        !is_windows_name(peer_platform@) ==> !e.down && e.press && e.modifiers@ == seq![
            ControlKey::Control,
            ControlKey::Alt,
        ] && e.payload == Some(KeyPayload::ControlKey(ControlKey::Delete)),
{
    let p = chars_of(peer_platform);
    let lp = lower_chars(&p);
    let w = chars_of("windows");
    if chars_equal(&lp, &w) {
        KeyEvent { down: true, press: false, mode: KeyboardMode::Legacy, modifiers: Vec::new(), payload: Some(KeyPayload::ControlKey(ControlKey::CtrlAltDel)) }
    } else {
        let modifiers = modifier_mask_to_controls(1 | 4);
        assert((1i32 | 4i32) == 5i32) by (bit_vector);
        assert(5i32 & 1 != 0 && 5i32 & 2 == 0 && 5i32 & 4 != 0 && 5i32 & 8 == 0 && 5i32 & 16 == 0) by (bit_vector);
        assert(modifiers@ =~= seq![ControlKey::Control, ControlKey::Alt]);
        KeyEvent { down: false, press: true, mode: KeyboardMode::Legacy, modifiers, payload: Some(KeyPayload::ControlKey(ControlKey::Delete)) }
    }
}

/// Ctrl+Alt+Delete is offered for Linux peers, and for Windows peers with
/// secure attention enabled (platform matched case-insensitively).
pub open spec fn spec_can_send_ctrl_alt_del(peer_platform: Seq<char>, sas_enabled: bool) -> bool {
    contains(lower(peer_platform), "linux"@) || (contains(lower(peer_platform), "windows"@)
        && sas_enabled)
}

pub fn can_send_ctrl_alt_del(peer_platform: &str, sas_enabled: bool) -> (r: bool)
    ensures
        r == spec_can_send_ctrl_alt_del(peer_platform@, sas_enabled),
{
    let p = chars_of(peer_platform);
    let lp = lower_chars(&p);
    contains_str(&lp, "linux") || (contains_str(&lp, "windows") && sas_enabled)
}

/// Mouse mask for a pointer action: 0 move, 1/2 left down/up, 3/4 right
/// down/up (button in the high bits, 1 = down, 2 = up); other actions move.
pub open spec fn spec_mouse_mask(action: i32) -> i32 {
    if action == 1 {
        9
    } else if action == 2 {
        10
    } else if action == 3 {
        17
    } else if action == 4 {
        18
    } else {
        0
    }
}

/// A button action's mask holds the button above the low three bits (1 the
/// left button, 2 the right one) and the press state in them (1 down,
/// 2 up): actions 1 and 3 press, 2 and 4 release, 1 and 2 use the left
/// button, 3 and 4 the right one. Every other action is a plain move.
pub proof fn mouse_masks_encode_button_and_press(action: i32)
    ensures
        1 <= action <= 4 ==> spec_mouse_mask(action) % 8 == (if action % 2 == 1 {
            1int
        } else {
            2int
        }),
        1 <= action <= 4 ==> spec_mouse_mask(action) / 8 == (if action <= 2 {
            1int
        } else {
            2int
        }),
        !(1 <= action <= 4) ==> spec_mouse_mask(action) == 0,
{
}

pub fn mouse_button_mask(action: i32) -> (mask: i32)
    ensures
        mask == spec_mouse_mask(action),
{
    match action {
        1 => 9,  // left button (1 << 3), down
        2 => 10,  // left button, up
        3 => 17,  // right button (2 << 3), down
        4 => 18,  // right button, up
        _ => 0,
    }
}


// --------------------------------------------------------- mobile actions

/// Mouse mask of the back-button release that RustDesk 1.3.8 and later
/// map to Android Back.
pub const ANDROID_BACK_UP: i32 = 66;
/// Right-button release, which older peers map to Android Back.
pub const ANDROID_RIGHT_UP: i32 = 18;
/// Middle-button press and release, Android Home (short) or Recents (held).
pub const ANDROID_MIDDLE_DOWN: i32 = 33;
pub const ANDROID_MIDDLE_UP: i32 = 34;
/// HID usages sent in map mode for the hardware keys.
pub const HID_POWER: u32 = 0x66;
pub const HID_VOLUME_UP: u32 = 0x80;
pub const HID_VOLUME_DOWN: u32 = 0x81;

/// What an Android navigation action sends.
#[derive(Clone, Copy, Debug, PartialEq, Eq, Structural)]
pub enum MobileAction {
    /// One mouse event with this mask.
    Mouse { mask: i32 },
    /// A press followed at once by a release.
    Click { down: i32, up: i32 },
    /// A press, with the release sent after the delay if the session is
    /// still the same and connected.
    Hold { down: i32, up: i32, release_after_ms: u64 },
    /// A mapped key press of the HID usage, released after the delay under
    /// the same condition.
    Key { scan_code: u32, release_after_ms: u64 },
}

pub open spec fn spec_mobile_action(action: i32, back_uses_back_button: bool) -> Option<MobileAction> {
    if action == 0 {
        Some(MobileAction::Mouse { mask: if back_uses_back_button { ANDROID_BACK_UP } else { ANDROID_RIGHT_UP } })
    } else if action == 1 {
        Some(MobileAction::Click { down: ANDROID_MIDDLE_DOWN, up: ANDROID_MIDDLE_UP })
    } else if action == 2 {
        Some(MobileAction::Hold { down: ANDROID_MIDDLE_DOWN, up: ANDROID_MIDDLE_UP, release_after_ms: 500 })
    } else if action == 3 {
        Some(MobileAction::Key { scan_code: HID_VOLUME_UP, release_after_ms: 100 })
    } else if action == 4 {
        Some(MobileAction::Key { scan_code: HID_VOLUME_DOWN, release_after_ms: 100 })
    } else if action == 5 {
        Some(MobileAction::Key { scan_code: HID_POWER, release_after_ms: 100 })
    } else {
        None
    }
}

/// The input for an Android navigation action (0 Back, 1 Home, 2 Recents,
/// 3 volume up, 4 volume down, 5 power). Fails with -1 when not connected,
/// -2 when the peer is not Android and -3 for an unknown action.
pub fn mobile_action_plan(action: i32, connected: bool, peer_is_android: bool, peer_version: &str) -> (r: Result<MobileAction, i32>)
    ensures
        !connected ==> r == Err::<MobileAction, i32>(-1i32),
        connected && !peer_is_android ==> r == Err::<MobileAction, i32>(-2i32),
        connected && peer_is_android ==> match spec_mobile_action(
            action,
            crate::version::spec_version_at_least(peer_version@, seq![1u32, 3, 8]),
        ) {
            Some(a) => r == Ok::<MobileAction, i32>(a),
            None => r == Err::<MobileAction, i32>(-3i32),
        },
{
    if !connected {
        return Err(-1);
    }
    if !peer_is_android {
        return Err(-2);
    }
    match action {
        0 => {
            let newer = crate::version::version_at_least(peer_version, [1, 3, 8]);
            proof {
                let req: [u32; 3] = [1, 3, 8];
                assert(req@ =~= seq![1u32, 3, 8]);
            }
            Ok(MobileAction::Mouse { mask: if newer { ANDROID_BACK_UP } else { ANDROID_RIGHT_UP } })
        },
        1 => Ok(MobileAction::Click { down: ANDROID_MIDDLE_DOWN, up: ANDROID_MIDDLE_UP }),
        2 => Ok(MobileAction::Hold { down: ANDROID_MIDDLE_DOWN, up: ANDROID_MIDDLE_UP, release_after_ms: 500 }),
        3 => Ok(MobileAction::Key { scan_code: HID_VOLUME_UP, release_after_ms: 100 }),
        4 => Ok(MobileAction::Key { scan_code: HID_VOLUME_DOWN, release_after_ms: 100 }),
        5 => Ok(MobileAction::Key { scan_code: HID_POWER, release_after_ms: 100 }),
        _ => Err(-3),
    }
}


// --------------------------------------------------------- pointer events

/// A mouse event as sent to the peer.
#[derive(Clone, Debug, PartialEq, Eq)]
pub struct MouseEvent {
    pub mask: i32,
    pub x: i32,
    pub y: i32,
    pub modifiers: Vec<ControlKey>,
}

/// A button or move event at `(x, y)` on the display shown (already
/// rounded towards zero to whole pixels), placed on the peer's desktop by
/// the display's origin.
pub fn mouse_event(x: i32, y: i32, action: i32, modifier_mask: i32, origin_x: i32, origin_y: i32) -> (e:
    MouseEvent)
    requires
        i32::MIN <= x + origin_x <= i32::MAX,
        i32::MIN <= y + origin_y <= i32::MAX,
    ensures
        e.mask == spec_mouse_mask(action),
        e.x == x + origin_x,
        e.y == y + origin_y,
        e.modifiers@ == spec_mask_controls(modifier_mask),
{
    MouseEvent {
        mask: mouse_button_mask(action),
        x: x + origin_x,
        y: y + origin_y,
        modifiers: modifier_mask_to_controls(modifier_mask),
    }
}

/// The mask of a wheel event.
pub const WHEEL_MASK: i32 = 3;

/// A wheel event of the (rounded) deltas.
pub fn wheel_event(delta_x: i32, delta_y: i32, modifier_mask: i32) -> (e: MouseEvent)
    ensures
        e.mask == WHEEL_MASK,
        e.x == delta_x,
        e.y == delta_y,
        e.modifiers@ == spec_mask_controls(modifier_mask),
{
    MouseEvent { mask: WHEEL_MASK, x: delta_x, y: delta_y, modifiers: modifier_mask_to_controls(modifier_mask) }
}

/// A key event that types `text`; none for empty text.
pub fn text_event(text: &str) -> (r: Option<KeyEvent>)
    ensures
        text@.len() == 0 ==> r is None,
        text@.len() > 0 ==> (r matches Some(e) && !e.down && !e.press && e.mode
            == KeyboardMode::Legacy && e.modifiers@.len() == 0 && (e.payload matches Some(
            KeyPayload::Text(t)) && t@ == text@)),
{
    if text.is_empty() {
        return None;
    }
    let v = crate::text::chars_of(text);
    Some(
        KeyEvent {
            down: false,
            press: false,
            mode: KeyboardMode::Legacy,
            modifiers: Vec::new(),
            payload: Some(KeyPayload::Text(crate::text::string_from_chars(&v))),
        },
    )
}

} // verus!
