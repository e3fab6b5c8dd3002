//! The sixteen-key CHIP-8 keypad and its layout on a host keyboard.
use vstd::prelude::*;

verus! {

/// The host keys that stand for the keypad, named after their labels:
/// the 4x4 block from `1` to `V` on a QWERTY keyboard.
#[derive(Debug, Clone, Copy, PartialEq, Eq, Structural)]
pub enum HostKey {
    Key1,
    Key2,
    Key3,
    Key4,
    Q,
    W,
    E,
    R,
    A,
    S,
    D,
    F,
    Z,
    X,
    C,
    V,
}

/// The host key for keypad code `code` (below 16).
pub open spec fn key_of(code: u8) -> HostKey {
    if code == 0x1 {
        HostKey::Key1
    } else if code == 0x2 {
        HostKey::Key2
    } else if code == 0x3 {
        HostKey::Key3
    } else if code == 0xC {
        HostKey::Key4
    } else if code == 0x4 {
        HostKey::Q
    } else if code == 0x5 {
        HostKey::W
    } else if code == 0x6 {
        HostKey::E
    } else if code == 0xD {
        HostKey::R
    } else if code == 0x7 {
        HostKey::A
    } else if code == 0x8 {
        HostKey::S
    } else if code == 0x9 {
        HostKey::D
    } else if code == 0xE {
        HostKey::F
    } else if code == 0xA {
        HostKey::Z
    } else if code == 0x0 {
        HostKey::X
    } else if code == 0xB {
        HostKey::C
    } else {
        HostKey::V
    }
}

/// The keypad code of a host key.
pub open spec fn code_of(key: HostKey) -> u8 {
    match key {
        HostKey::Key1 => 0x1,
        HostKey::Key2 => 0x2,
        HostKey::Key3 => 0x3,
        HostKey::Key4 => 0xC,
        HostKey::Q => 0x4,
        HostKey::W => 0x5,
        HostKey::E => 0x6,
        HostKey::R => 0xD,
        HostKey::A => 0x7,
        HostKey::S => 0x8,
        HostKey::D => 0x9,
        HostKey::F => 0xE,
        HostKey::Z => 0xA,
        HostKey::X => 0x0,
        HostKey::C => 0xB,
        HostKey::V => 0xF,
    }
}

/// The host key for keypad code `key`.
pub fn u8_to_key(key: u8) -> (r: HostKey)
    requires
        key < 16,
    ensures
        r == key_of(key),
{
    match key {
        0x1 => HostKey::Key1,
        0x2 => HostKey::Key2,
        0x3 => HostKey::Key3,
        0xC => HostKey::Key4,
        0x4 => HostKey::Q,
        0x5 => HostKey::W,
        0x6 => HostKey::E,
        0xD => HostKey::R,
        0x7 => HostKey::A,
        0x8 => HostKey::S,
        0x9 => HostKey::D,
        0xE => HostKey::F,
        0xA => HostKey::Z,
        0x0 => HostKey::X,
        0xB => HostKey::C,
        _ => HostKey::V,
    }
}

/// The keypad code of a host key.
pub fn key_to_u8(key: HostKey) -> (r: u8)
    ensures
        r == code_of(key),
        r < 16,
{
    match key {
        HostKey::Key1 => 0x1,
        HostKey::Key2 => 0x2,
        HostKey::Key3 => 0x3,
        HostKey::Key4 => 0xC,
        HostKey::Q => 0x4,
        HostKey::W => 0x5,
        HostKey::E => 0x6,
        HostKey::R => 0xD,
        HostKey::A => 0x7,
        HostKey::S => 0x8,
        HostKey::D => 0x9,
        HostKey::F => 0xE,
        HostKey::Z => 0xA,
        HostKey::X => 0x0,
        HostKey::C => 0xB,
        HostKey::V => 0xF,
    }
}

/// The layout is one to one: each code maps to a key that maps back to it,
/// and each key maps to a code that maps back to it.
pub proof fn lemma_layout_round_trip(code: u8, key: HostKey)
    requires
        code < 16,
    ensures
        code_of(key_of(code)) == code,
        key_of(code_of(key)) == key,
        code_of(key) < 16,
{
}

/// Whether keypad code `code` is held in the state `keys`.
pub open spec fn held(keys: Seq<bool>, code: int) -> bool {
    0 <= code < 16 && keys[code]
}

/// The keypad state for the held host keys `pressed`.
pub fn keypad_state(pressed: &[HostKey]) -> (r: [bool; 16])
    ensures
        forall|code: int|
            0 <= code < 16 ==> r@[code] == exists|j: int|
                0 <= j < pressed@.len() && code_of(#[trigger] pressed@[j]) == code,
{
    let mut keys = [false; 16];
    let mut j: usize = 0;
    while j < pressed.len()
        invariant
            j <= pressed@.len(),
            forall|code: int|
                0 <= code < 16 ==> keys@[code] == exists|i: int|
                    0 <= i < j && code_of(#[trigger] pressed@[i]) == code,
        decreases pressed@.len() - j,
    {
        let code = key_to_u8(pressed[j]);
        keys[code as usize] = true;
        j = j + 1;
        assert forall|c: int| 0 <= c < 16 implies keys@[c] == exists|i: int|
            0 <= i < j && code_of(#[trigger] pressed@[i]) == c by {
            if c == code {
                assert(code_of(pressed@[j - 1]) == c);
            } else if keys@[c] {
                let i = choose|i: int| 0 <= i < j - 1 && code_of(#[trigger] pressed@[i]) == c;
                assert(0 <= i < j);
            }
        }
    }
    keys
}

/// The lowest held code from `from` on, if any.
pub open spec fn lowest_held_from(keys: Seq<bool>, from: int) -> Option<u8>
    decreases 16 - from,
{
    if from >= 16 || from < 0 {
        None
    } else if keys[from] {
        Some(from as u8)
    } else {
        lowest_held_from(keys, from + 1)
    }
}

/// The lowest held keypad code, if any key is held.
pub open spec fn lowest_held(keys: Seq<bool>) -> Option<u8> {
    lowest_held_from(keys, 0)
}

/// The lowest held keypad code of `keys`, if any.
pub fn first_held(keys: &[bool; 16]) -> (r: Option<u8>)
    ensures
        r == lowest_held(keys@),
{
    let mut k: usize = 16;
    let mut found: Option<u8> = None;
    while k > 0
        invariant
            k <= 16,
            found == lowest_held_from(keys@, k as int),
        decreases k,
    {
        k = k - 1;
        if keys[k] {
            found = Some(k as u8);
        }
    }
    found
}

} // verus!
