//! Decoding of 16-bit instruction words into typed operations.
use vstd::prelude::*;

verus! {

/// One decoded CHIP-8 operation, carrying only the operand fields it needs.
#[derive(Debug, Clone, Copy, PartialEq, Eq, Structural)]
#[allow(inconsistent_fields)]
pub enum Instruction {
    /// 00E0: clear the display.
    Cls,
    /// 00EE: return from a subroutine.
    Ret,
    /// 1nnn: jump to `location`.
    Jump { location: u16 },
    /// 2nnn: call the subroutine at `location`.
    Call { location: u16 },
    /// 3xkk: skip the next instruction if Vx == kk.
    SkipEqualRegisterBytes { register_index: u8, bytes: u8 },
    /// 4xkk: skip the next instruction if Vx != kk.
    SkipNotEqualRegisterBytes { register_index: u8, bytes: u8 },
    /// 5xy0: skip the next instruction if Vx == Vy.
    SkipEqualRegisterRegister { register_x: u8, register_y: u8 },
    /// 6xkk: Vx = kk.
    SetRegisterToBytes { register: u8, bytes: u8 },
    /// 7xkk: Vx = Vx + kk (wrapping, VF untouched).
    AddBytesToRegister { register: u8, bytes: u8 },
    /// 8xy0: Vx = Vy.
    SetRegisterToRegister { register_x: u8, register_y: u8 },
    /// 8xy1: Vx = Vx | Vy.
    BitwiseOr { register_x: u8, register_y: u8 },
    /// 8xy2: Vx = Vx & Vy.
    BitwiseAnd { register_x: u8, register_y: u8 },
    /// 8xy3: Vx = Vx ^ Vy.
    BitwiseXor { register_x: u8, register_y: u8 },
    /// 8xy4: Vx = Vx + Vy, VF = carry.
    AddRegisterToRegister { register_x: u8, register_y: u8 },
    /// 8xy5: Vx = Vx - Vy, VF = not borrow.
    SubtractRegisterToRegister { register_x: u8, register_y: u8 },
    /// 8xy6: Vx = Vx >> 1, VF = the bit shifted out.
    LeastSignificantBit { register: u8 },
    /// 8xy7: Vx = Vy - Vx, VF = not borrow.
    SubtractInversed { register_x: u8, register_y: u8 },
    /// 8xyE: Vx = Vx << 1, VF = the bit shifted out.
    MostSignificantBit { register: u8 },
    /// 9xy0: skip the next instruction if Vx != Vy.
    SkipNotEqualRegisterRegister { register_x: u8, register_y: u8 },
    /// Annn: I = nnn.
    SetI { value: u16 },
    /// Bnnn: jump to nnn + V0.
    JumpToLocationPlusZeroRegister { address: u16 },
    /// Cxkk: Vx = random byte & kk.
    Random { register: u8, value: u8 },
    /// Dxyn: draw the n-byte sprite at I at (Vx, Vy), VF = collision.
    Display { register_x: u8, register_y: u8, nibble: u8 },
    /// Ex9E: skip the next instruction if key Vx is held.
    SkipIfKeyIsPressed { register: u8 },
    /// ExA1: skip the next instruction if key Vx is not held.
    SkipIfKeyIsNotPressed { register: u8 },
    /// Fx07: Vx = delay timer.
    SetRegisterToDelayTimer { register: u8 },
    /// Fx0A: wait for a key press and store its code in Vx.
    WaitForKey { register: u8 },
    /// Fx15: delay timer = Vx.
    SetDelayTimer { register: u8 },
    /// Fx18: sound timer = Vx.
    SetSoundTimer { register: u8 },
    /// Fx1E: I = I + Vx.
    AddRegisterToI { register: u8 },
    /// Fx29: I = address of the font glyph for digit Vx.
    SetIToLocationOfSprite { register: u8 },
    /// Fx33: store the decimal digits of Vx at I, I+1, I+2.
    StoreBCD { register: u8 },
    /// Fx55: store V0..=Vx at I onwards.
    StoreRegistersToMemory { to_register: u8 },
    /// Fx65: load V0..=Vx from I onwards.
    LoadRegistersFromMemory { to_register: u8 },
    /// Any word that is not one of the operations above.
    Invalid,
}

/// Bits 12-15 of a word.
pub open spec fn head(w: u16) -> u8 {
    (w / 0x1000) as u8
}

/// Bits 8-11 of a word.
pub open spec fn neck(w: u16) -> u8 {
    (w / 0x100 % 0x10) as u8
}

/// Bits 4-7 of a word.
pub open spec fn body(w: u16) -> u8 {
    (w / 0x10 % 0x10) as u8
}

/// Bits 0-3 of a word.
pub open spec fn tail(w: u16) -> u8 {
    (w % 0x10) as u8
}

/// Bits 0-7 of a word.
pub open spec fn low_byte(w: u16) -> u8 {
    (w % 0x100) as u8
}

/// Bits 0-11 of a word.
pub open spec fn low_address(w: u16) -> u16 {
    (w % 0x1000) as u16
}

/// The canonical CHIP-8 opcode table.
pub open spec fn decoded(w: u16) -> Instruction {
    let (x, y, n, kk, nnn) = (neck(w), body(w), tail(w), low_byte(w), low_address(w));
    if w == 0x00E0 {
        Instruction::Cls
    } else if w == 0x00EE {
        Instruction::Ret
    } else if head(w) == 0x1 {
        Instruction::Jump { location: nnn }
    } else if head(w) == 0x2 {
        Instruction::Call { location: nnn }
    } else if head(w) == 0x3 {
        Instruction::SkipEqualRegisterBytes { register_index: x, bytes: kk }
    } else if head(w) == 0x4 {
        Instruction::SkipNotEqualRegisterBytes { register_index: x, bytes: kk }
    } else if head(w) == 0x5 && n == 0 {
        Instruction::SkipEqualRegisterRegister { register_x: x, register_y: y }
    } else if head(w) == 0x6 {
        Instruction::SetRegisterToBytes { register: x, bytes: kk }
    } else if head(w) == 0x7 {
        Instruction::AddBytesToRegister { register: x, bytes: kk }
    } else if head(w) == 0x8 && n == 0x0 {
        Instruction::SetRegisterToRegister { register_x: x, register_y: y }
    } else if head(w) == 0x8 && n == 0x1 {
        Instruction::BitwiseOr { register_x: x, register_y: y }
    } else if head(w) == 0x8 && n == 0x2 {
        Instruction::BitwiseAnd { register_x: x, register_y: y }
    } else if head(w) == 0x8 && n == 0x3 {
        Instruction::BitwiseXor { register_x: x, register_y: y }
    } else if head(w) == 0x8 && n == 0x4 {
        Instruction::AddRegisterToRegister { register_x: x, register_y: y }
    } else if head(w) == 0x8 && n == 0x5 {
        Instruction::SubtractRegisterToRegister { register_x: x, register_y: y }
    } else if head(w) == 0x8 && n == 0x6 {
        Instruction::LeastSignificantBit { register: x }
    } else if head(w) == 0x8 && n == 0x7 {
        Instruction::SubtractInversed { register_x: x, register_y: y }
    } else if head(w) == 0x8 && n == 0xE {
        Instruction::MostSignificantBit { register: x }
    } else if head(w) == 0x9 && n == 0 {
        Instruction::SkipNotEqualRegisterRegister { register_x: x, register_y: y }
    } else if head(w) == 0xA {
        Instruction::SetI { value: nnn }
    } else if head(w) == 0xB {
        Instruction::JumpToLocationPlusZeroRegister { address: nnn }
    } else if head(w) == 0xC {
        Instruction::Random { register: x, value: kk }
    } else if head(w) == 0xD {
        Instruction::Display { register_x: x, register_y: y, nibble: n }
    } else if head(w) == 0xE && kk == 0x9E {
        Instruction::SkipIfKeyIsPressed { register: x }
    } else if head(w) == 0xE && kk == 0xA1 {
        Instruction::SkipIfKeyIsNotPressed { register: x }
    } else if head(w) == 0xF && kk == 0x07 {
        Instruction::SetRegisterToDelayTimer { register: x }
    } else if head(w) == 0xF && kk == 0x0A {
        Instruction::WaitForKey { register: x }
    } else if head(w) == 0xF && kk == 0x15 {
        Instruction::SetDelayTimer { register: x }
    } else if head(w) == 0xF && kk == 0x18 {
        Instruction::SetSoundTimer { register: x }
    } else if head(w) == 0xF && kk == 0x1E {
        Instruction::AddRegisterToI { register: x }
    } else if head(w) == 0xF && kk == 0x29 {
        Instruction::SetIToLocationOfSprite { register: x }
    } else if head(w) == 0xF && kk == 0x33 {
        Instruction::StoreBCD { register: x }
    } else if head(w) == 0xF && kk == 0x55 {
        Instruction::StoreRegistersToMemory { to_register: x }
    } else if head(w) == 0xF && kk == 0x65 {
        Instruction::LoadRegistersFromMemory { to_register: x }
    } else {
        Instruction::Invalid
    }
}

impl Instruction {
    /// Every operand lies in its field's range: register indices and the
    /// sprite height below 16, addresses below 4096.
    pub open spec fn operands_in_range(self) -> bool {
        match self {
            Instruction::Jump { location } => location < 0x1000,
            Instruction::Call { location } => location < 0x1000,
            Instruction::SkipEqualRegisterBytes { register_index, .. } => register_index < 16,
            Instruction::SkipNotEqualRegisterBytes { register_index, .. } => register_index < 16,
            Instruction::SkipEqualRegisterRegister { register_x, register_y } =>
                register_x < 16 && register_y < 16,
            Instruction::SetRegisterToBytes { register, .. } => register < 16,
            Instruction::AddBytesToRegister { register, .. } => register < 16,
            Instruction::SetRegisterToRegister { register_x, register_y } =>
                register_x < 16 && register_y < 16,
            Instruction::BitwiseOr { register_x, register_y } => register_x < 16 && register_y < 16,
            Instruction::BitwiseAnd { register_x, register_y } => register_x < 16 && register_y < 16,
            Instruction::BitwiseXor { register_x, register_y } => register_x < 16 && register_y < 16,
            Instruction::AddRegisterToRegister { register_x, register_y } =>
                register_x < 16 && register_y < 16,
            Instruction::SubtractRegisterToRegister { register_x, register_y } =>
                register_x < 16 && register_y < 16,
            Instruction::LeastSignificantBit { register } => register < 16,
            Instruction::SubtractInversed { register_x, register_y } =>
                register_x < 16 && register_y < 16,
            Instruction::MostSignificantBit { register } => register < 16,
            Instruction::SkipNotEqualRegisterRegister { register_x, register_y } =>
                register_x < 16 && register_y < 16,
            Instruction::SetI { value } => value < 0x1000,
            Instruction::JumpToLocationPlusZeroRegister { address } => address < 0x1000,
            Instruction::Random { register, .. } => register < 16,
            Instruction::Display { register_x, register_y, nibble } =>
                register_x < 16 && register_y < 16 && nibble < 16,
            Instruction::SkipIfKeyIsPressed { register } => register < 16,
            Instruction::SkipIfKeyIsNotPressed { register } => register < 16,
            Instruction::SetRegisterToDelayTimer { register } => register < 16,
            Instruction::WaitForKey { register } => register < 16,
            Instruction::SetDelayTimer { register } => register < 16,
            Instruction::SetSoundTimer { register } => register < 16,
            Instruction::AddRegisterToI { register } => register < 16,
            Instruction::SetIToLocationOfSprite { register } => register < 16,
            Instruction::StoreBCD { register } => register < 16,
            Instruction::StoreRegistersToMemory { to_register } => to_register < 16,
            Instruction::LoadRegistersFromMemory { to_register } => to_register < 16,
            _ => true,
        }
    }
}

/// Every word decodes to an instruction whose operands lie in their ranges.
pub proof fn lemma_decoded_operands_in_range(w: u16)
    ensures
        decoded(w).operands_in_range(),
{
}

/// Splits a word into its four nibbles.
fn nibbles(word: u16) -> (r: (u8, u8, u8, u8))
    ensures
        r == (head(word), neck(word), body(word), tail(word)),
{
    let h = word >> 12;
    let x = (word >> 8) & 0xF;
    let y = (word >> 4) & 0xF;
    let n = word & 0xF;
    assert(h == word / 0x1000) by (bit_vector)
        requires
            h == word >> 12,
    ;
    assert(x == word / 0x100 % 0x10) by (bit_vector)
        requires
            x == (word >> 8) & 0xF,
    ;
    assert(y == word / 0x10 % 0x10) by (bit_vector)
        requires
            y == (word >> 4) & 0xF,
    ;
    assert(n == word % 0x10) by (bit_vector)
        requires
            n == word & 0xF,
    ;
    (h as u8, x as u8, y as u8, n as u8)
}

/// Decodes one instruction word. Total: a word outside the opcode table
/// decodes to `Instruction::Invalid`.
pub fn decode(instr: u16) -> (r: Instruction)
    ensures
        r == decoded(instr),
        r.operands_in_range(),
{
    let (head, neck, body, tail) = nibbles(instr);
    let bodytail: u8 = (instr & 0xFF) as u8;
    let lower: u16 = instr & 0x0FFF;
    assert(instr & 0xFF == instr % 0x100) by (bit_vector);
    assert(instr & 0x0FFF == instr % 0x1000) by (bit_vector);
    proof {
        lemma_decoded_operands_in_range(instr);
    }
    match head {
        0x0 => {
            if instr == 0x00E0 {
                Instruction::Cls
            } else if instr == 0x00EE {
                Instruction::Ret
            } else {
                Instruction::Invalid
            }
        },
        0x1 => Instruction::Jump { location: lower },
        0x2 => Instruction::Call { location: lower },
        0x3 => Instruction::SkipEqualRegisterBytes { register_index: neck, bytes: bodytail },
        0x4 => Instruction::SkipNotEqualRegisterBytes { register_index: neck, bytes: bodytail },
        0x5 => {
            if tail != 0 {
                Instruction::Invalid
            } else {
                Instruction::SkipEqualRegisterRegister { register_x: neck, register_y: body }
            }
        },
        0x6 => Instruction::SetRegisterToBytes { register: neck, bytes: bodytail },
        0x7 => Instruction::AddBytesToRegister { register: neck, bytes: bodytail },
        0x8 => match tail {
            0x0 => Instruction::SetRegisterToRegister { register_x: neck, register_y: body },
            0x1 => Instruction::BitwiseOr { register_x: neck, register_y: body },
            0x2 => Instruction::BitwiseAnd { register_x: neck, register_y: body },
            0x3 => Instruction::BitwiseXor { register_x: neck, register_y: body },
            0x4 => Instruction::AddRegisterToRegister { register_x: neck, register_y: body },
            0x5 => Instruction::SubtractRegisterToRegister { register_x: neck, register_y: body },
            0x6 => Instruction::LeastSignificantBit { register: neck },
            0x7 => Instruction::SubtractInversed { register_x: neck, register_y: body },
            0xE => Instruction::MostSignificantBit { register: neck },
            _ => Instruction::Invalid,
        },
        0x9 => {
            if tail != 0 {
                Instruction::Invalid
            } else {
                Instruction::SkipNotEqualRegisterRegister { register_x: neck, register_y: body }
            }
        },
        0xA => Instruction::SetI { value: lower },
        0xB => Instruction::JumpToLocationPlusZeroRegister { address: lower },
        0xC => Instruction::Random { register: neck, value: bodytail },
        0xD => Instruction::Display { register_x: neck, register_y: body, nibble: tail },
        0xE => match bodytail {
            0x9E => Instruction::SkipIfKeyIsPressed { register: neck },
            0xA1 => Instruction::SkipIfKeyIsNotPressed { register: neck },
            _ => Instruction::Invalid,
        },
        _ => match bodytail {
            0x07 => Instruction::SetRegisterToDelayTimer { register: neck },
            0x0A => Instruction::WaitForKey { register: neck },
            0x15 => Instruction::SetDelayTimer { register: neck },
            0x18 => Instruction::SetSoundTimer { register: neck },
            0x1E => Instruction::AddRegisterToI { register: neck },
            0x29 => Instruction::SetIToLocationOfSprite { register: neck },
            0x33 => Instruction::StoreBCD { register: neck },
            0x55 => Instruction::StoreRegistersToMemory { to_register: neck },
            0x65 => Instruction::LoadRegistersFromMemory { to_register: neck },
            _ => Instruction::Invalid,
        },
    }
}

} // verus!
