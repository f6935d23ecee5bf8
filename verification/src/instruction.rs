//! The instruction set and its decoding from 16-bit words.
use vstd::prelude::*;

verus! {

/// One decoded instruction.
///
/// `x` and `y` name registers, `n` is a nibble, `byte` the low byte of the
/// word and `addr` its low twelve bits.
#[derive(Clone, Copy, Debug, PartialEq, Eq, Structural)]
pub enum Instruction {
    /// `00E0`: turn every pixel off.
    ClearScreen,
    /// `00EE`: return from a subroutine.
    Return,
    /// `1nnn`: jump to `addr`.
    Jump { addr: u16 },
    /// `2nnn`: call the subroutine at `addr`.
    Call { addr: u16 },
    /// `3xkk`: skip the next instruction if `Vx == byte`.
    SkipIfEqual { x: u8, byte: u8 },
    /// `4xkk`: skip the next instruction if `Vx != byte`.
    SkipIfNotEqual { x: u8, byte: u8 },
    /// `5xy0`: skip the next instruction if `Vx == Vy`.
    SkipIfRegistersEqual { x: u8, y: u8 },
    /// `6xkk`: `Vx := byte`.
    Load { x: u8, byte: u8 },
    /// `7xkk`: `Vx := Vx + byte`, wrapping, flag untouched.
    Add { x: u8, byte: u8 },
    /// `8xy0`: `Vx := Vy`.
    Move { x: u8, y: u8 },
    /// `8xy1`: `Vx := Vx | Vy`, flag cleared.
    Or { x: u8, y: u8 },
    /// `8xy2`: `Vx := Vx & Vy`, flag cleared.
    And { x: u8, y: u8 },
    /// `8xy3`: `Vx := Vx ^ Vy`, flag cleared.
    Xor { x: u8, y: u8 },
    /// `8xy4`: `Vx := Vx + Vy`, flag set on carry.
    AddRegisters { x: u8, y: u8 },
    /// `8xy5`: `Vx := Vx - Vy`, flag set when nothing was borrowed.
    Subtract { x: u8, y: u8 },
    /// `8xy6`: `Vx := Vy >> 1`, flag set to the bit shifted out.
    ShiftRight { x: u8, y: u8 },
    /// `8xy7`: `Vx := Vy - Vx`, flag set when nothing was borrowed.
    SubtractFrom { x: u8, y: u8 },
    /// `8xyE`: `Vx := Vy << 1`, flag set to the bit shifted out.
    ShiftLeft { x: u8, y: u8 },
    /// `9xy0`: skip the next instruction if `Vx != Vy`.
    SkipIfRegistersNotEqual { x: u8, y: u8 },
    /// `Annn`: `I := addr`.
    LoadIndex { addr: u16 },
    /// `Bnnn`: jump to `addr + V0`.
    JumpOffset { addr: u16 },
    /// `Cxkk`: `Vx := random & byte`.
    Random { x: u8, byte: u8 },
    /// `Dxyn`: draw the `n`-row sprite at `I` at position `(Vx, Vy)`.
    Draw { x: u8, y: u8, n: u8 },
    /// `Ex9E`: skip the next instruction if key `Vx` is pressed.
    SkipIfKey { x: u8 },
    /// `ExA1`: skip the next instruction if key `Vx` is not pressed.
    SkipIfNotKey { x: u8 },
    /// `Fx07`: `Vx := delay timer`.
    ReadDelay { x: u8 },
    /// `Fx0A`: wait for a key and store its code in `Vx`.
    WaitKey { x: u8 },
    /// `Fx15`: `delay timer := Vx`.
    SetDelay { x: u8 },
    /// `Fx18`: `sound timer := Vx`.
    SetSound { x: u8 },
    /// `Fx1E`: `I := I + Vx`, kept to twelve bits.
    AddIndex { x: u8 },
    /// `Fx29`: `I :=` address of the glyph for the low nibble of `Vx`.
    Glyph { x: u8 },
    /// `Fx33`: store the three decimal digits of `Vx` at `I`, `I+1`, `I+2`.
    StoreDecimal { x: u8 },
    /// `Fx55`: store `V0..=Vx` at `I`, then `I := I + x + 1`.
    StoreRegisters { x: u8 },
    /// `Fx65`: load `V0..=Vx` from `I`, then `I := I + x + 1`.
    LoadRegisters { x: u8 },
    /// Any other word: it has no effect.
    Unknown { word: u16 },
}

impl Instruction {
    /// The register operands are below 16, the nibble too, and the address
    /// below 4096.
    pub open spec fn wf(self) -> bool {
        match self {
            Instruction::ClearScreen | Instruction::Return | Instruction::Unknown { .. } => true,
            Instruction::Jump { addr }
            | Instruction::Call { addr }
            | Instruction::LoadIndex { addr }
            | Instruction::JumpOffset { addr } => addr < 0x1000,
            Instruction::SkipIfEqual { x, .. }
            | Instruction::SkipIfNotEqual { x, .. }
            | Instruction::Load { x, .. }
            | Instruction::Add { x, .. }
            | Instruction::Random { x, .. }
            | Instruction::SkipIfKey { x }
            | Instruction::SkipIfNotKey { x }
            | Instruction::ReadDelay { x }
            | Instruction::WaitKey { x }
            | Instruction::SetDelay { x }
            | Instruction::SetSound { x }
            | Instruction::AddIndex { x }
            | Instruction::Glyph { x }
            | Instruction::StoreDecimal { x }
            | Instruction::StoreRegisters { x }
            | Instruction::LoadRegisters { x } => x < 16,
            Instruction::SkipIfRegistersEqual { x, y }
            | Instruction::Move { x, y }
            | Instruction::Or { x, y }
            | Instruction::And { x, y }
            | Instruction::Xor { x, y }
            | Instruction::AddRegisters { x, y }
            | Instruction::Subtract { x, y }
            | Instruction::ShiftRight { x, y }
            | Instruction::SubtractFrom { x, y }
            | Instruction::ShiftLeft { x, y }
            | Instruction::SkipIfRegistersNotEqual { x, y } => x < 16 && y < 16,
            Instruction::Draw { x, y, n } => x < 16 && y < 16 && n < 16,
        }
    }

    /// The instruction that a word encodes. The word is read as four
    /// hexadecimal digits `o x y n`; `byte` is its low two digits and `addr`
    /// its low three.
    pub open spec fn of_word(word: u16) -> Instruction {
        let o = word / 0x1000;
        let x = (word / 0x100 % 0x10) as u8;
        let y = (word / 0x10 % 0x10) as u8;
        let n = (word % 0x10) as u8;
        let byte = (word % 0x100) as u8;
        let addr = word % 0x1000;
        if word == 0x00E0 {
            Instruction::ClearScreen
        } else if word == 0x00EE {
            Instruction::Return
        } else if o == 0x1 {
            Instruction::Jump { addr }
        } else if o == 0x2 {
            Instruction::Call { addr }
        } else if o == 0x3 {
            Instruction::SkipIfEqual { x, byte }
        } else if o == 0x4 {
            Instruction::SkipIfNotEqual { x, byte }
        } else if o == 0x5 && n == 0x0 {
            Instruction::SkipIfRegistersEqual { x, y }
        } else if o == 0x6 {
            Instruction::Load { x, byte }
        } else if o == 0x7 {
            Instruction::Add { x, byte }
        } else if o == 0x8 && n == 0x0 {
            Instruction::Move { x, y }
        } else if o == 0x8 && n == 0x1 {
            Instruction::Or { x, y }
        } else if o == 0x8 && n == 0x2 {
            Instruction::And { x, y }
        } else if o == 0x8 && n == 0x3 {
            Instruction::Xor { x, y }
        } else if o == 0x8 && n == 0x4 {
            Instruction::AddRegisters { x, y }
        } else if o == 0x8 && n == 0x5 {
            Instruction::Subtract { x, y }
        } else if o == 0x8 && n == 0x6 {
            Instruction::ShiftRight { x, y }
        } else if o == 0x8 && n == 0x7 {
            Instruction::SubtractFrom { x, y }
        } else if o == 0x8 && n == 0xE {
            Instruction::ShiftLeft { x, y }
        } else if o == 0x9 && n == 0x0 {
            Instruction::SkipIfRegistersNotEqual { x, y }
        } else if o == 0xA {
            Instruction::LoadIndex { addr }
        } else if o == 0xB {
            Instruction::JumpOffset { addr }
        } else if o == 0xC {
            Instruction::Random { x, byte }
        } else if o == 0xD {
            Instruction::Draw { x, y, n }
        } else if o == 0xE && byte == 0x9E {
            Instruction::SkipIfKey { x }
        } else if o == 0xE && byte == 0xA1 {
            Instruction::SkipIfNotKey { x }
        } else if o == 0xF && byte == 0x07 {
            Instruction::ReadDelay { x }
        } else if o == 0xF && byte == 0x0A {
            Instruction::WaitKey { x }
        } else if o == 0xF && byte == 0x15 {
            Instruction::SetDelay { x }
        } else if o == 0xF && byte == 0x18 {
            Instruction::SetSound { x }
        } else if o == 0xF && byte == 0x1E {
            Instruction::AddIndex { x }
        } else if o == 0xF && byte == 0x29 {
            Instruction::Glyph { x }
        } else if o == 0xF && byte == 0x33 {
            Instruction::StoreDecimal { x }
        } else if o == 0xF && byte == 0x55 {
            Instruction::StoreRegisters { x }
        } else if o == 0xF && byte == 0x65 {
            Instruction::LoadRegisters { x }
        } else {
            Instruction::Unknown { word }
        }
    }

    /// Whether the instruction consumes the random byte.
    pub open spec fn uses_random(self) -> bool {
        self is Random
    }

    /// Decodes one word.
    pub fn decode(word: u16) -> (ins: Instruction)
        ensures
            ins == Instruction::of_word(word),
            ins.wf(),
    {
        let o: u16 = (word & 0xF000) >> 12;
        let x: u8 = ((word & 0x0F00) >> 8) as u8;
        let y: u8 = ((word & 0x00F0) >> 4) as u8;
        let n: u8 = (word & 0x000F) as u8;
        let byte: u8 = (word & 0x00FF) as u8;
        let addr: u16 = word & 0x0FFF;
        proof {
            assert((word & 0xF000) >> 12 == word / 0x1000) by (bit_vector);
            assert((word & 0x0F00) >> 8 == word / 0x100 % 0x10) by (bit_vector);
            assert((word & 0x00F0) >> 4 == word / 0x10 % 0x10) by (bit_vector);
            assert(word & 0x000F == word % 0x10) by (bit_vector);
            assert(word & 0x00FF == word % 0x100) by (bit_vector);
            assert(word & 0x0FFF == word % 0x1000) by (bit_vector);
        }
        match (o, x, y, n) {
            (0x0, 0x0, 0xE, 0x0) => Instruction::ClearScreen,
            (0x0, 0x0, 0xE, 0xE) => Instruction::Return,
            (0x1, _, _, _) => Instruction::Jump { addr },
            (0x2, _, _, _) => Instruction::Call { addr },
            (0x3, _, _, _) => Instruction::SkipIfEqual { x, byte },
            (0x4, _, _, _) => Instruction::SkipIfNotEqual { x, byte },
            (0x5, _, _, 0x0) => Instruction::SkipIfRegistersEqual { x, y },
            (0x6, _, _, _) => Instruction::Load { x, byte },
            (0x7, _, _, _) => Instruction::Add { x, byte },
            (0x8, _, _, 0x0) => Instruction::Move { x, y },
            (0x8, _, _, 0x1) => Instruction::Or { x, y },
            (0x8, _, _, 0x2) => Instruction::And { x, y },
            (0x8, _, _, 0x3) => Instruction::Xor { x, y },
            (0x8, _, _, 0x4) => Instruction::AddRegisters { x, y },
            (0x8, _, _, 0x5) => Instruction::Subtract { x, y },
            (0x8, _, _, 0x6) => Instruction::ShiftRight { x, y },
            (0x8, _, _, 0x7) => Instruction::SubtractFrom { x, y },
            (0x8, _, _, 0xE) => Instruction::ShiftLeft { x, y },
            (0x9, _, _, 0x0) => Instruction::SkipIfRegistersNotEqual { x, y },
            (0xA, _, _, _) => Instruction::LoadIndex { addr },
            (0xB, _, _, _) => Instruction::JumpOffset { addr },
            (0xC, _, _, _) => Instruction::Random { x, byte },
            (0xD, _, _, _) => Instruction::Draw { x, y, n },
            (0xE, _, 0x9, 0xE) => Instruction::SkipIfKey { x },
            (0xE, _, 0xA, 0x1) => Instruction::SkipIfNotKey { x },
            (0xF, _, 0x0, 0x7) => Instruction::ReadDelay { x },
            (0xF, _, 0x0, 0xA) => Instruction::WaitKey { x },
            (0xF, _, 0x1, 0x5) => Instruction::SetDelay { x },
            (0xF, _, 0x1, 0x8) => Instruction::SetSound { x },
            (0xF, _, 0x1, 0xE) => Instruction::AddIndex { x },
            (0xF, _, 0x2, 0x9) => Instruction::Glyph { x },
            (0xF, _, 0x3, 0x3) => Instruction::StoreDecimal { x },
            (0xF, _, 0x5, 0x5) => Instruction::StoreRegisters { x },
            (0xF, _, 0x6, 0x5) => Instruction::LoadRegisters { x },
            _ => Instruction::Unknown { word },
        }
    }
}

} // verus!
