use vstd::prelude::*;

verus! {

/// The four nibbles of an instruction word, most significant first, and the
/// 12-bit address formed by its low three nibbles.
#[derive(Clone, Copy, Debug, PartialEq, Eq, Structural)]
pub struct Nibbles {
    pub c: u8,
    pub x: u8,
    pub y: u8,
    pub d: u8,
    pub nnn: u16,
}

/// What an instruction word asks the processor to do.
#[derive(Clone, Copy, Debug, PartialEq, Eq, Structural)]
pub enum Instruction {
    /// `0x0000`: stop the run.
    Halt,
    /// `0x00EE`: pop a return address into the program counter.
    Return,
    /// `0x2nnn`: push the program counter and jump to `nnn`.
    Call(u16),
    /// `0x8xy4`: add register `y` into register `x`, carry into register 15.
    AddXY(u8, u8),
    /// Any other word.
    Unimplemented(u16),
}

/// The nibbles of `word`, stated arithmetically.
pub open spec fn nibbles_of(word: u16) -> Nibbles {
    Nibbles {
        c: (word / 4096) as u8,
        x: ((word / 256) % 16) as u8,
        y: ((word / 16) % 16) as u8,
        d: (word % 16) as u8,
        nnn: word % 4096,
    }
}

/// The instruction that `word` encodes.
pub open spec fn instruction_of(word: u16) -> Instruction {
    let n = nibbles_of(word);
    if n.c == 0 && n.x == 0 && n.y == 0 && n.d == 0 {
        Instruction::Halt
    } else if n.c == 0 && n.x == 0 && n.y == 0xE && n.d == 0xE {
        Instruction::Return
    } else if n.c == 0x2 {
        Instruction::Call(n.nnn)
    } else if n.c == 0x8 && n.d == 0x4 {
        Instruction::AddXY(n.x, n.y)
    } else {
        Instruction::Unimplemented(word)
    }
}

/// Splits an instruction word into its nibbles and its address field.
pub fn decode(word: u16) -> (r: Nibbles)
    ensures
        r == nibbles_of(word),
        r.c < 16 && r.x < 16 && r.y < 16 && r.d < 16 && r.nnn < 4096,
{
    let c = (word & 0xF000) >> 12;
    let x = (word & 0x0F00) >> 8;
    let y = (word & 0x00F0) >> 4;
    let d = word & 0x000F;
    let nnn = word & 0x0FFF;
    assert(c == word / 4096) by (bit_vector)
        requires c == (word & 0xF000) >> 12;
    assert(x == (word / 256) % 16) by (bit_vector)
        requires x == (word & 0x0F00) >> 8;
    assert(y == (word / 16) % 16) by (bit_vector)
        requires y == (word & 0x00F0) >> 4;
    assert(d == word % 16) by (bit_vector)
        requires d == word & 0x000F;
    assert(nnn == word % 4096) by (bit_vector)
        requires nnn == word & 0x0FFF;
    Nibbles { c: c as u8, x: x as u8, y: y as u8, d: d as u8, nnn }
}

/// Decodes `word` and dispatches on its nibbles.
pub fn classify(word: u16) -> (r: Instruction)
    ensures
        r == instruction_of(word),
{
    let n = decode(word);
    match (n.c, n.x, n.y, n.d) {
        (0, 0, 0, 0) => Instruction::Halt,
        (0, 0, 0xE, 0xE) => Instruction::Return,
        (0x2, _, _, _) => Instruction::Call(n.nnn),
        (0x8, _, _, 0x4) => Instruction::AddXY(n.x, n.y),
        _ => Instruction::Unimplemented(word),
    }
}

} // verus!
