use vstd::prelude::*;

verus! {

/// One decoded operation with its operands.
///
/// `x` and `y` name registers, `nn` is an 8-bit immediate, `addr` a 12-bit
/// address and `n` a sprite height.
#[derive(Clone, Copy, Debug, PartialEq, Eq, Structural)]
pub enum Instruction {
    /// `00E0`: clear the display.
    ClearScreen,
    /// `00EE`: return from a subroutine.
    Return,
    /// `1nnn`: jump to `addr`.
    Jump { addr: u16 },
    /// `2nnn`: call the subroutine at `addr`.
    Call { addr: u16 },
    /// `3xnn`: skip the next instruction if `Vx == nn`.
    SkipEqImm { x: u8, nn: u8 },
    /// `4xnn`: skip the next instruction if `Vx != nn`.
    SkipNeImm { x: u8, nn: u8 },
    /// `5xy0`: skip the next instruction if `Vx == Vy`.
    SkipEqReg { x: u8, y: u8 },
    /// `6xnn`: `Vx = nn`.
    LoadImm { x: u8, nn: u8 },
    /// `7xnn`: `Vx = Vx + nn` modulo 256, flag untouched.
    AddImm { x: u8, nn: u8 },
    /// `8xy0`: `Vx = Vy`.
    Move { x: u8, y: u8 },
    /// `8xy1`: `Vx = Vx | Vy`.
    Or { x: u8, y: u8 },
    /// `8xy2`: `Vx = Vx & Vy`.
    And { x: u8, y: u8 },
    /// `8xy3`: `Vx = Vx ^ Vy`.
    Xor { x: u8, y: u8 },
    /// `8xy4`: `Vx = Vx + Vy` modulo 256, `VF` = carry.
    Add { x: u8, y: u8 },
    /// `8xy5`: `Vx = Vx - Vy` modulo 256, `VF` = no borrow.
    Sub { x: u8, y: u8 },
    /// `8xy6`: `Vx = Vx / 2`, `VF` = the low bit shifted out.
    Shr { x: u8, y: u8 },
    /// `8xy7`: `Vx = Vy - Vx` modulo 256, `VF` = no borrow.
    SubN { x: u8, y: u8 },
    /// `8xyE`: `Vx = Vx * 2` modulo 256, `VF` = the high bit shifted out.
    Shl { x: u8, y: u8 },
    /// `9xy0`: skip the next instruction if `Vx != Vy`.
    SkipNeReg { x: u8, y: u8 },
    /// `Annn`: index register = `addr`.
    LoadIndex { addr: u16 },
    /// `Bnnn`: jump to `V0 + addr`.
    JumpOffset { addr: u16 },
    /// `Cxnn`: `Vx` = a random byte masked with `nn`.
    Random { x: u8, nn: u8 },
    /// `Dxyn`: draw the `n`-row sprite at the index register at `(Vx, Vy)`.
    Draw { x: u8, y: u8, n: u8 },
    /// `Ex9E`: skip the next instruction if the key named by `Vx` is down.
    SkipKey { x: u8 },
    /// `ExA1`: skip the next instruction if the key named by `Vx` is up.
    SkipNoKey { x: u8 },
    /// `Fx07`: `Vx` = delay timer.
    LoadDelay { x: u8 },
    /// `Fx0A`: wait until a key is down, then `Vx` = its index.
    WaitKey { x: u8 },
    /// `Fx15`: delay timer = `Vx`.
    SetDelay { x: u8 },
    /// `Fx18`: sound timer = `Vx`.
    SetSound { x: u8 },
    /// `Fx1E`: index register = index register + `Vx`.
    AddIndex { x: u8 },
    /// `Fx29`: index register = address of the glyph for `Vx`.
    FontAddr { x: u8 },
    /// `Fx33`: store the three decimal digits of `Vx` at the index register.
    StoreBcd { x: u8 },
    /// `Fx55`: store `V0..=Vx` at the index register.
    StoreRegs { x: u8 },
    /// `Fx65`: load `V0..=Vx` from the index register.
    LoadRegs { x: u8 },
}

/// The six operand fields an instruction word can be read as.
pub struct Fields {
    /// The first (most significant) nibble, which selects the family.
    pub kind: u8,
    /// The second nibble.
    pub x: u8,
    /// The third nibble.
    pub y: u8,
    /// The fourth (least significant) nibble.
    pub n: u8,
    /// The low byte.
    pub nn: u8,
    /// The low twelve bits.
    pub addr: u16,
}

/// The fields of `word`, by place value.
pub open spec fn fields_of(word: u16) -> Fields {
    Fields {
        kind: (word / 0x1000) as u8,
        x: (word / 0x100 % 0x10) as u8,
        y: (word / 0x10 % 0x10) as u8,
        n: (word % 0x10) as u8,
        nn: (word % 0x100) as u8,
        addr: word % 0x1000,
    }
}

/// The register-to-register operation `8xyN` with sub-opcode `n`, if any.
pub open spec fn alu_of(x: u8, y: u8, n: u8) -> Option<Instruction> {
    if n == 0x0 {
        Some(Instruction::Move { x, y })
    } else if n == 0x1 {
        Some(Instruction::Or { x, y })
    } else if n == 0x2 {
        Some(Instruction::And { x, y })
    } else if n == 0x3 {
        Some(Instruction::Xor { x, y })
    } else if n == 0x4 {
        Some(Instruction::Add { x, y })
    } else if n == 0x5 {
        Some(Instruction::Sub { x, y })
    } else if n == 0x6 {
        Some(Instruction::Shr { x, y })
    } else if n == 0x7 {
        Some(Instruction::SubN { x, y })
    } else if n == 0xE {
        Some(Instruction::Shl { x, y })
    } else {
        None
    }
}

/// The operation `FxNN` with low byte `nn`, if any.
pub open spec fn misc_of(x: u8, nn: u8) -> Option<Instruction> {
    if nn == 0x07 {
        Some(Instruction::LoadDelay { x })
    } else if nn == 0x0A {
        Some(Instruction::WaitKey { x })
    } else if nn == 0x15 {
        Some(Instruction::SetDelay { x })
    } else if nn == 0x18 {
        Some(Instruction::SetSound { x })
    } else if nn == 0x1E {
        Some(Instruction::AddIndex { x })
    } else if nn == 0x29 {
        Some(Instruction::FontAddr { x })
    } else if nn == 0x33 {
        Some(Instruction::StoreBcd { x })
    } else if nn == 0x55 {
        Some(Instruction::StoreRegs { x })
    } else if nn == 0x65 {
        Some(Instruction::LoadRegs { x })
    } else {
        None
    }
}

/// The operation that `word` encodes, or `None` where it matches no opcode
/// pattern.
pub open spec fn decode_spec(word: u16) -> Option<Instruction> {
    let f = fields_of(word);
    if word == 0x00E0 {
        Some(Instruction::ClearScreen)
    } else if word == 0x00EE {
        Some(Instruction::Return)
    } else if f.kind == 0x1 {
        Some(Instruction::Jump { addr: f.addr })
    } else if f.kind == 0x2 {
        Some(Instruction::Call { addr: f.addr })
    } else if f.kind == 0x3 {
        Some(Instruction::SkipEqImm { x: f.x, nn: f.nn })
    } else if f.kind == 0x4 {
        Some(Instruction::SkipNeImm { x: f.x, nn: f.nn })
    } else if f.kind == 0x5 && f.n == 0 {
        Some(Instruction::SkipEqReg { x: f.x, y: f.y })
    } else if f.kind == 0x6 {
        Some(Instruction::LoadImm { x: f.x, nn: f.nn })
    } else if f.kind == 0x7 {
        Some(Instruction::AddImm { x: f.x, nn: f.nn })
    } else if f.kind == 0x8 {
        alu_of(f.x, f.y, f.n)
    } else if f.kind == 0x9 && f.n == 0 {
        Some(Instruction::SkipNeReg { x: f.x, y: f.y })
    } else if f.kind == 0xA {
        Some(Instruction::LoadIndex { addr: f.addr })
    } else if f.kind == 0xB {
        Some(Instruction::JumpOffset { addr: f.addr })
    } else if f.kind == 0xC {
        Some(Instruction::Random { x: f.x, nn: f.nn })
    } else if f.kind == 0xD {
        Some(Instruction::Draw { x: f.x, y: f.y, n: f.n })
    } else if f.kind == 0xE && f.nn == 0x9E {
        Some(Instruction::SkipKey { x: f.x })
    } else if f.kind == 0xE && f.nn == 0xA1 {
        Some(Instruction::SkipNoKey { x: f.x })
    } else if f.kind == 0xF {
        misc_of(f.x, f.nn)
    } else {
        None
    }
}

impl Instruction {
    /// Every operand lies in the range its field of the instruction word can
    /// hold: register numbers and sprite heights below 16, addresses below
    /// 0x1000.
    pub open spec fn wf(self) -> bool {
        match self {
            Instruction::ClearScreen | Instruction::Return => true,
            Instruction::Jump { addr }
            | Instruction::Call { addr }
            | Instruction::LoadIndex { addr }
            | Instruction::JumpOffset { addr } => addr < 0x1000,
            Instruction::SkipEqImm { x, nn }
            | Instruction::SkipNeImm { x, nn }
            | Instruction::LoadImm { x, nn }
            | Instruction::AddImm { x, nn }
            | Instruction::Random { x, nn } => x < 16,
            Instruction::SkipEqReg { x, y }
            | Instruction::Move { x, y }
            | Instruction::Or { x, y }
            | Instruction::And { x, y }
            | Instruction::Xor { x, y }
            | Instruction::Add { x, y }
            | Instruction::Sub { x, y }
            | Instruction::Shr { x, y }
            | Instruction::SubN { x, y }
            | Instruction::Shl { x, y }
            | Instruction::SkipNeReg { x, y } => x < 16 && y < 16,
            Instruction::Draw { x, y, n } => x < 16 && y < 16 && n < 16,
            Instruction::SkipKey { x }
            | Instruction::SkipNoKey { x }
            | Instruction::LoadDelay { x }
            | Instruction::WaitKey { x }
            | Instruction::SetDelay { x }
            | Instruction::SetSound { x }
            | Instruction::AddIndex { x }
            | Instruction::FontAddr { x }
            | Instruction::StoreBcd { x }
            | Instruction::StoreRegs { x }
            | Instruction::LoadRegs { x } => x < 16,
        }
    }

    /// The instruction word that encodes this operation. The register
    /// operations that ignore `y` (the shifts) still carry it in the word.
    pub open spec fn encoding(self) -> int {
        match self {
            Instruction::ClearScreen => 0x00E0,
            Instruction::Return => 0x00EE,
            Instruction::Jump { addr } => 0x1000 + addr,
            Instruction::Call { addr } => 0x2000 + addr,
            Instruction::SkipEqImm { x, nn } => 0x3000 + 0x100 * x + nn,
            Instruction::SkipNeImm { x, nn } => 0x4000 + 0x100 * x + nn,
            Instruction::SkipEqReg { x, y } => 0x5000 + 0x100 * x + 0x10 * y,
            Instruction::LoadImm { x, nn } => 0x6000 + 0x100 * x + nn,
            Instruction::AddImm { x, nn } => 0x7000 + 0x100 * x + nn,
            Instruction::Move { x, y } => 0x8000 + 0x100 * x + 0x10 * y,
            Instruction::Or { x, y } => 0x8001 + 0x100 * x + 0x10 * y,
            Instruction::And { x, y } => 0x8002 + 0x100 * x + 0x10 * y,
            Instruction::Xor { x, y } => 0x8003 + 0x100 * x + 0x10 * y,
            Instruction::Add { x, y } => 0x8004 + 0x100 * x + 0x10 * y,
            Instruction::Sub { x, y } => 0x8005 + 0x100 * x + 0x10 * y,
            Instruction::Shr { x, y } => 0x8006 + 0x100 * x + 0x10 * y,
            Instruction::SubN { x, y } => 0x8007 + 0x100 * x + 0x10 * y,
            Instruction::Shl { x, y } => 0x800E + 0x100 * x + 0x10 * y,
            Instruction::SkipNeReg { x, y } => 0x9000 + 0x100 * x + 0x10 * y,
            Instruction::LoadIndex { addr } => 0xA000 + addr,
            Instruction::JumpOffset { addr } => 0xB000 + addr,
            Instruction::Random { x, nn } => 0xC000 + 0x100 * x + nn,
            Instruction::Draw { x, y, n } => 0xD000 + 0x100 * x + 0x10 * y + n,
            Instruction::SkipKey { x } => 0xE09E + 0x100 * x,
            Instruction::SkipNoKey { x } => 0xE0A1 + 0x100 * x,
            Instruction::LoadDelay { x } => 0xF007 + 0x100 * x,
            Instruction::WaitKey { x } => 0xF00A + 0x100 * x,
            Instruction::SetDelay { x } => 0xF015 + 0x100 * x,
            Instruction::SetSound { x } => 0xF018 + 0x100 * x,
            Instruction::AddIndex { x } => 0xF01E + 0x100 * x,
            Instruction::FontAddr { x } => 0xF029 + 0x100 * x,
            Instruction::StoreBcd { x } => 0xF033 + 0x100 * x,
            Instruction::StoreRegs { x } => 0xF055 + 0x100 * x,
            Instruction::LoadRegs { x } => 0xF065 + 0x100 * x,
        }
    }
}

/// A word is the sum of its four nibbles, each at its place value.
proof fn lemma_word_is_sum_of_nibbles(w: u16)
    by (bit_vector)
    ensures
        w == 0x1000 * (w / 0x1000) + 0x100 * (w / 0x100 % 0x10) + 0x10 * (w / 0x10 % 0x10) + w
            % 0x10,
        w % 0x100 == 0x10 * (w / 0x10 % 0x10) + w % 0x10,
        w % 0x1000 == 0x100 * (w / 0x100 % 0x10) + 0x10 * (w / 0x10 % 0x10) + w % 0x10,
        w / 0x1000 < 0x10,
{
}

/// The place values of a word put together from four nibbles.
proof fn lemma_fields_of_nibbles(w: u16, kind: u16, x: u16, y: u16, n: u16)
    by (bit_vector)
    requires
        kind < 0x10,
        x < 0x10,
        y < 0x10,
        n < 0x10,
        w == 0x1000 * kind + 0x100 * x + 0x10 * y + n,
    ensures
        w / 0x1000 == kind,
        w / 0x100 % 0x10 == x,
        w / 0x10 % 0x10 == y,
        w % 0x10 == n,
{
}

/// The place values of a word put together from two nibbles and a byte.
proof fn lemma_fields_of_byte(w: u16, kind: u16, x: u16, nn: u16)
    by (bit_vector)
    requires
        kind < 0x10,
        x < 0x10,
        nn < 0x100,
        w == 0x1000 * kind + 0x100 * x + nn,
    ensures
        w / 0x1000 == kind,
        w / 0x100 % 0x10 == x,
        w % 0x100 == nn,
{
}

/// The place values of a word put together from a nibble and an address.
proof fn lemma_fields_of_addr(w: u16, kind: u16, addr: u16)
    by (bit_vector)
    requires
        kind < 0x10,
        addr < 0x1000,
        w == 0x1000 * kind + addr,
    ensures
        w / 0x1000 == kind,
        w % 0x1000 == addr,
{
}

/// A word that decodes to an operation is that operation's encoding.
pub proof fn lemma_decode_sound(word: u16)
    ensures
        decode_spec(word) matches Some(op) ==> op.wf() && op.encoding() == word,
{
    lemma_word_is_sum_of_nibbles(word);
}

/// Every well-formed operation is what its encoding decodes to.
pub proof fn lemma_decode_complete(op: Instruction)
    requires
        op.wf(),
    ensures
        0 <= op.encoding() <= 0xFFFF,
        decode_spec(op.encoding() as u16) == Some(op),
{
    let w = op.encoding() as u16;
    match op {
        Instruction::ClearScreen | Instruction::Return => {},
        Instruction::Jump { addr }
        | Instruction::Call { addr }
        | Instruction::LoadIndex { addr }
        | Instruction::JumpOffset { addr } => {
            let kind = ((w - addr) / 0x1000) as u16;
            lemma_fields_of_addr(w, kind, addr);
        },
        Instruction::SkipEqImm { x, nn }
        | Instruction::SkipNeImm { x, nn }
        | Instruction::LoadImm { x, nn }
        | Instruction::AddImm { x, nn }
        | Instruction::Random { x, nn } => {
            let kind = ((w - 0x100 * x - nn) / 0x1000) as u16;
            lemma_fields_of_byte(w, kind, x as u16, nn as u16);
        },
        Instruction::SkipEqReg { x, y } | Instruction::SkipNeReg { x, y } => {
            let kind = ((w - 0x100 * x - 0x10 * y) / 0x1000) as u16;
            lemma_fields_of_nibbles(w, kind, x as u16, y as u16, 0);
        },
        Instruction::Move { x, y }
        | Instruction::Or { x, y }
        | Instruction::And { x, y }
        | Instruction::Xor { x, y }
        | Instruction::Add { x, y }
        | Instruction::Sub { x, y }
        | Instruction::Shr { x, y }
        | Instruction::SubN { x, y }
        | Instruction::Shl { x, y } => {
            let n = (w - 0x8000 - 0x100 * x - 0x10 * y) as u16;
            lemma_fields_of_nibbles(w, 0x8, x as u16, y as u16, n);
        },
        Instruction::Draw { x, y, n } => {
            lemma_fields_of_nibbles(w, 0xD, x as u16, y as u16, n as u16);
        },
        Instruction::SkipKey { x } | Instruction::SkipNoKey { x } => {
            let nn = (w - 0xE000 - 0x100 * x) as u16;
            lemma_fields_of_byte(w, 0xE, x as u16, nn);
        },
        Instruction::LoadDelay { x }
        | Instruction::WaitKey { x }
        | Instruction::SetDelay { x }
        | Instruction::SetSound { x }
        | Instruction::AddIndex { x }
        | Instruction::FontAddr { x }
        | Instruction::StoreBcd { x }
        | Instruction::StoreRegs { x }
        | Instruction::LoadRegs { x } => {
            let nn = (w - 0xF000 - 0x100 * x) as u16;
            lemma_fields_of_byte(w, 0xF, x as u16, nn);
        },
    }
}

/// Splits the instruction word into its four nibbles and finds the operation
/// they select.
pub fn decode(word: u16) -> (r: Option<Instruction>)
    ensures
        r == decode_spec(word),
        r matches Some(op) ==> op.wf(),
{
    let kind: u8 = ((word & 0xF000) >> 12) as u8;
    let x: u8 = ((word & 0x0F00) >> 8) as u8;
    let y: u8 = ((word & 0x00F0) >> 4) as u8;
    let n: u8 = (word & 0x000F) as u8;
    let nn: u8 = (y << 4) | n;
    let addr: u16 = word & 0x0FFF;
    proof {
        assert((word & 0xF000) >> 12 == word / 0x1000) by (bit_vector);
        assert((word & 0x0F00) >> 8 == word / 0x100 % 0x10) by (bit_vector);
        assert((word & 0x00F0) >> 4 == word / 0x10 % 0x10) by (bit_vector);
        assert(word & 0x000F == word % 0x10) by (bit_vector);
        assert(word & 0x0FFF == word % 0x1000) by (bit_vector);
        assert((y << 4) | n == 0x10 * y + n) by (bit_vector)
            requires
                y < 16,
                n < 16,
        ;
        lemma_decode_wf(word);
    }
    match (kind, x, y, n) {
        (0x0, 0x0, 0xE, 0x0) => Some(Instruction::ClearScreen),
        (0x0, 0x0, 0xE, 0xE) => Some(Instruction::Return),
        (0x1, _, _, _) => Some(Instruction::Jump { addr }),
        (0x2, _, _, _) => Some(Instruction::Call { addr }),
        (0x3, _, _, _) => Some(Instruction::SkipEqImm { x, nn }),
        (0x4, _, _, _) => Some(Instruction::SkipNeImm { x, nn }),
        (0x5, _, _, 0x0) => Some(Instruction::SkipEqReg { x, y }),
        (0x6, _, _, _) => Some(Instruction::LoadImm { x, nn }),
        (0x7, _, _, _) => Some(Instruction::AddImm { x, nn }),
        (0x8, _, _, 0x0) => Some(Instruction::Move { x, y }),
        (0x8, _, _, 0x1) => Some(Instruction::Or { x, y }),
        (0x8, _, _, 0x2) => Some(Instruction::And { x, y }),
        (0x8, _, _, 0x3) => Some(Instruction::Xor { x, y }),
        (0x8, _, _, 0x4) => Some(Instruction::Add { x, y }),
        (0x8, _, _, 0x5) => Some(Instruction::Sub { x, y }),
        (0x8, _, _, 0x6) => Some(Instruction::Shr { x, y }),
        (0x8, _, _, 0x7) => Some(Instruction::SubN { x, y }),
        (0x8, _, _, 0xE) => Some(Instruction::Shl { x, y }),
        (0x9, _, _, 0x0) => Some(Instruction::SkipNeReg { x, y }),
        (0xA, _, _, _) => Some(Instruction::LoadIndex { addr }),
        (0xB, _, _, _) => Some(Instruction::JumpOffset { addr }),
        (0xC, _, _, _) => Some(Instruction::Random { x, nn }),
        (0xD, _, _, _) => Some(Instruction::Draw { x, y, n }),
        (0xE, _, 0x9, 0xE) => Some(Instruction::SkipKey { x }),
        (0xE, _, 0xA, 0x1) => Some(Instruction::SkipNoKey { x }),
        (0xF, _, 0x0, 0x7) => Some(Instruction::LoadDelay { x }),
        (0xF, _, 0x0, 0xA) => Some(Instruction::WaitKey { x }),
        (0xF, _, 0x1, 0x5) => Some(Instruction::SetDelay { x }),
        (0xF, _, 0x1, 0x8) => Some(Instruction::SetSound { x }),
        (0xF, _, 0x1, 0xE) => Some(Instruction::AddIndex { x }),
        (0xF, _, 0x2, 0x9) => Some(Instruction::FontAddr { x }),
        (0xF, _, 0x3, 0x3) => Some(Instruction::StoreBcd { x }),
        (0xF, _, 0x5, 0x5) => Some(Instruction::StoreRegs { x }),
        (0xF, _, 0x6, 0x5) => Some(Instruction::LoadRegs { x }),
        _ => None,
    }
}

/// Whatever a word decodes to is well formed.
pub proof fn lemma_decode_wf(word: u16)
    ensures
        decode_spec(word) matches Some(op) ==> op.wf(),
{
}

} // verus!
