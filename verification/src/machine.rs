use vstd::prelude::*;
use crate::display::{blank_screen, draw_sprite, sprite_collides, SCREEN_HEIGHT, SCREEN_WIDTH};
use crate::error::Chip8Error;
use crate::font::{font_table, FONT_SIZE};
use crate::instruction::{decode_spec, Instruction};

verus! {

/// Number of addressable bytes.
pub const MEMORY_SIZE: usize = 4096;

/// Address at which every program is loaded and execution starts.
pub const PROGRAM_START: u16 = 0x200;

/// Longest program image that fits between `PROGRAM_START` and the end of
/// memory.
pub const MAX_PROGRAM_LEN: usize = 0xE00;

/// Number of general-purpose registers; the last one is the flag register.
pub const NUM_REGISTERS: usize = 16;

/// Number of keypad slots.
pub const NUM_KEYS: usize = 16;

/// Largest number of return addresses the call stack holds.
pub const STACK_DEPTH: usize = 16;

/// Register number of the flag register `VF`.
pub const FLAG: usize = 0xF;

/// The whole state of the machine as mathematical values.
#[verifier::ext_equal]
pub struct Machine {
    /// The 4096 bytes of memory.
    pub memory: Seq<u8>,
    /// The registers `V0..=VF`.
    pub registers: Seq<u8>,
    /// The index register.
    pub index: u16,
    /// The program counter: the address of the next instruction to fetch.
    pub pc: u16,
    /// The return addresses, the most recent one last.
    pub stack: Seq<u16>,
    /// The display, `framebuffer[row][column]` being true where a pixel is lit.
    pub framebuffer: Seq<Seq<bool>>,
    /// The delay timer.
    pub delay: u8,
    /// The sound timer.
    pub sound: u8,
    /// The keypad, `keys[k]` being true while key `k` is down.
    pub keys: Seq<bool>,
    /// The instruction word most recently fetched.
    pub insn: u16,
    /// The address `insn` was fetched from.
    pub insn_addr: u16,
}

/// Whether `count` bytes starting at `base` all lie inside memory.
pub open spec fn in_memory(base: int, count: int) -> bool {
    count == 0 || base + count <= MEMORY_SIZE
}

/// The first address at or after `base` that lies outside memory.
pub open spec fn first_outside(base: int) -> int {
    if base >= MEMORY_SIZE {
        base
    } else {
        MEMORY_SIZE as int
    }
}

/// The lowest key that is down, if any.
pub open spec fn first_key_down(keys: Seq<bool>) -> Option<int> {
    if exists|k: int| 0 <= k < keys.len() && keys[k] {
        Some(
            choose|k: int|
                0 <= k < keys.len() && keys[k] && forall|j: int| 0 <= j < k ==> !keys[j],
        )
    } else {
        None
    }
}

/// Memory as it is when the machine starts on `program`: the font table at
/// address 0, the program at `PROGRAM_START`, zero everywhere else.
pub open spec fn initial_memory(program: Seq<u8>) -> Seq<u8> {
    Seq::new(
        MEMORY_SIZE as nat,
        |a: int|
            if a < FONT_SIZE {
                font_table()[a]
            } else if PROGRAM_START <= a < PROGRAM_START + program.len() {
                program[a - PROGRAM_START]
            } else {
                0u8
            },
    )
}

impl Machine {
    /// The machine as it is before its first step on `program`.
    pub open spec fn initial(program: Seq<u8>) -> Machine {
        Machine {
            memory: initial_memory(program),
            registers: Seq::new(NUM_REGISTERS as nat, |r: int| 0u8),
            index: 0,
            pc: PROGRAM_START,
            stack: Seq::empty(),
            framebuffer: blank_screen(),
            delay: 0,
            sound: 0,
            keys: Seq::new(NUM_KEYS as nat, |k: int| false),
            insn: 0,
            insn_addr: PROGRAM_START,
        }
    }

    /// The sizes that the machine's parts always have.
    pub open spec fn wf(self) -> bool {
        &&& self.memory.len() == MEMORY_SIZE
        &&& self.registers.len() == NUM_REGISTERS
        &&& self.keys.len() == NUM_KEYS
        &&& self.stack.len() <= STACK_DEPTH
        &&& self.framebuffer.len() == SCREEN_HEIGHT
        &&& forall|row: int|
            0 <= row < SCREEN_HEIGHT ==> (#[trigger] self.framebuffer[row]).len() == SCREEN_WIDTH
    }

    /// The value of register `x`.
    pub open spec fn reg(self, x: u8) -> u8 {
        self.registers[x as int]
    }

    /// The machine with register `x` set to `v`.
    pub open spec fn with_reg(self, x: u8, v: u8) -> Machine {
        Machine { registers: self.registers.update(x as int, v), ..self }
    }

    /// The machine with register `x` set to `v` and then the flag register
    /// set to `flag`: where `x` is the flag register itself, the flag stays.
    pub open spec fn with_reg_and_flag(self, x: u8, v: u8, flag: u8) -> Machine {
        Machine {
            registers: self.registers.update(x as int, v).update(FLAG as int, flag),
            ..self
        }
    }

    /// An out-of-range address met while this machine holds its current
    /// instruction.
    pub open spec fn address_fault(self, addr: int) -> Chip8Error {
        Chip8Error::AddressOutOfRange { addr: addr as i32, insn: self.insn, pc: self.insn_addr }
    }

    /// The machine after the next instruction was skipped if `cond` holds.
    /// The program counter never wraps around its 16 bits.
    pub open spec fn skip_if(self, cond: bool) -> Result<Machine, Chip8Error> {
        if !cond {
            Ok(self)
        } else if self.pc + 2 > u16::MAX {
            Err(self.address_fault(self.pc + 2))
        } else {
            Ok(Machine { pc: (self.pc + 2) as u16, ..self })
        }
    }

    /// The machine after testing the keypad slot that register `x` names and
    /// skipping the next instruction if the key's state is `down`.
    pub open spec fn skip_if_key(self, x: u8, down: bool) -> Result<Machine, Chip8Error> {
        if self.reg(x) >= NUM_KEYS {
            Err(Chip8Error::KeyOutOfRange { key: self.reg(x), insn: self.insn, pc: self.insn_addr })
        } else {
            self.skip_if(self.keys[self.reg(x) as int] == down)
        }
    }

    /// The `n` bytes of memory at the index register.
    pub open spec fn sprite(self, n: u8) -> Seq<u8> {
        Seq::new(n as nat, |r: int| self.memory[self.index + r])
    }

    /// Memory after registers `V0..=Vx` were stored at the index register.
    pub open spec fn memory_with_regs(self, x: u8) -> Seq<u8> {
        Seq::new(
            MEMORY_SIZE as nat,
            |a: int|
                if self.index <= a <= self.index + x {
                    self.registers[a - self.index]
                } else {
                    self.memory[a]
                },
        )
    }

    /// The registers after `V0..=Vx` were loaded from the index register.
    pub open spec fn regs_from_memory(self, x: u8) -> Seq<u8> {
        Seq::new(
            NUM_REGISTERS as nat,
            |r: int|
                if r <= x {
                    self.memory[self.index + r]
                } else {
                    self.registers[r]
                },
        )
    }

    /// What fetching does: the two bytes at the program counter become the
    /// current instruction, high byte first, and the program counter moves
    /// past them. Nothing else changes.
    pub open spec fn fetch_spec(self) -> Result<Machine, Chip8Error> {
        if !in_memory(self.pc as int, 2) {
            Err(self.address_fault(first_outside(self.pc as int)))
        } else {
            Ok(
                Machine {
                    insn: (0x100 * self.memory[self.pc as int] + self.memory[self.pc + 1]) as u16,
                    insn_addr: self.pc,
                    pc: (self.pc + 2) as u16,
                    ..self
                },
            )
        }
    }

    /// What executing `op` does, `rnd` being the byte that the random source
    /// delivers if `op` asks for one. `Ok` holds the machine afterwards;
    /// `Err` says why nothing was done.
    ///
    /// An operation that sets the flag register reads its operands first,
    /// stores its result and writes the flag last, so the flag is what stays
    /// where the result goes to the flag register too. Register dumps and
    /// loads leave the index register where it is. Nothing wraps in silence:
    /// a skip, a rewind or an addition to the index register that would
    /// leave 16 bits fails, and so does an access to memory beyond 0xFFF or
    /// to a key beyond 0xF.
    pub open spec fn exec_spec(self, op: Instruction, rnd: u8) -> Result<Machine, Chip8Error> {
        match op {
            Instruction::ClearScreen => Ok(Machine { framebuffer: blank_screen(), ..self }),
            Instruction::Return => if self.stack.len() == 0 {
                Err(Chip8Error::StackUnderflow { insn: self.insn, pc: self.insn_addr })
            } else {
                Ok(Machine { pc: self.stack.last(), stack: self.stack.drop_last(), ..self })
            },
            Instruction::Jump { addr } => Ok(Machine { pc: addr, ..self }),
            Instruction::Call { addr } => if self.stack.len() >= STACK_DEPTH {
                Err(Chip8Error::StackOverflow { insn: self.insn, pc: self.insn_addr })
            } else {
                Ok(Machine { pc: addr, stack: self.stack.push(self.pc), ..self })
            },
            Instruction::SkipEqImm { x, nn } => self.skip_if(self.reg(x) == nn),
            Instruction::SkipNeImm { x, nn } => self.skip_if(self.reg(x) != nn),
            Instruction::SkipEqReg { x, y } => self.skip_if(self.reg(x) == self.reg(y)),
            Instruction::SkipNeReg { x, y } => self.skip_if(self.reg(x) != self.reg(y)),
            Instruction::LoadImm { x, nn } => Ok(self.with_reg(x, nn)),
            Instruction::AddImm { x, nn } => Ok(
                self.with_reg(x, ((self.reg(x) + nn) % 0x100) as u8),
            ),
            Instruction::Move { x, y } => Ok(self.with_reg(x, self.reg(y))),
            Instruction::Or { x, y } => Ok(self.with_reg(x, self.reg(x) | self.reg(y))),
            Instruction::And { x, y } => Ok(self.with_reg(x, self.reg(x) & self.reg(y))),
            Instruction::Xor { x, y } => Ok(self.with_reg(x, self.reg(x) ^ self.reg(y))),
            Instruction::Add { x, y } => Ok(
                self.with_reg_and_flag(
                    x,
                    ((self.reg(x) + self.reg(y)) % 0x100) as u8,
                    if self.reg(x) + self.reg(y) > 0xFF {
                        1
                    } else {
                        0
                    },
                ),
            ),
            Instruction::Sub { x, y } => Ok(
                self.with_reg_and_flag(
                    x,
                    ((self.reg(x) - self.reg(y)) % 0x100) as u8,
                    if self.reg(x) >= self.reg(y) {
                        1
                    } else {
                        0
                    },
                ),
            ),
            Instruction::SubN { x, y } => Ok(
                self.with_reg_and_flag(
                    x,
                    ((self.reg(y) - self.reg(x)) % 0x100) as u8,
                    if self.reg(y) >= self.reg(x) {
                        1
                    } else {
                        0
                    },
                ),
            ),
            Instruction::Shr { x, y } => Ok(
                self.with_reg_and_flag(x, self.reg(x) / 2, self.reg(x) % 2),
            ),
            Instruction::Shl { x, y } => Ok(
                self.with_reg_and_flag(x, ((self.reg(x) * 2) % 0x100) as u8, self.reg(x) / 0x80),
            ),
            Instruction::LoadIndex { addr } => Ok(Machine { index: addr, ..self }),
            Instruction::JumpOffset { addr } => Ok(
                Machine { pc: (self.reg(0) + addr) as u16, ..self },
            ),
            Instruction::Random { x, nn } => Ok(self.with_reg(x, rnd & nn)),
            Instruction::Draw { x, y, n } => if !in_memory(self.index as int, n as int) {
                Err(self.address_fault(first_outside(self.index as int)))
            } else {
                Ok(
                    Machine {
                        framebuffer: draw_sprite(
                            self.framebuffer,
                            self.sprite(n),
                            self.reg(x) as int,
                            self.reg(y) as int,
                        ),
                        registers: self.registers.update(
                            FLAG as int,
                            if sprite_collides(
                                self.framebuffer,
                                self.sprite(n),
                                self.reg(x) as int,
                                self.reg(y) as int,
                            ) {
                                1
                            } else {
                                0
                            },
                        ),
                        ..self
                    },
                )
            },
            Instruction::SkipKey { x } => self.skip_if_key(x, true),
            Instruction::SkipNoKey { x } => self.skip_if_key(x, false),
            Instruction::LoadDelay { x } => Ok(self.with_reg(x, self.delay)),
            Instruction::WaitKey { x } => match first_key_down(self.keys) {
                Some(k) => Ok(self.with_reg(x, k as u8)),
                None => if self.pc < 2 {
                    Err(self.address_fault(self.pc - 2))
                } else {
                    Ok(Machine { pc: (self.pc - 2) as u16, ..self })
                },
            },
            Instruction::SetDelay { x } => Ok(Machine { delay: self.reg(x), ..self }),
            Instruction::SetSound { x } => Ok(Machine { sound: self.reg(x), ..self }),
            Instruction::AddIndex { x } => if self.index + self.reg(x) > u16::MAX {
                Err(self.address_fault(self.index + self.reg(x)))
            } else {
                Ok(Machine { index: (self.index + self.reg(x)) as u16, ..self })
            },
            Instruction::FontAddr { x } => Ok(Machine { index: (5 * self.reg(x)) as u16, ..self }),
            Instruction::StoreBcd { x } => if !in_memory(self.index as int, 3) {
                Err(self.address_fault(first_outside(self.index as int)))
            } else {
                Ok(
                    Machine {
                        memory: self.memory.update(self.index as int, self.reg(x) / 100).update(
                            self.index + 1,
                            self.reg(x) / 10 % 10,
                        ).update(self.index + 2, self.reg(x) % 10),
                        ..self
                    },
                )
            },
            Instruction::StoreRegs { x } => if !in_memory(self.index as int, x + 1) {
                Err(self.address_fault(first_outside(self.index as int)))
            } else {
                Ok(Machine { memory: self.memory_with_regs(x), ..self })
            },
            Instruction::LoadRegs { x } => if !in_memory(self.index as int, x + 1) {
                Err(self.address_fault(first_outside(self.index as int)))
            } else {
                Ok(Machine { registers: self.regs_from_memory(x), ..self })
            },
        }
    }

    /// What decoding and executing the current instruction does.
    pub open spec fn decode_and_exec_spec(self, rnd: u8) -> Result<Machine, Chip8Error> {
        match decode_spec(self.insn) {
            Some(op) => self.exec_spec(op, rnd),
            None => Err(
                Chip8Error::UnimplementedInstruction { insn: self.insn, pc: self.insn_addr },
            ),
        }
    }

    /// Whether the current instruction is the one that asks the random source
    /// for a byte.
    pub open spec fn wants_random(self) -> bool {
        decode_spec(self.insn) matches Some(op) && op is Random
    }

    /// What one whole step does: fetch, then decode and execute.
    pub open spec fn step_spec(self, rnd: u8) -> Result<Machine, Chip8Error> {
        match self.fetch_spec() {
            Ok(fetched) => fetched.decode_and_exec_spec(rnd),
            Err(e) => Err(e),
        }
    }

    /// What a run of steps does, one step for each byte of `rnds`, the bytes
    /// being what the random source delivers to each step in turn. The run
    /// ends at the first step that fails.
    pub open spec fn steps_spec(self, rnds: Seq<u8>) -> Result<Machine, Chip8Error>
        decreases rnds.len(),
    {
        if rnds.len() == 0 {
            Ok(self)
        } else {
            match self.step_spec(rnds[0]) {
                Ok(next) => next.steps_spec(rnds.drop_first()),
                Err(e) => Err(e),
            }
        }
    }

    /// The machine that a step leaves behind when it fails: the one it set out
    /// from where nothing could be fetched, else the one that holds the
    /// fetched instruction and has not executed it.
    pub open spec fn after_failed_step(self) -> Machine {
        match self.fetch_spec() {
            Ok(fetched) => fetched,
            Err(e) => self,
        }
    }

    /// Whether a step that set out from `self` and drew the random byte `rnd`
    /// has returned `res` and left the machine as `after`.
    pub open spec fn step_yields(
        self,
        rnd: u8,
        res: Result<(), Chip8Error>,
        after: Machine,
    ) -> bool {
        match self.step_spec(rnd) {
            Ok(next) => res is Ok && after == next,
            Err(e) => res == Err::<(), Chip8Error>(e) && after == self.after_failed_step(),
        }
    }

    /// Whether an operation that set out from `self` and whose effect is
    /// `outcome` has returned `res` and left the machine as `after`. An
    /// operation that fails leaves the machine as it was.
    pub open spec fn yields(
        self,
        outcome: Result<Machine, Chip8Error>,
        res: Result<(), Chip8Error>,
        after: Machine,
    ) -> bool {
        match outcome {
            Ok(next) => res is Ok && after == next,
            Err(e) => res == Err::<(), Chip8Error>(e) && after == self,
        }
    }

    /// The machine after one tick of the 60 Hz clock: each timer that is not
    /// yet zero goes down by one.
    pub open spec fn tick_spec(self) -> Machine {
        Machine {
            delay: if self.delay > 0 {
                (self.delay - 1) as u8
            } else {
                0
            },
            sound: if self.sound > 0 {
                (self.sound - 1) as u8
            } else {
                0
            },
            ..self
        }
    }
}

} // verus!
