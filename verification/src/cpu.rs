use vstd::prelude::*;
use crate::error::Chip8Error;
use crate::font::{font_table, FONT_DATA, FONT_SIZE};
use crate::instruction::{decode, Instruction};
use crate::alu::{add_with_carry, bcd_digits, shift_left, shift_right, sub_with_borrow};
use crate::display::{
    blank_screen, console_text, draw_rows, lemma_draw_one_more_row, render_console,
    rows_collide, xor_sprite_row,
};
pub use crate::display::{SCREEN_HEIGHT, SCREEN_WIDTH};
use crate::machine::{
    first_outside, in_memory, Machine, FLAG, MAX_PROGRAM_LEN, MEMORY_SIZE, NUM_KEYS,
    NUM_REGISTERS, PROGRAM_START, STACK_DEPTH,
};
use crate::random::random_byte;

verus! {

/// The CHIP-8 machine: memory, registers, display, call stack, timers and
/// keypad in one owned value.
#[derive(Clone, Debug)]
pub struct Cpu {
    memory: [u8; MEMORY_SIZE],
    keys: [bool; NUM_KEYS],
    framebuffer: [[bool; SCREEN_WIDTH]; SCREEN_HEIGHT],
    /// Return addresses, the most recent one last; never more than
    /// `STACK_DEPTH` of them.
    stack: Vec<u16>,
    pc: u16,
    idx_register: u16,
    dt_register: u8,
    st_register: u8,
    registers: [u8; NUM_REGISTERS],
    current_insn: u16,
    /// The address `current_insn` was fetched from.
    insn_addr: u16,
}

/// The machine as the mathematical value that every contract speaks of.
impl View for Cpu {
    type V = Machine;

    closed spec fn view(&self) -> Machine {
        Machine {
            memory: self.memory@,
            registers: self.registers@,
            index: self.idx_register,
            pc: self.pc,
            stack: self.stack@,
            framebuffer: Seq::new(SCREEN_HEIGHT as nat, |row: int| self.framebuffer@[row]@),
            delay: self.dt_register,
            sound: self.st_register,
            keys: self.keys@,
            insn: self.current_insn,
            insn_addr: self.insn_addr,
        }
    }
}

impl Cpu {
    /// The machine's invariant: every part has its fixed size and the call
    /// stack is no deeper than `STACK_DEPTH`.
    pub open spec fn wf(&self) -> bool {
        self@.wf()
    }

    /// Builds a machine that is ready to run `read_rom`: the font table at
    /// address 0, the program at 0x200, everything else zero. A program that
    /// does not fit is refused before anything is loaded.
    pub fn new(read_rom: &[u8]) -> (res: Result<Cpu, Chip8Error>)
        ensures
            read_rom@.len() > MAX_PROGRAM_LEN ==> res == Err::<Cpu, Chip8Error>(
                Chip8Error::ProgramTooLarge { len: read_rom.len() },
            ),
            read_rom@.len() <= MAX_PROGRAM_LEN ==> res is Ok,
            res matches Ok(cpu) ==> {
                &&& cpu.wf()
                &&& cpu@ == Machine::initial(read_rom@)
                &&& cpu@.pc == 0x200
                &&& cpu@.index == 0
                &&& cpu@.stack.len() == 0
                &&& cpu@.delay == 0 && cpu@.sound == 0
                &&& forall|r: int| 0 <= r < NUM_REGISTERS ==> cpu@.registers[r] == 0
                &&& forall|k: int| 0 <= k < NUM_KEYS ==> !cpu@.keys[k]
                &&& cpu@.framebuffer == blank_screen()
                &&& cpu@.memory.subrange(0, FONT_SIZE as int) == font_table()
                &&& cpu@.memory.subrange(0x200, 0x200 + read_rom@.len() as int) == read_rom@
            },
    {
        if read_rom.len() > MAX_PROGRAM_LEN {
            return Err(Chip8Error::ProgramTooLarge { len: read_rom.len() });
        }
        let mut memory = [0u8; MEMORY_SIZE];
        let mut i: usize = 0;
        while i < FONT_SIZE
            invariant
                i <= FONT_SIZE,
                forall|a: int| 0 <= a < i ==> memory@[a] == font_table()[a],
                forall|a: int| i <= a < MEMORY_SIZE ==> memory@[a] == 0,
            decreases FONT_SIZE - i,
        {
            memory[i] = FONT_DATA[i];
            i += 1;
        }
        let mut j: usize = 0;
        while j < read_rom.len()
            invariant
                j <= read_rom@.len() <= MAX_PROGRAM_LEN,
                forall|a: int| 0 <= a < FONT_SIZE ==> memory@[a] == font_table()[a],
                forall|a: int| FONT_SIZE <= a < PROGRAM_START ==> memory@[a] == 0,
                forall|a: int|
                    PROGRAM_START <= a < PROGRAM_START + j ==> memory@[a] == read_rom@[a
                        - PROGRAM_START],
                forall|a: int| PROGRAM_START + j <= a < MEMORY_SIZE ==> memory@[a] == 0,
            decreases read_rom@.len() - j,
        {
            memory[PROGRAM_START as usize + j] = read_rom[j];
            j += 1;
        }
        let cpu = Cpu {
            memory,
            keys: [false; NUM_KEYS],
            framebuffer: [[false; SCREEN_WIDTH]; SCREEN_HEIGHT],
            stack: Vec::new(),
            pc: PROGRAM_START,
            idx_register: 0,
            dt_register: 0,
            st_register: 0,
            registers: [0; NUM_REGISTERS],
            current_insn: 0,
            insn_addr: PROGRAM_START,
        };
        proof {
            let init = Machine::initial(read_rom@);
            assert(cpu@.memory =~= init.memory);
            assert(cpu@.registers =~= init.registers);
            assert(cpu@.keys =~= init.keys);
            assert(cpu@.stack =~= init.stack);
            assert(cpu@.framebuffer =~~= init.framebuffer);
            assert(cpu@.memory.subrange(0, FONT_SIZE as int) =~= font_table());
            assert(cpu@.memory.subrange(0x200, 0x200 + read_rom@.len() as int) =~= read_rom@);
        }
        Ok(cpu)
    }

    /// Reads the two bytes at the program counter as the current instruction,
    /// high byte first, and moves the program counter past them. Fails, and
    /// changes nothing, where either byte would lie outside memory. Memory,
    /// registers, display, stack, timers and keypad are never touched.
    pub fn fetch(&mut self) -> (res: Result<(), Chip8Error>)
        requires
            old(self).wf(),
        ensures
            final(self).wf(),
            old(self)@.yields(old(self)@.fetch_spec(), res, final(self)@),
            res is Ok <==> old(self)@.pc + 1 < MEMORY_SIZE,
            final(self)@.memory == old(self)@.memory,
            final(self)@.registers == old(self)@.registers,
            final(self)@.framebuffer == old(self)@.framebuffer,
            final(self)@.stack == old(self)@.stack,
            final(self)@.index == old(self)@.index,
            final(self)@.keys == old(self)@.keys,
            final(self)@.delay == old(self)@.delay,
            final(self)@.sound == old(self)@.sound,
    {
        let at: usize = self.pc as usize;
        if at + 1 >= MEMORY_SIZE {
            let addr: i32 = if at >= MEMORY_SIZE {
                at as i32
            } else {
                MEMORY_SIZE as i32
            };
            return Err(
                Chip8Error::AddressOutOfRange { addr, insn: self.current_insn, pc: self.insn_addr },
            );
        }
        let high_byte: u16 = self.memory[at] as u16;
        let low_byte: u16 = self.memory[at + 1] as u16;
        assert((high_byte << 8) | low_byte == 0x100 * high_byte + low_byte) by (bit_vector)
            requires
                high_byte < 0x100,
                low_byte < 0x100,
        ;
        self.current_insn = (high_byte << 8) | low_byte;
        self.insn_addr = self.pc;
        self.pc += 2;
        Ok(())
    }

    /// The error for the out-of-range address `addr`, with the current
    /// instruction as its context.
    fn address_fault(&self, addr: i32) -> (e: Chip8Error)
        ensures
            e == self@.address_fault(addr as int),
    {
        Chip8Error::AddressOutOfRange { addr, insn: self.current_insn, pc: self.insn_addr }
    }

    /// The error for `count > 0` bytes at the index register that do not all
    /// lie inside memory, or `None` where they do.
    fn check_span(&self, count: usize) -> (r: Option<Chip8Error>)
        requires
            count <= 0x100,
        ensures
            in_memory(self@.index as int, count as int) ==> r is None,
            !in_memory(self@.index as int, count as int) ==> r == Some(
                self@.address_fault(first_outside(self@.index as int)),
            ),
    {
        let base: usize = self.idx_register as usize;
        if count == 0 || base + count <= MEMORY_SIZE {
            None
        } else if base >= MEMORY_SIZE {
            Some(self.address_fault(base as i32))
        } else {
            Some(self.address_fault(MEMORY_SIZE as i32))
        }
    }

    /// Moves the program counter past the next instruction if `cond` holds.
    fn skip_if(&mut self, cond: bool) -> (res: Result<(), Chip8Error>)
        requires
            old(self).wf(),
        ensures
            final(self).wf(),
            old(self)@.yields(old(self)@.skip_if(cond), res, final(self)@),
    {
        if cond {
            if self.pc > u16::MAX - 2 {
                return Err(self.address_fault(self.pc as i32 + 2));
            }
            self.pc += 2;
        }
        Ok(())
    }

    /// Tests the keypad slot that register `x` names and skips the next
    /// instruction if the key's state is `down`.
    fn skip_if_key(&mut self, x: u8, down: bool) -> (res: Result<(), Chip8Error>)
        requires
            old(self).wf(),
            x < NUM_REGISTERS,
        ensures
            final(self).wf(),
            old(self)@.yields(old(self)@.skip_if_key(x, down), res, final(self)@),
    {
        let key: u8 = self.registers[x as usize];
        if key as usize >= NUM_KEYS {
            return Err(
                Chip8Error::KeyOutOfRange { key, insn: self.current_insn, pc: self.insn_addr },
            );
        }
        let state: bool = self.keys[key as usize];
        self.skip_if(state == down)
    }

    /// Sets register `x` to `v` and then the flag register to `flag`.
    fn set_with_flag(&mut self, x: u8, v: u8, flag: u8)
        requires
            old(self).wf(),
            x < NUM_REGISTERS,
        ensures
            final(self).wf(),
            final(self)@ == old(self)@.with_reg_and_flag(x, v, flag),
    {
        self.registers[x as usize] = v;
        self.registers[FLAG] = flag;
    }

    /// Waits for a key: with a key down, register `x` takes the index of the
    /// lowest such key; with none, the program counter goes back by one
    /// instruction so that the wait is fetched again.
    fn wait_key(&mut self, x: u8) -> (res: Result<(), Chip8Error>)
        requires
            old(self).wf(),
            x < NUM_REGISTERS,
        ensures
            final(self).wf(),
            old(self)@.yields(
                old(self)@.exec_spec(Instruction::WaitKey { x }, 0),
                res,
                final(self)@,
            ),
    {
        let mut k: usize = 0;
        while k < NUM_KEYS && !self.keys[k]
            invariant
                k <= NUM_KEYS,
                forall|j: int| 0 <= j < k ==> !self.keys@[j],
            decreases NUM_KEYS - k,
        {
            k += 1;
        }
        if k < NUM_KEYS {
            self.registers[x as usize] = k as u8;
            Ok(())
        } else if self.pc < 2 {
            Err(self.address_fault(self.pc as i32 - 2))
        } else {
            self.pc -= 2;
            Ok(())
        }
    }

    /// Writes the hundreds, tens and ones of register `x` to the three bytes
    /// at the index register.
    fn store_bcd(&mut self, x: u8) -> (res: Result<(), Chip8Error>)
        requires
            old(self).wf(),
            x < NUM_REGISTERS,
        ensures
            final(self).wf(),
            old(self)@.yields(
                old(self)@.exec_spec(Instruction::StoreBcd { x }, 0),
                res,
                final(self)@,
            ),
    {
        if let Some(e) = self.check_span(3) {
            return Err(e);
        }
        let (h, t, o) = bcd_digits(self.registers[x as usize]);
        let base: usize = self.idx_register as usize;
        self.memory[base] = h;
        self.memory[base + 1] = t;
        self.memory[base + 2] = o;
        Ok(())
    }

    /// Copies registers `V0..=Vx` to memory at the index register.
    fn store_regs(&mut self, x: u8) -> (res: Result<(), Chip8Error>)
        requires
            old(self).wf(),
            x < NUM_REGISTERS,
        ensures
            final(self).wf(),
            old(self)@.yields(
                old(self)@.exec_spec(Instruction::StoreRegs { x }, 0),
                res,
                final(self)@,
            ),
    {
        if let Some(e) = self.check_span(x as usize + 1) {
            return Err(e);
        }
        let base: usize = self.idx_register as usize;
        let mut reg: usize = 0;
        while reg <= x as usize
            invariant
                x < NUM_REGISTERS,
                base == old(self)@.index,
                base + x < MEMORY_SIZE,
                reg <= x + 1,
                forall|a: int|
                    0 <= a < MEMORY_SIZE ==> self.memory@[a] == if base <= a < base + reg {
                        old(self)@.registers[a - base]
                    } else {
                        old(self)@.memory[a]
                    },
                (Machine { memory: old(self)@.memory, ..self@ }) == old(self)@,
            decreases x + 1 - reg,
        {
            self.memory[base + reg] = self.registers[reg];
            reg += 1;
        }
        assert(self@.memory =~= old(self)@.memory_with_regs(x));
        Ok(())
    }

    /// Copies memory at the index register to registers `V0..=Vx`.
    fn load_regs(&mut self, x: u8) -> (res: Result<(), Chip8Error>)
        requires
            old(self).wf(),
            x < NUM_REGISTERS,
        ensures
            final(self).wf(),
            old(self)@.yields(
                old(self)@.exec_spec(Instruction::LoadRegs { x }, 0),
                res,
                final(self)@,
            ),
    {
        if let Some(e) = self.check_span(x as usize + 1) {
            return Err(e);
        }
        let base: usize = self.idx_register as usize;
        let mut reg: usize = 0;
        while reg <= x as usize
            invariant
                x < NUM_REGISTERS,
                base == old(self)@.index,
                base + x < MEMORY_SIZE,
                reg <= x + 1,
                forall|r: int|
                    0 <= r < NUM_REGISTERS ==> self.registers@[r] == if r < reg {
                        old(self)@.memory[base + r]
                    } else {
                        old(self)@.registers[r]
                    },
                (Machine { registers: old(self)@.registers, ..self@ }) == old(self)@,
            decreases x + 1 - reg,
        {
            self.registers[reg] = self.memory[base + reg];
            reg += 1;
        }
        assert(self@.registers =~= old(self)@.regs_from_memory(x));
        Ok(())
    }

    /// The value of register `x`.
    fn reg(&self, x: u8) -> (v: u8)
        requires
            x < NUM_REGISTERS,
        ensures
            v == self@.reg(x),
    {
        self.registers[x as usize]
    }

    /// Sets register `x` to `v`.
    fn set_reg(&mut self, x: u8, v: u8)
        requires
            old(self).wf(),
            x < NUM_REGISTERS,
        ensures
            final(self).wf(),
            final(self)@ == old(self)@.with_reg(x, v),
    {
        self.registers[x as usize] = v;
    }

    /// Turns every pixel of the display off.
    fn clear_screen(&mut self)
        requires
            old(self).wf(),
        ensures
            final(self).wf(),
            final(self)@ == (Machine { framebuffer: blank_screen(), ..old(self)@ }),
    {
        self.framebuffer = [[false; SCREEN_WIDTH]; SCREEN_HEIGHT];
        assert(self@.framebuffer =~~= blank_screen());
    }

    /// Pushes the program counter as the return address and jumps to `addr`.
    fn call(&mut self, addr: u16) -> (res: Result<(), Chip8Error>)
        requires
            old(self).wf(),
        ensures
            final(self).wf(),
            old(self)@.yields(
                old(self)@.exec_spec(Instruction::Call { addr }, 0),
                res,
                final(self)@,
            ),
    {
        if self.stack.len() >= STACK_DEPTH {
            return Err(Chip8Error::StackOverflow { insn: self.current_insn, pc: self.insn_addr });
        }
        self.stack.push(self.pc);
        self.pc = addr;
        Ok(())
    }

    /// Pops the most recent return address into the program counter.
    fn ret(&mut self) -> (res: Result<(), Chip8Error>)
        requires
            old(self).wf(),
        ensures
            final(self).wf(),
            old(self)@.yields(old(self)@.exec_spec(Instruction::Return, 0), res, final(self)@),
    {
        match self.stack.pop() {
            Some(addr) => {
                self.pc = addr;
                Ok(())
            },
            None => Err(
                Chip8Error::StackUnderflow { insn: self.current_insn, pc: self.insn_addr },
            ),
        }
    }

    /// Adds register `x` to the index register, which never wraps around its
    /// 16 bits.
    fn add_index(&mut self, x: u8) -> (res: Result<(), Chip8Error>)
        requires
            old(self).wf(),
            x < NUM_REGISTERS,
        ensures
            final(self).wf(),
            old(self)@.yields(
                old(self)@.exec_spec(Instruction::AddIndex { x }, 0),
                res,
                final(self)@,
            ),
    {
        let vx: u16 = self.registers[x as usize] as u16;
        if self.idx_register > u16::MAX - vx {
            return Err(self.address_fault(self.idx_register as i32 + vx as i32));
        }
        self.idx_register += vx;
        Ok(())
    }

    /// Executes `op` against the machine. `rnd` is the byte that the random
    /// instruction masks and stores; no other instruction looks at it. On a
    /// failure the machine is left exactly as it was.
    pub fn execute(&mut self, op: Instruction, rnd: u8) -> (res: Result<(), Chip8Error>)
        requires
            old(self).wf(),
            op.wf(),
        ensures
            final(self).wf(),
            old(self)@.yields(old(self)@.exec_spec(op, rnd), res, final(self)@),
    {
        match op {
            Instruction::ClearScreen => {
                self.clear_screen();
                Ok(())
            },
            Instruction::Return => self.ret(),
            Instruction::Jump { addr } => {
                self.pc = addr;
                Ok(())
            },
            Instruction::Call { addr } => self.call(addr),
            Instruction::SkipEqImm { x, nn } => self.skip_if(self.reg(x) == nn),
            Instruction::SkipNeImm { x, nn } => self.skip_if(self.reg(x) != nn),
            Instruction::SkipEqReg { x, y } => self.skip_if(self.reg(x) == self.reg(y)),
            Instruction::SkipNeReg { x, y } => self.skip_if(self.reg(x) != self.reg(y)),
            Instruction::LoadImm { x, nn } => {
                self.set_reg(x, nn);
                Ok(())
            },
            Instruction::AddImm { x, nn } => {
                self.set_reg(x, self.reg(x).wrapping_add(nn));
                Ok(())
            },
            Instruction::Move { x, y } => {
                self.set_reg(x, self.reg(y));
                Ok(())
            },
            Instruction::Or { x, y } => {
                self.set_reg(x, self.reg(x) | self.reg(y));
                Ok(())
            },
            Instruction::And { x, y } => {
                self.set_reg(x, self.reg(x) & self.reg(y));
                Ok(())
            },
            Instruction::Xor { x, y } => {
                self.set_reg(x, self.reg(x) ^ self.reg(y));
                Ok(())
            },
            Instruction::Add { x, y } => {
                let (sum, carry) = add_with_carry(self.reg(x), self.reg(y));
                self.set_with_flag(x, sum, carry);
                Ok(())
            },
            Instruction::Sub { x, y } => {
                let (diff, no_borrow) = sub_with_borrow(self.reg(x), self.reg(y));
                self.set_with_flag(x, diff, no_borrow);
                Ok(())
            },
            Instruction::SubN { x, y } => {
                let (diff, no_borrow) = sub_with_borrow(self.reg(y), self.reg(x));
                self.set_with_flag(x, diff, no_borrow);
                Ok(())
            },
            Instruction::Shr { x, y } => {
                let (half, low_bit) = shift_right(self.reg(x));
                self.set_with_flag(x, half, low_bit);
                Ok(())
            },
            Instruction::Shl { x, y } => {
                let (twice, high_bit) = shift_left(self.reg(x));
                self.set_with_flag(x, twice, high_bit);
                Ok(())
            },
            Instruction::LoadIndex { addr } => {
                self.idx_register = addr;
                Ok(())
            },
            Instruction::JumpOffset { addr } => {
                self.pc = self.reg(0) as u16 + addr;
                Ok(())
            },
            Instruction::Random { x, nn } => {
                self.set_reg(x, rnd & nn);
                Ok(())
            },
            Instruction::Draw { x, y, n } => self.update_framebuffer(x, y, n),
            Instruction::SkipKey { x } => self.skip_if_key(x, true),
            Instruction::SkipNoKey { x } => self.skip_if_key(x, false),
            Instruction::LoadDelay { x } => {
                self.set_reg(x, self.dt_register);
                Ok(())
            },
            Instruction::WaitKey { x } => self.wait_key(x),
            Instruction::SetDelay { x } => {
                self.dt_register = self.reg(x);
                Ok(())
            },
            Instruction::SetSound { x } => {
                self.st_register = self.reg(x);
                Ok(())
            },
            Instruction::AddIndex { x } => self.add_index(x),
            Instruction::FontAddr { x } => {
                self.idx_register = self.reg(x) as u16 * 0x05;
                Ok(())
            },
            Instruction::StoreBcd { x } => self.store_bcd(x),
            Instruction::StoreRegs { x } => self.store_regs(x),
            Instruction::LoadRegs { x } => self.load_regs(x),
        }
    }

    /// Decodes the current instruction and executes it. The random
    /// instruction takes its byte from the system's random source, so for it
    /// alone the outcome is one of several: the source may fail, and where it
    /// delivers, any byte may have come. Every other instruction is a function
    /// of the machine alone. On a failure the machine is left as it was.
    pub fn decode_and_exec(&mut self) -> (res: Result<(), Chip8Error>)
        requires
            old(self).wf(),
        ensures
            final(self).wf(),
            !old(self)@.wants_random() ==> old(self)@.yields(
                old(self)@.decode_and_exec_spec(0),
                res,
                final(self)@,
            ),
            old(self)@.wants_random() ==> {
                ||| res == Err::<(), Chip8Error>(
                    Chip8Error::RandomSourceFailed {
                        insn: old(self)@.insn,
                        pc: old(self)@.insn_addr,
                    },
                ) && final(self)@ == old(self)@
                ||| exists|rnd: u8| #[trigger]
                    old(self)@.yields(old(self)@.decode_and_exec_spec(rnd), res, final(self)@)
            },
    {
        match decode(self.current_insn) {
            None => Err(
                Chip8Error::UnimplementedInstruction {
                    insn: self.current_insn,
                    pc: self.insn_addr,
                },
            ),
            Some(Instruction::Random { x, nn }) => {
                match random_byte() {
                    Ok(rnd) => {
                        let res = self.execute(Instruction::Random { x, nn }, rnd);
                        assert(old(self)@.yields(old(self)@.decode_and_exec_spec(rnd), res, self@));
                        res
                    },
                    Err(_) => Err(
                        Chip8Error::RandomSourceFailed {
                            insn: self.current_insn,
                            pc: self.insn_addr,
                        },
                    ),
                }
            },
            Some(op) => self.execute(op, 0),
        }
    }

    /// One whole step: fetch, then decode and execute. Where the fetch fails
    /// the machine is left as it was; where the instruction fails, the
    /// machine holds it as its current instruction and is otherwise as the
    /// fetch left it.
    pub fn step(&mut self) -> (res: Result<(), Chip8Error>)
        requires
            old(self).wf(),
        ensures
            final(self).wf(),
            old(self)@.fetch_spec() matches Err(e) ==> {
                &&& res == Err::<(), Chip8Error>(e)
                &&& final(self)@ == old(self)@
            },
            old(self)@.fetch_spec() matches Ok(fetched) ==> {
                &&& !fetched.wants_random() ==> old(self)@.step_yields(0, res, final(self)@)
                &&& fetched.wants_random() ==> {
                    ||| res == Err::<(), Chip8Error>(
                        Chip8Error::RandomSourceFailed {
                            insn: fetched.insn,
                            pc: fetched.insn_addr,
                        },
                    ) && final(self)@ == fetched
                    ||| exists|rnd: u8| #[trigger] old(self)@.step_yields(rnd, res, final(self)@)
                }
            },
    {
        match self.fetch() {
            Err(e) => Err(e),
            Ok(()) => {
                let ghost fetched = self@;
                let res = self.decode_and_exec();
                proof {
                    if fetched.wants_random() && !(res == Err::<(), Chip8Error>(
                        Chip8Error::RandomSourceFailed {
                            insn: fetched.insn,
                            pc: fetched.insn_addr,
                        },
                    ) && self@ == fetched) {
                        let rnd = choose|rnd: u8| #[trigger]
                            fetched.yields(fetched.decode_and_exec_spec(rnd), res, self@);
                        assert(old(self)@.step_yields(rnd, res, self@));
                    }
                }
                res
            },
        }
    }

    /// Draws the `n`-row sprite at the index register with its top left pixel
    /// at `(Vx, Vy)`: each sprite bit is XORed onto the display, each pixel
    /// wrapping at the edges on its own. The flag register becomes 1 if any
    /// lit pixel went out, else 0.
    fn update_framebuffer(&mut self, x: u8, y: u8, n: u8) -> (res: Result<(), Chip8Error>)
        requires
            old(self).wf(),
            x < NUM_REGISTERS,
            y < NUM_REGISTERS,
            n < 16,
        ensures
            final(self).wf(),
            old(self)@.yields(
                old(self)@.exec_spec(Instruction::Draw { x, y, n }, 0),
                res,
                final(self)@,
            ),
    {
        if let Some(e) = self.check_span(n as usize) {
            return Err(e);
        }
        let base: usize = self.idx_register as usize;
        let vx: u8 = self.registers[x as usize];
        let vy: usize = self.registers[y as usize] as usize;
        let ghost fb = self@.framebuffer;
        let ghost sprite = self@.sprite(n);
        let mut vf: u8 = 0;
        let mut row: usize = 0;
        while row < n as usize
            invariant
                n < 16,
                row <= n,
                vy < 0x100,
                base == old(self)@.index,
                in_memory(base as int, n as int),
                fb == old(self)@.framebuffer,
                fb.len() == SCREEN_HEIGHT,
                sprite == old(self)@.sprite(n),
                (Machine { framebuffer: fb, ..self@ }) == old(self)@,
                self@.framebuffer == draw_rows(fb, sprite, vx as int, vy as int, row as int),
                vf == 0 || vf == 1,
                vf == 1 <==> rows_collide(fb, sprite, vx as int, vy as int, row as int),
            decreases n - row,
        {
            let sprite_byte: u8 = self.memory[base + row];
            let pixel_y: usize = (vy + row) % SCREEN_HEIGHT;
            proof {
                lemma_draw_one_more_row(fb, sprite, vx as int, vy as int, row as int);
                assert(sprite_byte == sprite[row as int]);
                assert(self.framebuffer@[pixel_y as int]@ == self@.framebuffer[pixel_y as int]);
            }
            let ghost before = self@.framebuffer;
            let (line, collided) = xor_sprite_row(self.framebuffer[pixel_y], sprite_byte, vx);
            self.framebuffer[pixel_y] = line;
            if collided {
                vf = 1;
            }
            row += 1;
            assert(self@.framebuffer =~= before.update(pixel_y as int, line@));
        }
        self.registers[FLAG] = vf;
        Ok(())
    }

    /// The program counter.
    pub fn pc(&self) -> (r: u16)
        ensures
            r == self@.pc,
    {
        self.pc
    }

    /// The index register.
    pub fn index(&self) -> (r: u16)
        ensures
            r == self@.index,
    {
        self.idx_register
    }

    /// The instruction word most recently fetched.
    pub fn current_instruction(&self) -> (r: u16)
        ensures
            r == self@.insn,
    {
        self.current_insn
    }

    /// The value of register `x`.
    pub fn register(&self, x: usize) -> (r: u8)
        requires
            x < NUM_REGISTERS,
        ensures
            r == self@.registers[x as int],
    {
        self.registers[x]
    }

    /// The byte of memory at `addr`.
    pub fn memory_at(&self, addr: usize) -> (r: u8)
        requires
            addr < MEMORY_SIZE,
        ensures
            r == self@.memory[addr as int],
    {
        self.memory[addr]
    }

    /// The number of return addresses on the call stack.
    pub fn stack_depth(&self) -> (r: usize)
        ensures
            r == self@.stack.len(),
    {
        self.stack.len()
    }

    /// The delay timer.
    pub fn delay_timer(&self) -> (r: u8)
        ensures
            r == self@.delay,
    {
        self.dt_register
    }

    /// The sound timer.
    pub fn sound_timer(&self) -> (r: u8)
        ensures
            r == self@.sound,
    {
        self.st_register
    }

    /// The display, row by row.
    pub fn get_framebuffer(&self) -> (fb: &[[bool; SCREEN_WIDTH]; SCREEN_HEIGHT])
        ensures
            forall|row: int, col: int|
                0 <= row < SCREEN_HEIGHT && 0 <= col < SCREEN_WIDTH ==> fb@[row]@[col]
                    == self@.framebuffer[row][col],
    {
        &self.framebuffer
    }

    /// The display drawn as text for a console: one line per row, `#` for a
    /// lit pixel and a space for an unlit one.
    pub fn draw_framebuffer_console(&self) -> (text: Vec<u8>)
        ensures
            text@ == console_text(self@.framebuffer),
    {
        render_console(&self.framebuffer)
    }

    /// Whether key `k` is down.
    pub fn key(&self, k: usize) -> (r: bool)
        requires
            k < NUM_KEYS,
        ensures
            r == self@.keys[k as int],
    {
        self.keys[k]
    }

    /// Puts key `k` down or up.
    pub fn set_key(&mut self, k: usize, down: bool)
        requires
            old(self).wf(),
            k < NUM_KEYS,
        ensures
            final(self).wf(),
            final(self)@ == (Machine { keys: old(self)@.keys.update(k as int, down), ..old(self)@ }),
    {
        self.keys[k] = down;
    }

    /// Replaces the state of the whole keypad.
    pub fn set_keys(&mut self, keys: [bool; NUM_KEYS])
        requires
            old(self).wf(),
        ensures
            final(self).wf(),
            final(self)@ == (Machine { keys: keys@, ..old(self)@ }),
    {
        self.keys = keys;
    }

    /// Lets one tick of the 60 Hz clock pass: each timer that is not yet zero
    /// goes down by one.
    pub fn tick_timers(&mut self)
        requires
            old(self).wf(),
        ensures
            final(self).wf(),
            final(self)@ == old(self)@.tick_spec(),
    {
        if self.dt_register > 0 {
            self.dt_register -= 1;
        }
        if self.st_register > 0 {
            self.st_register -= 1;
        }
    }
}

} // verus!
