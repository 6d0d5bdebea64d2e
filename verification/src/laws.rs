use vstd::prelude::*;
use crate::display::{
    blank_screen, draw_sprite, lemma_sprite_row_target, row_collides, row_covers, sprite_bit,
    sprite_collides, sprite_row_at, xor_row, SCREEN_HEIGHT, SCREEN_WIDTH,
};
use crate::error::Chip8Error;
use crate::font::{font_table, FONT_SIZE};
use crate::instruction::{decode_spec, lemma_decode_complete, lemma_decode_wf, Instruction};
use crate::machine::{
    first_key_down, Machine, FLAG, MEMORY_SIZE, NUM_KEYS, NUM_REGISTERS, PROGRAM_START,
    STACK_DEPTH,
};

verus! {

/// Whether a display has its 32 rows of 64 pixels.
pub open spec fn screen_sized(fb: Seq<Seq<bool>>) -> bool {
    &&& fb.len() == SCREEN_HEIGHT
    &&& forall|row: int| 0 <= row < SCREEN_HEIGHT ==> (#[trigger] fb[row]).len() == SCREEN_WIDTH
}

/// A machine that was just built on a program is well formed, starts at
/// 0x200 with every register, the index register and both timers zero, an
/// empty stack, a dark display and no key down, and holds the font table in
/// its first 80 bytes and the program from 0x200 on.
pub proof fn lemma_initial_machine(program: Seq<u8>)
    requires
        program.len() <= MEMORY_SIZE - PROGRAM_START,
    ensures
        ({
            let m = Machine::initial(program);
            &&& m.wf()
            &&& m.pc == 0x200
            &&& m.index == 0
            &&& m.delay == 0 && m.sound == 0
            &&& m.stack.len() == 0
            &&& forall|r: int| 0 <= r < NUM_REGISTERS ==> m.registers[r] == 0
            &&& forall|k: int| 0 <= k < NUM_KEYS ==> !m.keys[k]
            &&& forall|row: int, col: int|
                0 <= row < SCREEN_HEIGHT && 0 <= col < SCREEN_WIDTH ==> !m.framebuffer[row][col]
            &&& m.memory.subrange(0, FONT_SIZE as int) == font_table()
            &&& m.memory.subrange(PROGRAM_START as int, PROGRAM_START + program.len()) == program
        }),
{
    let m = Machine::initial(program);
    assert(m.memory.subrange(0, FONT_SIZE as int) =~= font_table());
    assert(m.memory.subrange(PROGRAM_START as int, PROGRAM_START + program.len()) =~= program);
}

/// Fetching changes the program counter and the current instruction and
/// nothing else: memory, registers, display, stack, index register, timers
/// and keypad are as before.
pub proof fn lemma_fetch_touches_only_pc_and_instruction(s: Machine)
    ensures
        s.fetch_spec() matches Ok(t) ==> {
            &&& t.memory == s.memory
            &&& t.registers == s.registers
            &&& t.framebuffer == s.framebuffer
            &&& t.stack == s.stack
            &&& t.index == s.index
            &&& t.delay == s.delay
            &&& t.sound == s.sound
            &&& t.keys == s.keys
            &&& t.pc == s.pc + 2
            &&& t.insn_addr == s.pc
        },
{
}

/// No operation breaks the machine's invariant: whatever is executed, the
/// parts keep their sizes and the call stack stays within its depth.
pub proof fn lemma_exec_keeps_wf(s: Machine, op: Instruction, rnd: u8)
    requires
        s.wf(),
        op.wf(),
    ensures
        s.exec_spec(op, rnd) matches Ok(t) ==> t.wf(),
{
}

/// A whole step keeps the machine's invariant, and so does the machine that
/// a failed step leaves behind.
pub proof fn lemma_step_keeps_wf(s: Machine, rnd: u8)
    requires
        s.wf(),
    ensures
        s.step_spec(rnd) matches Ok(t) ==> t.wf(),
        s.after_failed_step().wf(),
{
    if let Ok(fetched) = s.fetch_spec() {
        if let Some(op) = decode_spec(fetched.insn) {
            lemma_decode_wf(fetched.insn);
            lemma_exec_keeps_wf(fetched, op, rnd);
        }
    }
}

/// Whether the program counter and every return address on the stack lie on
/// the two-byte grid of instructions.
pub open spec fn aligned(s: Machine) -> bool {
    &&& s.pc % 2 == 0
    &&& forall|i: int| 0 <= i < s.stack.len() ==> #[trigger] s.stack[i] % 2 == 0
}

/// Whether `op` names an odd address as the place to go on from.
pub open spec fn leaves_grid(s: Machine, op: Instruction) -> bool {
    match op {
        Instruction::Jump { addr } => addr % 2 != 0,
        Instruction::Call { addr } => addr % 2 != 0,
        Instruction::JumpOffset { addr } => (s.reg(0) + addr) % 2 != 0,
        _ => false,
    }
}

/// The program counter stays on the two-byte grid: a fetch keeps it there,
/// and so does every operation that does not itself jump to an odd address.
pub proof fn lemma_alignment_is_kept(s: Machine, op: Instruction, rnd: u8)
    requires
        s.wf(),
        op.wf(),
        aligned(s),
    ensures
        s.fetch_spec() matches Ok(t) ==> aligned(t),
        !leaves_grid(s, op) ==> (s.exec_spec(op, rnd) matches Ok(t) ==> aligned(t)),
{
    if let Ok(t) = s.exec_spec(op, rnd) {
        match op {
            Instruction::Call { addr } => {
                assert forall|i: int| 0 <= i < t.stack.len() implies #[trigger] t.stack[i] % 2
                    == 0 by {
                    if i < s.stack.len() {
                        assert(t.stack[i] == s.stack[i]);
                    }
                }
            },
            Instruction::Return => {
                assert(s.stack[s.stack.len() - 1] % 2 == 0);
                assert forall|i: int| 0 <= i < t.stack.len() implies #[trigger] t.stack[i] % 2
                    == 0 by {
                    assert(t.stack[i] == s.stack[i]);
                }
            },
            _ => {},
        }
    }
}

/// Only the random instruction looks at the random byte.
pub proof fn lemma_random_byte_matters_to_random_only(s: Machine, op: Instruction, a: u8, b: u8)
    requires
        !(op is Random),
    ensures
        s.exec_spec(op, a) == s.exec_spec(op, b),
{
}

/// A call followed by a return is no change at all: the call moves to the
/// subroutine and pushes the address it came from, and the return takes the
/// machine back to exactly where it was.
pub proof fn lemma_call_then_return(s: Machine, addr: u16, rnd: u8)
    requires
        s.wf(),
        s.stack.len() < STACK_DEPTH,
    ensures
        s.exec_spec(Instruction::Call { addr }, rnd) matches Ok(called) && {
            &&& called.pc == addr
            &&& called.stack == s.stack.push(s.pc)
            &&& called.exec_spec(Instruction::Return, rnd) == Ok::<Machine, Chip8Error>(s)
        },
{
    let called = s.exec_spec(Instruction::Call { addr }, rnd)->Ok_0;
    assert(called.stack.drop_last() =~= s.stack);
}

/// The round trip through a subroutine, step by step: with a call to `addr`
/// at the program counter and a return at `addr`, the first step lands on
/// `addr` with the address after the call on the stack, and the second step
/// comes back to the address after the call with the stack as it was.
pub proof fn lemma_subroutine_round_trip(s: Machine, addr: u16, rnd1: u8, rnd2: u8)
    requires
        s.wf(),
        s.stack.len() < STACK_DEPTH,
        s.pc + 1 < MEMORY_SIZE,
        addr + 1 < MEMORY_SIZE,
        s.memory[s.pc as int] == 0x20 + addr / 0x100,
        s.memory[s.pc + 1] == addr % 0x100,
        s.memory[addr as int] == 0x00,
        s.memory[addr + 1] == 0xEE,
    ensures
        s.step_spec(rnd1) matches Ok(called) && {
            &&& called.pc == addr
            &&& called.stack == s.stack.push((s.pc + 2) as u16)
            &&& called.step_spec(rnd2) == Ok::<Machine, Chip8Error>(
                Machine { pc: (s.pc + 2) as u16, insn: 0x00EE, insn_addr: addr, ..s },
            )
        },
{
    let call = Instruction::Call { addr };
    lemma_decode_complete(call);
    assert(0x100 * (0x20 + addr / 0x100) + addr % 0x100 == 0x2000 + addr);
    let fetched = s.fetch_spec()->Ok_0;
    assert(fetched.insn == call.encoding());
    let called = s.step_spec(rnd1)->Ok_0;
    let back = called.fetch_spec()->Ok_0;
    assert(back.insn == 0x00EE);
    assert(decode_spec(0x00EE) == Some(Instruction::Return));
    assert(called.stack.drop_last() =~= s.stack);
}

/// The word for "wait for a key into register `x`".
pub open spec fn wait_key_word(x: u8) -> u16 {
    (0xF00A + 0x100 * x) as u16
}

/// Whether the instruction at the program counter is "wait for a key into
/// register `x`".
pub open spec fn at_wait_key(s: Machine, x: u8) -> bool {
    &&& x < NUM_REGISTERS
    &&& s.pc + 1 < MEMORY_SIZE
    &&& s.memory[s.pc as int] == 0xF0 + x
    &&& s.memory[s.pc + 1] == 0x0A
}

/// Waiting for a key blocks: with no key down, a step on the wait
/// instruction leaves the program counter where it was, so the same
/// instruction is fetched again. Nothing but the record of the current
/// instruction changes.
pub proof fn lemma_wait_key_blocks(s: Machine, x: u8, rnd: u8)
    requires
        s.wf(),
        at_wait_key(s, x),
        forall|k: int| 0 <= k < NUM_KEYS ==> !s.keys[k],
    ensures
        s.step_spec(rnd) == Ok::<Machine, Chip8Error>(
            Machine { insn: wait_key_word(x), insn_addr: s.pc, ..s },
        ),
{
    lemma_decode_complete(Instruction::WaitKey { x });
    let fetched = s.fetch_spec()->Ok_0;
    assert(fetched.insn == wait_key_word(x));
    assert(first_key_down(s.keys) is None);
}

/// However many steps are taken on a wait instruction while no key is down,
/// the run never fails and the program counter, memory, registers, display,
/// stack, timers and keypad all stay as they were.
pub proof fn lemma_wait_key_blocks_forever(s: Machine, x: u8, rnds: Seq<u8>)
    requires
        s.wf(),
        at_wait_key(s, x),
        forall|k: int| 0 <= k < NUM_KEYS ==> !s.keys[k],
    ensures
        s.steps_spec(rnds) matches Ok(t) && {
            &&& t.pc == s.pc
            &&& rnds.len() > 0 ==> t == (Machine { insn: wait_key_word(x), insn_addr: s.pc, ..s })
            &&& rnds.len() == 0 ==> t == s
        },
    decreases rnds.len(),
{
    if rnds.len() > 0 {
        lemma_wait_key_blocks(s, x, rnds[0]);
        let next = Machine { insn: wait_key_word(x), insn_addr: s.pc, ..s };
        lemma_wait_key_blocks_forever(next, x, rnds.drop_first());
    }
}

/// Waiting for a key ends with the key: with key `k` down and no lower key
/// down, a step on the wait instruction stores `k` in the register and moves
/// on to the next instruction.
pub proof fn lemma_wait_key_takes_lowest_key(s: Machine, x: u8, k: int, rnd: u8)
    requires
        s.wf(),
        at_wait_key(s, x),
        0 <= k < NUM_KEYS,
        s.keys[k],
        forall|j: int| 0 <= j < k ==> !s.keys[j],
    ensures
        s.step_spec(rnd) == Ok::<Machine, Chip8Error>(
            Machine {
                pc: (s.pc + 2) as u16,
                registers: s.registers.update(x as int, k as u8),
                insn: wait_key_word(x),
                insn_addr: s.pc,
                ..s
            },
        ),
{
    lemma_decode_complete(Instruction::WaitKey { x });
    let fetched = s.fetch_spec()->Ok_0;
    assert(fetched.insn == wait_key_word(x));
    lemma_first_key_down(s.keys, k);
}

/// The lowest key that is down is the one below which no key is down.
pub proof fn lemma_first_key_down(keys: Seq<bool>, k: int)
    requires
        0 <= k < keys.len(),
        keys[k],
        forall|j: int| 0 <= j < k ==> !keys[j],
    ensures
        first_key_down(keys) == Some(k),
{
    let c = choose|c: int|
        0 <= c < keys.len() && keys[c] && forall|j: int| 0 <= j < c ==> !keys[j];
    assert(c == k) by {
        if c < k {
            assert(!keys[c]);
        }
        if k < c {
            assert(!keys[k]);
        }
    }
}

/// Each sprite pixel lands on its own wrapped cell: bit `c` of sprite row `r`
/// is XORed onto column `(vx + c) % 64` of row `(vy + r) % 32`.
pub proof fn lemma_sprite_pixel_lands_wrapped(
    fb: Seq<Seq<bool>>,
    sprite: Seq<u8>,
    vx: int,
    vy: int,
    r: int,
    c: int,
)
    requires
        screen_sized(fb),
        0 <= vx,
        0 <= vy,
        0 <= r < sprite.len() <= SCREEN_HEIGHT,
        0 <= c < 8,
    ensures
        ({
            let row = (vy + r) % (SCREEN_HEIGHT as int);
            let col = (vx + c) % (SCREEN_WIDTH as int);
            draw_sprite(fb, sprite, vx, vy)[row][col] == (fb[row][col] ^ sprite_bit(sprite[r], c))
        }),
{
    let row = (vy + r) % (SCREEN_HEIGHT as int);
    let col = (vx + c) % (SCREEN_WIDTH as int);
    assert(sprite_row_at(vy, row) == r);
    assert((col - vx) % (SCREEN_WIDTH as int) == c);
}

/// A cell that no sprite pixel lands on keeps its state.
pub proof fn lemma_pixel_outside_sprite_stays(
    fb: Seq<Seq<bool>>,
    sprite: Seq<u8>,
    vx: int,
    vy: int,
    row: int,
    col: int,
)
    requires
        screen_sized(fb),
        0 <= row < SCREEN_HEIGHT,
        0 <= col < SCREEN_WIDTH,
        sprite_row_at(vy, row) >= sprite.len() || (col - vx) % (SCREEN_WIDTH as int) >= 8,
    ensures
        draw_sprite(fb, sprite, vx, vy)[row][col] == fb[row][col],
{
}

/// Drawing is its own inverse: the same sprite drawn twice at the same place
/// leaves the display as it was.
pub proof fn lemma_draw_twice_restores(fb: Seq<Seq<bool>>, sprite: Seq<u8>, vx: int, vy: int)
    requires
        screen_sized(fb),
    ensures
        draw_sprite(draw_sprite(fb, sprite, vx, vy), sprite, vx, vy) == fb,
{
    let once = draw_sprite(fb, sprite, vx, vy);
    let twice = draw_sprite(once, sprite, vx, vy);
    assert forall|row: int| 0 <= row < SCREEN_HEIGHT implies twice[row] == fb[row] by {
        assert(fb[row].len() == SCREEN_WIDTH);
        assert(twice[row] =~= fb[row]);
    }
    assert(twice =~= fb);
}

/// On a dark display nothing can collide.
pub proof fn lemma_no_collision_on_blank_screen(sprite: Seq<u8>, vx: int, vy: int)
    ensures
        !sprite_collides(blank_screen(), sprite, vx, vy),
{
    let fb = blank_screen();
    if sprite_collides(fb, sprite, vx, vy) {
        let row = choose|row: int|
            0 <= row < SCREEN_HEIGHT && sprite_row_at(vy, row) < sprite.len() && row_collides(
                #[trigger] fb[row],
                sprite[sprite_row_at(vy, row)],
                vx,
            );
        let byte = sprite[sprite_row_at(vy, row)];
        let col = choose|col: int|
            0 <= col < SCREEN_WIDTH && #[trigger] fb[row][col] && row_covers(byte, vx, col);
        assert(!fb[row][col]);
    }
}

/// Every bit of the byte 0xFF is set.
proof fn lemma_solid_byte(shift: u8)
    by (bit_vector)
    requires
        shift < 8,
    ensures
        (0xFFu8 >> shift) & 1 == 1,
{
}

/// Column `col` is `c` places to the right of `vx`, wrapped, exactly when it
/// is column `(vx + c) % 64`.
pub proof fn lemma_sprite_column_target(vx: int, c: int, col: int)
    requires
        0 <= vx,
        0 <= c < SCREEN_WIDTH,
        0 <= col < SCREEN_WIDTH,
    ensures
        (col - vx) % (SCREEN_WIDTH as int) == c <==> col == (vx + c) % (SCREEN_WIDTH as int),
{
}

/// One cell of the display after the solid one-row sprite was drawn on a dark
/// display: lit exactly when it lies in the sprite's row and is one of the
/// eight columns from `vx` on, wrapped.
proof fn lemma_solid_row_cell(vx: int, vy: int, row: int, col: int)
    requires
        0 <= vx,
        0 <= vy,
        0 <= row < SCREEN_HEIGHT,
        0 <= col < SCREEN_WIDTH,
    ensures
        draw_sprite(blank_screen(), seq![0xFFu8], vx, vy)[row][col] <==> row == vy % (
        SCREEN_HEIGHT as int) && (col - vx) % (SCREEN_WIDTH as int) < 8,
{
    let sprite = seq![0xFFu8];
    let blank = blank_screen();
    let first = draw_sprite(blank, sprite, vx, vy);
    lemma_sprite_row_target(vy, 0, row);
    if row == vy % (SCREEN_HEIGHT as int) {
        assert(sprite_row_at(vy, row) == 0);
        assert(first[row] == xor_row(blank[row], 0xFFu8, vx));
        let c = (col - vx) % (SCREEN_WIDTH as int);
        assert(first[row][col] == row_covers(0xFFu8, vx, col));
        if c < 8 {
            lemma_solid_byte((7 - c) as u8);
            assert(sprite_bit(0xFFu8, c));
        }
    } else {
        assert(first[row] == blank[row]);
    }
}

/// The first draw of the solid one-row sprite on a dark display lights the
/// eight cells from column `vx` on in row `vy` (wrapped) and no other, and
/// does not collide.
pub proof fn lemma_solid_row_first_draw(vx: int, vy: int)
    requires
        0 <= vx,
        0 <= vy,
    ensures
        ({
            let first = draw_sprite(blank_screen(), seq![0xFFu8], vx, vy);
            &&& !sprite_collides(blank_screen(), seq![0xFFu8], vx, vy)
            &&& forall|c: int|
                0 <= c < 8 ==> first[vy % (SCREEN_HEIGHT as int)][#[trigger] ((vx + c) % (
                SCREEN_WIDTH as int))]
            &&& forall|row: int, col: int|
                0 <= row < SCREEN_HEIGHT && 0 <= col < SCREEN_WIDTH ==> (#[trigger] first[row][col]
                    <==> row == vy % (SCREEN_HEIGHT as int) && (col - vx) % (SCREEN_WIDTH as int)
                    < 8)
        }),
{
    let first = draw_sprite(blank_screen(), seq![0xFFu8], vx, vy);
    let target = vy % (SCREEN_HEIGHT as int);
    lemma_no_collision_on_blank_screen(seq![0xFFu8], vx, vy);
    assert forall|row: int, col: int|
        0 <= row < SCREEN_HEIGHT && 0 <= col < SCREEN_WIDTH implies (#[trigger] first[row][col]
        <==> row == target && (col - vx) % (SCREEN_WIDTH as int) < 8) by {
        lemma_solid_row_cell(vx, vy, row, col);
    }
    assert forall|c: int| 0 <= c < 8 implies first[target][#[trigger] ((vx + c) % (
    SCREEN_WIDTH as int))] by {
        let col = (vx + c) % (SCREEN_WIDTH as int);
        lemma_sprite_column_target(vx, c, col);
        lemma_solid_row_cell(vx, vy, target, col);
    }
}

/// The second draw of the solid one-row sprite at the same place collides
/// and leaves the display dark again.
pub proof fn lemma_solid_row_second_draw(vx: int, vy: int)
    requires
        0 <= vx,
        0 <= vy,
    ensures
        ({
            let first = draw_sprite(blank_screen(), seq![0xFFu8], vx, vy);
            &&& sprite_collides(first, seq![0xFFu8], vx, vy)
            &&& draw_sprite(first, seq![0xFFu8], vx, vy) == blank_screen()
        }),
{
    let sprite = seq![0xFFu8];
    let first = draw_sprite(blank_screen(), sprite, vx, vy);
    let target = vy % (SCREEN_HEIGHT as int);
    let col = vx % (SCREEN_WIDTH as int);
    lemma_sprite_row_target(vy, 0, target);
    lemma_sprite_column_target(vx, 0, col);
    lemma_solid_row_cell(vx, vy, target, col);
    lemma_solid_byte(7);
    assert(sprite_bit(0xFFu8, 0));
    assert(row_covers(0xFFu8, vx, col));
    assert(first[target][col]);
    assert(row_collides(first[target], 0xFFu8, vx));
    assert(sprite[sprite_row_at(vy, target)] == 0xFFu8);
    assert(sprite_collides(first, sprite, vx, vy));
    lemma_draw_twice_restores(blank_screen(), sprite, vx, vy);
}

/// The same on the machine: with the byte 0xFF at the index register, a dark
/// display and coordinates in two registers other than the flag register,
/// the first draw of one row lights the eight cells and clears the flag, and
/// the second draw leaves the display dark again with the flag set.
pub proof fn lemma_draw_solid_row_twice(s: Machine, x: u8, y: u8, rnd: u8)
    requires
        s.wf(),
        x < FLAG,
        y < FLAG,
        s.index < MEMORY_SIZE,
        s.memory[s.index as int] == 0xFF,
        s.framebuffer == blank_screen(),
    ensures
        ({
            let draw = Instruction::Draw { x, y, n: 1 };
            let vx = s.reg(x) as int;
            let vy = s.reg(y) as int;
            s.exec_spec(draw, rnd) matches Ok(first) && {
                &&& first.registers[FLAG as int] == 0
                &&& forall|c: int|
                    0 <= c < 8 ==> first.framebuffer[vy % (SCREEN_HEIGHT as int)][#[trigger] ((vx
                        + c) % (SCREEN_WIDTH as int))]
                &&& first.exec_spec(draw, rnd) matches Ok(second) && {
                    &&& second.registers[FLAG as int] == 1
                    &&& second.framebuffer == blank_screen()
                }
            }
        }),
{
    let draw = Instruction::Draw { x, y, n: 1 };
    let vx = s.reg(x) as int;
    let vy = s.reg(y) as int;
    lemma_solid_row_first_draw(vx, vy);
    lemma_solid_row_second_draw(vx, vy);
    assert(s.sprite(1) =~= seq![0xFFu8]);
    let first = s.exec_spec(draw, rnd)->Ok_0;
    assert(first.sprite(1) =~= seq![0xFFu8]);
    assert(first.reg(x) == s.reg(x) && first.reg(y) == s.reg(y));
}

/// What the three bytes hold after the decimal digits of register `x` were
/// stored: hundreds, tens and ones, each a digit, together the register's
/// value. Nothing else in memory changes.
pub proof fn lemma_store_bcd(s: Machine, x: u8, rnd: u8)
    requires
        s.wf(),
        x < NUM_REGISTERS,
        s.index + 2 < MEMORY_SIZE,
    ensures
        s.exec_spec(Instruction::StoreBcd { x }, rnd) matches Ok(t) && {
            let h = t.memory[s.index as int];
            let d = t.memory[s.index + 1];
            let o = t.memory[s.index + 2];
            &&& h < 10 && d < 10 && o < 10
            &&& 100 * h + 10 * d + o == s.reg(x)
            &&& forall|a: int|
                0 <= a < MEMORY_SIZE && !(s.index <= a <= s.index + 2) ==> t.memory[a]
                    == s.memory[a]
            &&& t == (Machine { memory: t.memory, ..s })
        },
{
}

} // verus!
