use chip8::cpu::Cpu;
use chip8::error::Chip8Error;
use chip8::instruction::Instruction;

fn machine(program: &[u8]) -> Cpu {
    Cpu::new(program).unwrap()
}

/// Loads `program`, takes `steps` steps, all of which must succeed.
fn run(program: &[u8], steps: usize) -> Cpu {
    let mut cpu = machine(program);
    for _ in 0..steps {
        assert_eq!(cpu.step(), Ok(()));
    }
    cpu
}

#[test]
fn add_registers_with_carry() {
    // V0 = 0xFF, V1 = 0x01, V0 += V1.
    let cpu = run(&[0x60, 0xFF, 0x61, 0x01, 0x80, 0x14], 3);
    assert_eq!(cpu.register(0), 0x00);
    assert_eq!(cpu.register(0xF), 1);
    assert_eq!(cpu.register(1), 0x01);
}

#[test]
fn add_registers_without_carry() {
    let cpu = run(&[0x60, 0x01, 0x61, 0x01, 0x80, 0x14], 3);
    assert_eq!(cpu.register(0), 0x02);
    assert_eq!(cpu.register(0xF), 0);
}

#[test]
fn add_registers_clears_a_flag_that_was_set() {
    // VF = 1, V0 = 1, V1 = 1, V0 += V1.
    let cpu = run(&[0x6F, 0x01, 0x60, 0x01, 0x61, 0x01, 0x80, 0x14], 4);
    assert_eq!(cpu.register(0), 0x02);
    assert_eq!(cpu.register(0xF), 0);
}

#[test]
fn sub_registers_with_borrow() {
    // V2 = 0x05, V3 = 0x0A, V2 -= V3.
    let cpu = run(&[0x62, 0x05, 0x63, 0x0A, 0x82, 0x35], 3);
    assert_eq!(cpu.register(2), 0xFB);
    assert_eq!(cpu.register(0xF), 0);
}

#[test]
fn sub_registers_without_borrow() {
    let cpu = run(&[0x62, 0x0A, 0x63, 0x05, 0x82, 0x35], 3);
    assert_eq!(cpu.register(2), 0x05);
    assert_eq!(cpu.register(0xF), 1);
}

#[test]
fn sub_equal_registers_sets_the_flag() {
    // VF = 0 explicitly, V2 = V3 = 7, V2 -= V3: nothing was borrowed.
    let cpu = run(&[0x6F, 0x00, 0x62, 0x07, 0x63, 0x07, 0x82, 0x35], 4);
    assert_eq!(cpu.register(2), 0);
    assert_eq!(cpu.register(0xF), 1);
}

#[test]
fn subn_subtracts_the_other_way_round() {
    // V2 = 0x05, V3 = 0x0A, V2 = V3 - V2.
    let cpu = run(&[0x62, 0x05, 0x63, 0x0A, 0x82, 0x37], 3);
    assert_eq!(cpu.register(2), 0x05);
    assert_eq!(cpu.register(0xF), 1);
    // V2 = 0x0A, V3 = 0x05, V2 = V3 - V2.
    let cpu = run(&[0x62, 0x0A, 0x63, 0x05, 0x82, 0x37], 3);
    assert_eq!(cpu.register(2), 0xFB);
    assert_eq!(cpu.register(0xF), 0);
}

#[test]
fn shift_right_halves_and_keeps_the_low_bit() {
    let cpu = run(&[0x64, 0x07, 0x84, 0x06], 2);
    assert_eq!(cpu.register(4), 0x03);
    assert_eq!(cpu.register(0xF), 1);
    let cpu = run(&[0x64, 0x08, 0x84, 0x06], 2);
    assert_eq!(cpu.register(4), 0x04);
    assert_eq!(cpu.register(0xF), 0);
}

#[test]
fn shift_left_doubles_and_keeps_the_high_bit() {
    let cpu = run(&[0x64, 0x81, 0x84, 0x0E], 2);
    assert_eq!(cpu.register(4), 0x02);
    assert_eq!(cpu.register(0xF), 1);
    let cpu = run(&[0x64, 0x41, 0x84, 0x0E], 2);
    assert_eq!(cpu.register(4), 0x82);
    assert_eq!(cpu.register(0xF), 0);
}

#[test]
fn shifts_work_on_vx_and_ignore_vy() {
    // V4 = 0x10, V5 = 0x03, shift V4 right with y = 5.
    let cpu = run(&[0x64, 0x10, 0x65, 0x03, 0x84, 0x56], 3);
    assert_eq!(cpu.register(4), 0x08);
    assert_eq!(cpu.register(5), 0x03);
    assert_eq!(cpu.register(0xF), 0);
}

#[test]
fn flag_is_written_after_the_result() {
    // VF = 0xFF, V1 = 0x02, VF += V1: the carry is what stays in VF.
    let cpu = run(&[0x6F, 0xFF, 0x61, 0x02, 0x8F, 0x14], 3);
    assert_eq!(cpu.register(0xF), 1);
    // VF = 0x03, V1 = 0x02, VF += V1: no carry.
    let cpu = run(&[0x6F, 0x03, 0x61, 0x02, 0x8F, 0x14], 3);
    assert_eq!(cpu.register(0xF), 0);
    // VF = 0x03, shift VF right: the bit shifted out stays.
    let cpu = run(&[0x6F, 0x03, 0x8F, 0x06], 2);
    assert_eq!(cpu.register(0xF), 1);
}

#[test]
fn flag_as_second_operand_is_read_before_it_is_written() {
    // V0 = 0x05, VF = 0x0A, V0 -= VF: 5 - 10 wraps, borrow.
    let cpu = run(&[0x60, 0x05, 0x6F, 0x0A, 0x80, 0xF5], 3);
    assert_eq!(cpu.register(0), 0xFB);
    assert_eq!(cpu.register(0xF), 0);
    // V0 = 0xF0, VF = 0x20, V0 += VF: 0x110 wraps to 0x10, carry.
    let cpu = run(&[0x60, 0xF0, 0x6F, 0x20, 0x80, 0xF4], 3);
    assert_eq!(cpu.register(0), 0x10);
    assert_eq!(cpu.register(0xF), 1);
}

#[test]
fn load_and_add_immediate() {
    let cpu = run(&[0x6A, 0x12, 0x7A, 0x34], 2);
    assert_eq!(cpu.register(0xA), 0x46);
    assert_eq!(cpu.register(0xF), 0);
}

#[test]
fn add_immediate_wraps_and_leaves_the_flag() {
    // VF = 7, VA = 0xFF, VA += 0x02.
    let cpu = run(&[0x6F, 0x07, 0x6A, 0xFF, 0x7A, 0x02], 3);
    assert_eq!(cpu.register(0xA), 0x01);
    assert_eq!(cpu.register(0xF), 7);
}

#[test]
fn move_or_and_xor() {
    let cpu = run(&[0x61, 0x5A, 0x62, 0x0F, 0x83, 0x10], 3);
    assert_eq!(cpu.register(3), 0x5A);
    let cpu = run(&[0x61, 0x5A, 0x62, 0x0F, 0x81, 0x21], 3);
    assert_eq!(cpu.register(1), 0x5F);
    let cpu = run(&[0x61, 0x5A, 0x62, 0x0F, 0x81, 0x22], 3);
    assert_eq!(cpu.register(1), 0x0A);
    let cpu = run(&[0x61, 0x5A, 0x62, 0x0F, 0x81, 0x23], 3);
    assert_eq!(cpu.register(1), 0x55);
    assert_eq!(cpu.register(2), 0x0F);
}

#[test]
fn logic_operations_leave_the_flag() {
    let cpu = run(&[0x6F, 0x09, 0x61, 0x5A, 0x62, 0x0F, 0x81, 0x21, 0x81, 0x22, 0x81, 0x23], 6);
    assert_eq!(cpu.register(0xF), 9);
}

#[test]
fn jump_sets_the_program_counter() {
    let cpu = run(&[0x1A, 0xBC], 1);
    assert_eq!(cpu.pc(), 0xABC);
}

#[test]
fn jump_with_offset_adds_v0() {
    let cpu = run(&[0x60, 0x10, 0xB3, 0x00], 2);
    assert_eq!(cpu.pc(), 0x310);
}

#[test]
fn skip_if_equal_immediate() {
    let cpu = run(&[0x61, 0x42, 0x31, 0x42], 2);
    assert_eq!(cpu.pc(), 0x206);
    let cpu = run(&[0x61, 0x42, 0x31, 0x43], 2);
    assert_eq!(cpu.pc(), 0x204);
}

#[test]
fn skip_if_not_equal_immediate() {
    let cpu = run(&[0x61, 0x42, 0x41, 0x42], 2);
    assert_eq!(cpu.pc(), 0x204);
    let cpu = run(&[0x61, 0x42, 0x41, 0x43], 2);
    assert_eq!(cpu.pc(), 0x206);
}

#[test]
fn skip_if_registers_equal() {
    let cpu = run(&[0x61, 0x42, 0x62, 0x42, 0x51, 0x20], 3);
    assert_eq!(cpu.pc(), 0x208);
    let cpu = run(&[0x61, 0x42, 0x62, 0x43, 0x51, 0x20], 3);
    assert_eq!(cpu.pc(), 0x206);
}

#[test]
fn skip_if_registers_not_equal() {
    let cpu = run(&[0x61, 0x42, 0x62, 0x42, 0x91, 0x20], 3);
    assert_eq!(cpu.pc(), 0x206);
    let cpu = run(&[0x61, 0x42, 0x62, 0x43, 0x91, 0x20], 3);
    assert_eq!(cpu.pc(), 0x208);
}

#[test]
fn skip_never_wraps_the_program_counter() {
    let mut cpu = machine(&[0x60, 0xFF, 0xBF, 0xFF]);
    assert_eq!(cpu.step(), Ok(()));
    assert_eq!(cpu.step(), Ok(()));
    assert_eq!(cpu.pc(), 0x10FE);
    let skip = Instruction::SkipEqReg { x: 1, y: 1 };
    while cpu.pc() < 0xFFFE {
        assert_eq!(cpu.execute(skip, 0), Ok(()));
    }
    assert_eq!(cpu.pc(), 0xFFFE);
    assert_eq!(
        cpu.execute(skip, 0),
        Err(Chip8Error::AddressOutOfRange { addr: 0x10000, insn: 0xBFFF, pc: 0x202 })
    );
    assert_eq!(cpu.pc(), 0xFFFE);
}

#[test]
fn load_index_and_add_to_index() {
    let cpu = run(&[0xA1, 0x23, 0x60, 0xFF, 0xF0, 0x1E], 3);
    assert_eq!(cpu.index(), 0x222);
    assert_eq!(cpu.register(0xF), 0);
}

#[test]
fn add_to_index_may_leave_memory_but_not_sixteen_bits() {
    // I = 0xFFF, V0 = 0xFF: each add moves I on by 0xFF.
    let mut cpu = run(&[0xAF, 0xFF, 0x60, 0xFF], 2);
    let add = Instruction::AddIndex { x: 0 };
    assert_eq!(cpu.execute(add, 0), Ok(()));
    assert_eq!(cpu.index(), 0x10FE);
    while cpu.index() as u32 + 0xFF <= 0xFFFF {
        assert_eq!(cpu.execute(add, 0), Ok(()));
    }
    let stuck = cpu.index();
    assert_eq!(
        cpu.execute(add, 0),
        Err(Chip8Error::AddressOutOfRange {
            addr: stuck as i32 + 0xFF,
            insn: 0x60FF,
            pc: 0x202
        })
    );
    assert_eq!(cpu.index(), stuck);
}

#[test]
fn font_address_is_five_times_the_digit() {
    let cpu = run(&[0x63, 0x0A, 0xF3, 0x29], 2);
    assert_eq!(cpu.index(), 50);
    let cpu = run(&[0x63, 0x00, 0xF3, 0x29], 2);
    assert_eq!(cpu.index(), 0);
    let cpu = run(&[0x63, 0xFF, 0xF3, 0x29], 2);
    assert_eq!(cpu.index(), 1275);
}

#[test]
fn delay_timer_round_trip() {
    // V0 = 0x33, delay = V0, V5 = delay.
    let cpu = run(&[0x60, 0x33, 0xF0, 0x15, 0xF5, 0x07], 3);
    assert_eq!(cpu.delay_timer(), 0x33);
    assert_eq!(cpu.register(5), 0x33);
    assert_eq!(cpu.sound_timer(), 0);
}

#[test]
fn sound_timer_is_set_from_a_register() {
    let cpu = run(&[0x60, 0x44, 0xF0, 0x18], 2);
    assert_eq!(cpu.sound_timer(), 0x44);
    assert_eq!(cpu.delay_timer(), 0);
}

#[test]
fn bcd_of_255() {
    // V7 = 0xFF, I = 0x300, store BCD.
    let cpu = run(&[0x67, 0xFF, 0xA3, 0x00, 0xF7, 0x33], 3);
    assert_eq!(cpu.memory_at(0x300), 2);
    assert_eq!(cpu.memory_at(0x301), 5);
    assert_eq!(cpu.memory_at(0x302), 5);
    assert_eq!(cpu.memory_at(0x303), 0);
    assert_eq!(cpu.memory_at(0x2FF), 0);
    assert_eq!(cpu.index(), 0x300);
}

#[test]
fn bcd_of_small_values() {
    let cpu = run(&[0x67, 0x00, 0xA3, 0x00, 0xF7, 0x33], 3);
    assert_eq!((cpu.memory_at(0x300), cpu.memory_at(0x301), cpu.memory_at(0x302)), (0, 0, 0));
    let cpu = run(&[0x67, 0x07, 0xA3, 0x00, 0xF7, 0x33], 3);
    assert_eq!((cpu.memory_at(0x300), cpu.memory_at(0x301), cpu.memory_at(0x302)), (0, 0, 7));
    let cpu = run(&[0x67, 0x6D, 0xA3, 0x00, 0xF7, 0x33], 3);
    assert_eq!((cpu.memory_at(0x300), cpu.memory_at(0x301), cpu.memory_at(0x302)), (1, 0, 9));
}

#[test]
fn bcd_at_the_end_of_memory() {
    let cpu = run(&[0x67, 0x7B, 0xAF, 0xFD, 0xF7, 0x33], 3);
    assert_eq!((cpu.memory_at(0xFFD), cpu.memory_at(0xFFE), cpu.memory_at(0xFFF)), (1, 2, 3));
}

#[test]
fn bcd_past_the_end_of_memory_fails_and_writes_nothing() {
    let mut cpu = run(&[0x67, 0x7B, 0xAF, 0xFE, 0xF7, 0x33], 2);
    assert_eq!(
        cpu.step(),
        Err(Chip8Error::AddressOutOfRange { addr: 0x1000, insn: 0xF733, pc: 0x204 })
    );
    assert_eq!(cpu.memory_at(0xFFE), 0);
    assert_eq!(cpu.memory_at(0xFFF), 0);
}

#[test]
fn register_dump_is_inclusive() {
    // V0 = 1, V1 = 2, V2 = 3, V3 = 4, I = 0x300, dump V0..=V2.
    let cpu = run(
        &[0x60, 0x01, 0x61, 0x02, 0x62, 0x03, 0x63, 0x04, 0xA3, 0x00, 0xF2, 0x55],
        6,
    );
    assert_eq!(cpu.memory_at(0x300), 1);
    assert_eq!(cpu.memory_at(0x301), 2);
    assert_eq!(cpu.memory_at(0x302), 3);
    assert_eq!(cpu.memory_at(0x303), 0);
    assert_eq!(cpu.index(), 0x300);
}

#[test]
fn register_dump_of_v0_alone() {
    let cpu = run(&[0x60, 0x99, 0x61, 0x77, 0xA3, 0x00, 0xF0, 0x55], 4);
    assert_eq!(cpu.memory_at(0x300), 0x99);
    assert_eq!(cpu.memory_at(0x301), 0);
}

#[test]
fn register_load_inverts_the_dump() {
    // Dump V0..=V2, overwrite them, load them back.
    let cpu = run(
        &[
            0x60, 0x0A, 0x61, 0x0B, 0x62, 0x0C, 0x63, 0x0D, 0xA3, 0x00, 0xF2, 0x55, 0x60, 0x00,
            0x61, 0x00, 0x62, 0x00, 0x63, 0x00, 0xF2, 0x65,
        ],
        11,
    );
    assert_eq!(cpu.register(0), 0x0A);
    assert_eq!(cpu.register(1), 0x0B);
    assert_eq!(cpu.register(2), 0x0C);
    assert_eq!(cpu.register(3), 0x00);
    assert_eq!(cpu.index(), 0x300);
}

#[test]
fn register_load_reads_the_font() {
    // I = 0, load V0..=V4: the glyph for 0.
    let cpu = run(&[0xA0, 0x00, 0xF4, 0x65], 2);
    assert_eq!(
        [cpu.register(0), cpu.register(1), cpu.register(2), cpu.register(3), cpu.register(4)],
        [0xF0, 0x90, 0x90, 0x90, 0xF0]
    );
    assert_eq!(cpu.register(5), 0);
}

#[test]
fn register_dump_past_the_end_of_memory_fails_and_writes_nothing() {
    // I = 0xFFE, dump V0..=V2 would need 0x1000.
    let mut cpu = run(&[0x60, 0x11, 0x61, 0x22, 0xAF, 0xFE, 0xF2, 0x55], 3);
    assert_eq!(
        cpu.step(),
        Err(Chip8Error::AddressOutOfRange { addr: 0x1000, insn: 0xF255, pc: 0x206 })
    );
    assert_eq!(cpu.memory_at(0xFFE), 0);
    assert_eq!(cpu.memory_at(0xFFF), 0);
}

#[test]
fn register_load_past_the_end_of_memory_fails_and_loads_nothing() {
    let mut cpu = run(&[0x60, 0x11, 0xAF, 0xFF, 0xF1, 0x65], 2);
    assert_eq!(
        cpu.step(),
        Err(Chip8Error::AddressOutOfRange { addr: 0x1000, insn: 0xF165, pc: 0x204 })
    );
    assert_eq!(cpu.register(0), 0x11);
}

#[test]
fn register_dump_with_index_beyond_memory_reports_the_index() {
    // I = 0xFFF + 0xFF = 0x10FE, dump V0.
    let mut cpu = run(&[0xAF, 0xFF, 0x60, 0xFF, 0xF0, 0x1E], 3);
    assert_eq!(
        cpu.execute(Instruction::StoreRegs { x: 0 }, 0),
        Err(Chip8Error::AddressOutOfRange { addr: 0x10FE, insn: 0xF01E, pc: 0x204 })
    );
}

#[test]
fn random_is_masked_by_the_immediate() {
    // V3 = 0xFF, then V3 = random & 0x00.
    let cpu = run(&[0x63, 0xFF, 0xC3, 0x00], 2);
    assert_eq!(cpu.register(3), 0);
    for _ in 0..50 {
        let cpu = run(&[0xC3, 0x0F], 1);
        assert!(cpu.register(3) <= 0x0F);
        let cpu = run(&[0xC3, 0xF0], 1);
        assert_eq!(cpu.register(3) & 0x0F, 0);
    }
}

#[test]
fn random_draws_from_the_system_source() {
    // Sixty-four draws that all agree would be a source that is stuck.
    let mut seen = Vec::new();
    for _ in 0..64 {
        let cpu = run(&[0xC0, 0xFF], 1);
        if !seen.contains(&cpu.register(0)) {
            seen.push(cpu.register(0));
        }
    }
    assert!(seen.len() > 1);
}

#[test]
fn random_leaves_flag_and_counter_alone() {
    let cpu = run(&[0x6F, 0x05, 0xC0, 0xFF], 2);
    assert_eq!(cpu.register(0xF), 5);
    assert_eq!(cpu.pc(), 0x204);
}

#[test]
fn execute_random_uses_the_byte_it_is_given() {
    let mut cpu = machine(&[]);
    assert_eq!(cpu.execute(Instruction::Random { x: 2, nn: 0xF0 }, 0xAB), Ok(()));
    assert_eq!(cpu.register(2), 0xA0);
    assert_eq!(cpu.execute(Instruction::Random { x: 2, nn: 0xFF }, 0x5C), Ok(()));
    assert_eq!(cpu.register(2), 0x5C);
    assert_eq!(cpu.execute(Instruction::Random { x: 2, nn: 0x00 }, 0x5C), Ok(()));
    assert_eq!(cpu.register(2), 0x00);
}

#[test]
fn execute_ignores_the_byte_for_other_instructions() {
    let mut a = machine(&[]);
    let mut b = machine(&[]);
    assert_eq!(a.execute(Instruction::LoadImm { x: 1, nn: 0x42 }, 0x00), Ok(()));
    assert_eq!(b.execute(Instruction::LoadImm { x: 1, nn: 0x42 }, 0xFF), Ok(()));
    assert_eq!(a.register(1), b.register(1));
    assert_eq!(a.register(1), 0x42);
}

#[test]
fn skip_if_key_down() {
    let mut cpu = run(&[0x60, 0x07, 0xE0, 0x9E], 1);
    cpu.set_key(7, true);
    assert_eq!(cpu.step(), Ok(()));
    assert_eq!(cpu.pc(), 0x206);
    let mut cpu = run(&[0x60, 0x07, 0xE0, 0x9E], 1);
    cpu.set_key(8, true);
    assert_eq!(cpu.step(), Ok(()));
    assert_eq!(cpu.pc(), 0x204);
}

#[test]
fn skip_if_key_up() {
    let mut cpu = run(&[0x60, 0x07, 0xE0, 0xA1], 1);
    cpu.set_key(7, true);
    assert_eq!(cpu.step(), Ok(()));
    assert_eq!(cpu.pc(), 0x204);
    let mut cpu = run(&[0x60, 0x07, 0xE0, 0xA1], 1);
    assert_eq!(cpu.step(), Ok(()));
    assert_eq!(cpu.pc(), 0x206);
}

#[test]
fn key_instruction_on_a_slot_that_does_not_exist_fails() {
    let mut cpu = run(&[0x60, 0x10, 0xE0, 0x9E], 1);
    assert_eq!(
        cpu.step(),
        Err(Chip8Error::KeyOutOfRange { key: 0x10, insn: 0xE09E, pc: 0x202 })
    );
    let mut cpu = run(&[0x60, 0xFF, 0xE0, 0xA1], 1);
    assert_eq!(
        cpu.step(),
        Err(Chip8Error::KeyOutOfRange { key: 0xFF, insn: 0xE0A1, pc: 0x202 })
    );
    assert_eq!(cpu.pc(), 0x204);
}

#[test]
fn wait_for_key_blocks_until_a_key_is_down() {
    let mut cpu = machine(&[0xF3, 0x0A, 0x61, 0x01]);
    for _ in 0..10 {
        assert_eq!(cpu.step(), Ok(()));
        assert_eq!(cpu.pc(), 0x200);
        assert_eq!(cpu.current_instruction(), 0xF30A);
        assert_eq!(cpu.register(3), 0);
    }
    cpu.set_key(0xB, true);
    assert_eq!(cpu.step(), Ok(()));
    assert_eq!(cpu.pc(), 0x202);
    assert_eq!(cpu.register(3), 0xB);
    assert_eq!(cpu.step(), Ok(()));
    assert_eq!(cpu.register(1), 0x01);
}

#[test]
fn wait_for_key_takes_the_lowest_key() {
    let mut cpu = machine(&[0xF3, 0x0A]);
    cpu.set_key(0xC, true);
    cpu.set_key(0x2, true);
    cpu.set_key(0x9, true);
    assert_eq!(cpu.step(), Ok(()));
    assert_eq!(cpu.register(3), 0x2);
    assert_eq!(cpu.pc(), 0x202);
}

#[test]
fn wait_for_key_takes_key_zero() {
    let mut cpu = machine(&[0x63, 0x55, 0xF3, 0x0A]);
    cpu.set_key(0, true);
    assert_eq!(cpu.step(), Ok(()));
    assert_eq!(cpu.step(), Ok(()));
    assert_eq!(cpu.register(3), 0);
    assert_eq!(cpu.pc(), 0x204);
}

#[test]
fn wait_for_key_cannot_rewind_below_zero() {
    // Jump to 0, then execute the wait twice without a fetch in between.
    let mut cpu = run(&[0x10, 0x00], 1);
    assert_eq!(cpu.pc(), 0);
    assert_eq!(
        cpu.execute(Instruction::WaitKey { x: 0 }, 0),
        Err(Chip8Error::AddressOutOfRange { addr: -2, insn: 0x1000, pc: 0x200 })
    );
    assert_eq!(cpu.pc(), 0);
}

#[test]
fn call_then_return_comes_back_behind_the_call() {
    // 0x200: V0 = 0; 0x202: call 0x300. At 0x300 (offset 0x100): return.
    let mut program = vec![0u8; 0x102];
    program[0] = 0x60;
    program[1] = 0x00;
    program[2] = 0x23;
    program[3] = 0x00;
    program[0x100] = 0x00;
    program[0x101] = 0xEE;
    let mut cpu = machine(&program);
    assert_eq!(cpu.step(), Ok(()));
    assert_eq!(cpu.pc(), 0x202);
    assert_eq!(cpu.step(), Ok(()));
    assert_eq!(cpu.pc(), 0x300);
    assert_eq!(cpu.stack_depth(), 1);
    assert_eq!(cpu.step(), Ok(()));
    assert_eq!(cpu.pc(), 0x204);
    assert_eq!(cpu.stack_depth(), 0);
}

#[test]
fn nested_calls_return_in_reverse_order() {
    // 0x200: call 0x206; 0x202: V1 = 1; 0x204: jump 0x204;
    // 0x206: call 0x20A; 0x208: return; 0x20A: V2 = 2; 0x20C: return.
    let program = [
        0x22, 0x06, 0x61, 0x01, 0x12, 0x04, 0x22, 0x0A, 0x00, 0xEE, 0x62, 0x02, 0x00, 0xEE,
    ];
    let mut cpu = machine(&program);
    assert_eq!(cpu.step(), Ok(()));
    assert_eq!((cpu.pc(), cpu.stack_depth()), (0x206, 1));
    assert_eq!(cpu.step(), Ok(()));
    assert_eq!((cpu.pc(), cpu.stack_depth()), (0x20A, 2));
    assert_eq!(cpu.step(), Ok(()));
    assert_eq!(cpu.register(2), 2);
    assert_eq!(cpu.step(), Ok(()));
    assert_eq!((cpu.pc(), cpu.stack_depth()), (0x208, 1));
    assert_eq!(cpu.step(), Ok(()));
    assert_eq!((cpu.pc(), cpu.stack_depth()), (0x202, 0));
    assert_eq!(cpu.step(), Ok(()));
    assert_eq!(cpu.register(1), 1);
}

#[test]
fn return_on_an_empty_stack_fails() {
    let mut cpu = machine(&[0x00, 0xEE]);
    assert_eq!(cpu.step(), Err(Chip8Error::StackUnderflow { insn: 0x00EE, pc: 0x200 }));
    assert_eq!(cpu.stack_depth(), 0);
    assert_eq!(cpu.pc(), 0x202);
}

#[test]
fn seventeenth_nested_call_fails() {
    // A subroutine that calls itself for ever.
    let mut cpu = machine(&[0x22, 0x00]);
    for depth in 1..=16 {
        assert_eq!(cpu.step(), Ok(()));
        assert_eq!(cpu.stack_depth(), depth);
        assert_eq!(cpu.pc(), 0x200);
    }
    assert_eq!(cpu.step(), Err(Chip8Error::StackOverflow { insn: 0x2200, pc: 0x200 }));
    assert_eq!(cpu.stack_depth(), 16);
    assert_eq!(cpu.pc(), 0x202);
}

#[test]
fn sys_calls_are_not_implemented() {
    let mut cpu = machine(&[0x01, 0x23]);
    assert_eq!(
        cpu.step(),
        Err(Chip8Error::UnimplementedInstruction { insn: 0x0123, pc: 0x200 })
    );
    let mut cpu = machine(&[0x00, 0xE1]);
    assert_eq!(
        cpu.step(),
        Err(Chip8Error::UnimplementedInstruction { insn: 0x00E1, pc: 0x200 })
    );
}

#[test]
fn words_outside_the_table_are_not_implemented() {
    for word in [0x5121u16, 0x8128, 0x812F, 0x9121, 0xE19F, 0xE1A0, 0xF100, 0xF154, 0xF1FF] {
        let mut cpu = machine(&[(word >> 8) as u8, (word & 0xFF) as u8]);
        assert_eq!(
            cpu.step(),
            Err(Chip8Error::UnimplementedInstruction { insn: word, pc: 0x200 })
        );
    }
}
