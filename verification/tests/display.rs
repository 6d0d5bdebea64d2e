use chip8::cpu::{Cpu, SCREEN_HEIGHT, SCREEN_WIDTH};
use chip8::display::xor_sprite_row;
use chip8::error::Chip8Error;
use chip8::instruction::Instruction;

fn machine(program: &[u8]) -> Cpu {
    Cpu::new(program).unwrap()
}

fn run(program: &[u8], steps: usize) -> Cpu {
    let mut cpu = machine(program);
    for _ in 0..steps {
        assert_eq!(cpu.step(), Ok(()));
    }
    cpu
}

/// The cells that are lit, as (column, row) pairs in reading order.
fn lit(cpu: &Cpu) -> Vec<(usize, usize)> {
    let fb = cpu.get_framebuffer();
    let mut cells = Vec::new();
    for row in 0..SCREEN_HEIGHT {
        for col in 0..SCREEN_WIDTH {
            if fb[row][col] {
                cells.push((col, row));
            }
        }
    }
    cells
}

#[test]
fn drawing_the_same_row_twice_lights_then_clears() {
    // V0 = 10, V1 = 5, I = 0x20C, draw, draw, (padding), sprite 0xFF.
    let program = [0x60, 0x0A, 0x61, 0x05, 0xA2, 0x0C, 0xD0, 0x11, 0xD0, 0x11, 0x00, 0x00, 0xFF];
    let mut cpu = run(&program, 4);
    assert_eq!(
        lit(&cpu),
        vec![(10, 5), (11, 5), (12, 5), (13, 5), (14, 5), (15, 5), (16, 5), (17, 5)]
    );
    assert_eq!(cpu.register(0xF), 0);
    assert_eq!(cpu.step(), Ok(()));
    assert_eq!(lit(&cpu), vec![]);
    assert_eq!(cpu.register(0xF), 1);
}

#[test]
fn drawing_clears_a_flag_left_by_an_earlier_collision() {
    // Draw twice at (0, 0) to collide, then once at (0, 8): no collision.
    let program = [
        0xA2, 0x0A, 0xD0, 0x01, 0xD0, 0x01, 0x61, 0x08, 0xD0, 0x11, 0xFF,
    ];
    let mut cpu = run(&program, 3);
    assert_eq!(cpu.register(0xF), 1);
    assert_eq!(cpu.step(), Ok(()));
    assert_eq!(cpu.step(), Ok(()));
    assert_eq!(cpu.register(0xF), 0);
    assert_eq!(lit(&cpu).len(), 8);
}

#[test]
fn lighting_a_dark_pixel_is_no_collision() {
    // Row 0xF0 at (0, 0), then row 0x0F at (0, 0): the bits do not overlap.
    let program = [0xA2, 0x08, 0xD0, 0x01, 0xA2, 0x09, 0xD0, 0x01, 0xF0, 0x0F];
    let cpu = run(&program, 4);
    assert_eq!(cpu.register(0xF), 0);
    assert_eq!(lit(&cpu).len(), 8);
}

#[test]
fn one_pixel_going_out_is_a_collision() {
    // Row 0xF0 at (0, 0), then row 0x18: bit 3 overlaps, bit 4 does not.
    let program = [0xA2, 0x08, 0xD0, 0x01, 0xA2, 0x09, 0xD0, 0x01, 0xF0, 0x18];
    let cpu = run(&program, 4);
    assert_eq!(cpu.register(0xF), 1);
    assert_eq!(lit(&cpu), vec![(0, 0), (1, 0), (2, 0), (4, 0)]);
}

#[test]
fn sprite_bits_are_drawn_most_significant_first() {
    // Row 0x81 at (3, 2).
    let program = [0x60, 0x03, 0x61, 0x02, 0xA2, 0x08, 0xD0, 0x11, 0x81];
    let cpu = run(&program, 4);
    assert_eq!(lit(&cpu), vec![(3, 2), (10, 2)]);
    // Row 0xA0 at (3, 2).
    let program = [0x60, 0x03, 0x61, 0x02, 0xA2, 0x08, 0xD0, 0x11, 0xA0];
    let cpu = run(&program, 4);
    assert_eq!(lit(&cpu), vec![(3, 2), (5, 2)]);
}

#[test]
fn sprite_wraps_around_the_right_edge() {
    // V0 = 60, V1 = 30, I = 0x208, draw two rows of 0xFF.
    let program = [0x60, 0x3C, 0x61, 0x1E, 0xA2, 0x08, 0xD0, 0x12, 0xFF, 0xFF];
    let cpu = run(&program, 4);
    assert_eq!(
        lit(&cpu),
        vec![
            (0, 30), (1, 30), (2, 30), (3, 30), (60, 30), (61, 30), (62, 30), (63, 30),
            (0, 31), (1, 31), (2, 31), (3, 31), (60, 31), (61, 31), (62, 31), (63, 31),
        ]
    );
    assert_eq!(cpu.register(0xF), 0);
}

#[test]
fn sprite_wraps_around_the_bottom_edge() {
    // V0 = 60, V1 = 31: the second row lands on row 0.
    let program = [0x60, 0x3C, 0x61, 0x1F, 0xA2, 0x08, 0xD0, 0x12, 0xFF, 0xFF];
    let cpu = run(&program, 4);
    assert_eq!(
        lit(&cpu),
        vec![
            (0, 0), (1, 0), (2, 0), (3, 0), (60, 0), (61, 0), (62, 0), (63, 0),
            (0, 31), (1, 31), (2, 31), (3, 31), (60, 31), (61, 31), (62, 31), (63, 31),
        ]
    );
}

#[test]
fn coordinates_beyond_the_display_wrap_too() {
    // V0 = 200 (200 % 64 = 8), V1 = 100 (100 % 32 = 4), row 0xC0.
    let program = [0x60, 0xC8, 0x61, 0x64, 0xA2, 0x08, 0xD0, 0x11, 0xC0];
    let cpu = run(&program, 4);
    assert_eq!(lit(&cpu), vec![(8, 4), (9, 4)]);
}

#[test]
fn tallest_sprite_has_fifteen_rows() {
    // I = 0x204, draw 15 rows of 0x80 at (0, 0).
    let mut program = vec![0xA2, 0x04, 0xD0, 0x0F];
    program.extend_from_slice(&[0x80; 15]);
    let cpu = run(&program, 2);
    let expect: Vec<(usize, usize)> = (0..15).map(|row| (0, row)).collect();
    assert_eq!(lit(&cpu), expect);
}

#[test]
fn sprite_of_no_rows_draws_nothing_and_clears_the_flag() {
    let program = [0x6F, 0x01, 0xA2, 0x06, 0xD0, 0x00, 0xFF];
    let cpu = run(&program, 3);
    assert_eq!(lit(&cpu), vec![]);
    assert_eq!(cpu.register(0xF), 0);
}

#[test]
fn draw_reads_its_coordinates_before_it_writes_the_flag() {
    // VF = 4 is the column; V1 = 2 the row. After the draw VF is the flag.
    let program = [0x6F, 0x04, 0x61, 0x02, 0xA2, 0x08, 0xDF, 0x11, 0x80];
    let cpu = run(&program, 4);
    assert_eq!(lit(&cpu), vec![(4, 2)]);
    assert_eq!(cpu.register(0xF), 0);
}

#[test]
fn glyph_for_zero_from_the_font() {
    // V0 = 0, I = glyph(V0), draw five rows at (0, 0).
    let program = [0x60, 0x00, 0xF0, 0x29, 0xD0, 0x05];
    let cpu = run(&program, 3);
    assert_eq!(
        lit(&cpu),
        vec![
            (0, 0), (1, 0), (2, 0), (3, 0),
            (0, 1), (3, 1),
            (0, 2), (3, 2),
            (0, 3), (3, 3),
            (0, 4), (1, 4), (2, 4), (3, 4),
        ]
    );
}

#[test]
fn clear_screen_puts_every_pixel_out() {
    let program = [0xA2, 0x06, 0xD0, 0x02, 0x00, 0xE0, 0xFF, 0xFF];
    let mut cpu = run(&program, 2);
    assert_eq!(lit(&cpu).len(), 16);
    assert_eq!(cpu.step(), Ok(()));
    assert_eq!(lit(&cpu), vec![]);
    assert_eq!(cpu.pc(), 0x206);
}

#[test]
fn draw_past_the_end_of_memory_fails_and_draws_nothing() {
    // I = 0xFFF, two rows: the second would be at 0x1000.
    let mut cpu = run(&[0xAF, 0xFF, 0xD0, 0x02], 1);
    assert_eq!(
        cpu.step(),
        Err(Chip8Error::AddressOutOfRange { addr: 0x1000, insn: 0xD002, pc: 0x202 })
    );
    assert_eq!(lit(&cpu), vec![]);
    assert_eq!(cpu.register(0xF), 0);
}

#[test]
fn draw_of_the_last_byte_of_memory_succeeds() {
    let mut program = vec![0u8; 0xE00];
    program[0] = 0xAF;
    program[1] = 0xFF;
    program[2] = 0xD0;
    program[3] = 0x01;
    program[0xDFF] = 0x01;
    let cpu = run(&program, 2);
    assert_eq!(lit(&cpu), vec![(7, 0)]);
}

#[test]
fn execute_draw_matches_the_instruction() {
    let mut cpu = machine(&[0x3C]);
    assert_eq!(cpu.execute(Instruction::LoadIndex { addr: 0x200 }, 0), Ok(()));
    assert_eq!(cpu.execute(Instruction::Draw { x: 0, y: 0, n: 1 }, 0), Ok(()));
    assert_eq!(lit(&cpu), vec![(2, 0), (3, 0), (4, 0), (5, 0)]);
}

#[test]
fn xor_sprite_row_wraps_and_reports_collisions() {
    let mut line = [false; SCREEN_WIDTH];
    line[62] = true;
    line[1] = true;
    // 0xB0 = 1011 0000 from column 62: columns 62, 0 and 1.
    let (drawn, collided) = xor_sprite_row(line, 0xB0, 62);
    assert!(collided);
    let on: Vec<usize> = (0..SCREEN_WIDTH).filter(|c| drawn[*c]).collect();
    assert_eq!(on, vec![0]);
    let (drawn, collided) = xor_sprite_row([false; SCREEN_WIDTH], 0xB0, 62);
    assert!(!collided);
    let on: Vec<usize> = (0..SCREEN_WIDTH).filter(|c| drawn[*c]).collect();
    assert_eq!(on, vec![0, 1, 62]);
}

#[test]
fn console_text_has_one_line_per_row() {
    // Row 0xA0 at (0, 0) and the same at (62, 31).
    let program = [0xA2, 0x0A, 0xD0, 0x01, 0x60, 0x3E, 0x61, 0x1F, 0xD0, 0x11, 0xA0];
    let cpu = run(&program, 5);
    let text = cpu.draw_framebuffer_console();
    assert_eq!(text.len(), 32 * 65);
    let lines: Vec<&[u8]> = text.split(|b| *b == b'\n').collect();
    assert_eq!(lines.len(), 33);
    assert_eq!(lines[32].len(), 0);
    let mut first = vec![b' '; 64];
    first[0] = b'#';
    first[2] = b'#';
    assert_eq!(lines[0], &first[..]);
    let mut last = vec![b' '; 64];
    last[62] = b'#';
    last[0] = b'#';
    assert_eq!(lines[31], &last[..]);
    for row in 1..31 {
        assert_eq!(lines[row], &[b' '; 64][..]);
    }
}

#[test]
fn console_text_of_a_dark_display() {
    let cpu = machine(&[]);
    let text = cpu.draw_framebuffer_console();
    for (i, byte) in text.iter().enumerate() {
        if i % 65 == 64 {
            assert_eq!(*byte, b'\n');
        } else {
            assert_eq!(*byte, b' ');
        }
    }
}
