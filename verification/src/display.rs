use vstd::prelude::*;

verus! {

/// Columns of the display.
pub const SCREEN_WIDTH: usize = 64;

/// Rows of the display.
pub const SCREEN_HEIGHT: usize = 32;

/// Columns of a sprite.
pub const SPRITE_WIDTH: usize = 8;

/// The character `#`, which stands for a lit pixel in console text.
pub const CONSOLE_LIT: u8 = 0x23;

/// The space character, which stands for an unlit pixel in console text.
pub const CONSOLE_UNLIT: u8 = 0x20;

/// The line feed that ends each row of console text.
pub const CONSOLE_NEWLINE: u8 = 0x0A;

/// Bytes in one row of console text: one per column and the line feed.
pub const CONSOLE_LINE: usize = 65;

/// A display with every pixel unlit.
pub open spec fn blank_screen() -> Seq<Seq<bool>> {
    Seq::new(SCREEN_HEIGHT as nat, |row: int| Seq::new(SCREEN_WIDTH as nat, |col: int| false))
}

/// Bit `col` of a sprite row, counted from the most significant bit.
pub open spec fn sprite_bit(byte: u8, col: int) -> bool {
    0 <= col < 8 && (byte >> ((7 - col) as u8)) & 1 == 1
}

/// Whether the sprite row `byte`, drawn with its leftmost pixel at column
/// `vx` (wrapping at the right edge), has a set bit on column `col`.
pub open spec fn row_covers(byte: u8, vx: int, col: int) -> bool {
    sprite_bit(byte, (col - vx) % (SCREEN_WIDTH as int))
}

/// A display line after the sprite row `byte` was XORed onto it at column
/// `vx`.
pub open spec fn xor_row(line: Seq<bool>, byte: u8, vx: int) -> Seq<bool> {
    Seq::new(SCREEN_WIDTH as nat, |col: int| line[col] ^ row_covers(byte, vx, col))
}

/// Whether XORing the sprite row `byte` onto `line` at column `vx` turns a lit
/// pixel off.
pub open spec fn row_collides(line: Seq<bool>, byte: u8, vx: int) -> bool {
    exists|col: int| 0 <= col < SCREEN_WIDTH && #[trigger] line[col] && row_covers(byte, vx, col)
}

/// The sprite row that lands on display row `row` when the sprite's first row
/// is drawn at row `vy` (wrapping at the bottom edge).
pub open spec fn sprite_row_at(vy: int, row: int) -> int {
    (row - vy) % (SCREEN_HEIGHT as int)
}

/// The display after the first `rows` rows of `sprite` were XORed onto it,
/// the sprite's top left pixel at `(vx, vy)`.
pub open spec fn draw_rows(fb: Seq<Seq<bool>>, sprite: Seq<u8>, vx: int, vy: int, rows: int) -> Seq<
    Seq<bool>,
> {
    Seq::new(
        SCREEN_HEIGHT as nat,
        |row: int|
            if sprite_row_at(vy, row) < rows {
                xor_row(fb[row], sprite[sprite_row_at(vy, row)], vx)
            } else {
                fb[row]
            },
    )
}

/// Whether XORing the first `rows` rows of `sprite` onto the display at
/// `(vx, vy)` turns any lit pixel off.
pub open spec fn rows_collide(fb: Seq<Seq<bool>>, sprite: Seq<u8>, vx: int, vy: int, rows: int) -> bool {
    exists|row: int|
        0 <= row < SCREEN_HEIGHT && sprite_row_at(vy, row) < rows && row_collides(
            #[trigger] fb[row],
            sprite[sprite_row_at(vy, row)],
            vx,
        )
}

/// The display after `sprite` was XORed onto it with its top left pixel at
/// `(vx, vy)`. Each pixel wraps on its own; nothing is clipped.
pub open spec fn draw_sprite(fb: Seq<Seq<bool>>, sprite: Seq<u8>, vx: int, vy: int) -> Seq<
    Seq<bool>,
> {
    draw_rows(fb, sprite, vx, vy, sprite.len() as int)
}

/// Whether drawing `sprite` at `(vx, vy)` turns any lit pixel off.
pub open spec fn sprite_collides(fb: Seq<Seq<bool>>, sprite: Seq<u8>, vx: int, vy: int) -> bool {
    rows_collide(fb, sprite, vx, vy, sprite.len() as int)
}

/// Sprite row `rows` lands on display row `(vy + rows) % 32` and on no other.
pub proof fn lemma_sprite_row_target(vy: int, rows: int, row: int)
    requires
        0 <= vy,
        0 <= rows < SCREEN_HEIGHT,
        0 <= row < SCREEN_HEIGHT,
    ensures
        sprite_row_at(vy, row) == rows <==> row == (vy + rows) % (SCREEN_HEIGHT as int),
        0 <= sprite_row_at(vy, row) < SCREEN_HEIGHT,
{
}

/// Drawing one more sprite row changes the one display line it lands on, and
/// collides if the rows before it did or this one does.
pub proof fn lemma_draw_one_more_row(
    fb: Seq<Seq<bool>>,
    sprite: Seq<u8>,
    vx: int,
    vy: int,
    rows: int,
)
    requires
        0 <= vy,
        0 <= rows < SCREEN_HEIGHT,
        fb.len() == SCREEN_HEIGHT,
    ensures
        ({
            let target = (vy + rows) % (SCREEN_HEIGHT as int);
            &&& 0 <= target < SCREEN_HEIGHT
            &&& draw_rows(fb, sprite, vx, vy, rows)[target] == fb[target]
            &&& draw_rows(fb, sprite, vx, vy, rows + 1) == draw_rows(
                fb,
                sprite,
                vx,
                vy,
                rows,
            ).update(target, xor_row(fb[target], sprite[rows], vx))
            &&& rows_collide(fb, sprite, vx, vy, rows + 1) <==> rows_collide(
                fb,
                sprite,
                vx,
                vy,
                rows,
            ) || row_collides(fb[target], sprite[rows], vx)
        }),
{
    let target = (vy + rows) % (SCREEN_HEIGHT as int);
    assert forall|row: int| 0 <= row < SCREEN_HEIGHT implies (sprite_row_at(vy, row) == rows
        <==> row == target) && 0 <= #[trigger] sprite_row_at(vy, row) by {
        lemma_sprite_row_target(vy, rows, row);
    }
    assert(draw_rows(fb, sprite, vx, vy, rows + 1) =~= draw_rows(fb, sprite, vx, vy, rows).update(
        target,
        xor_row(fb[target], sprite[rows], vx),
    ));
    if rows_collide(fb, sprite, vx, vy, rows + 1) {
        let row = choose|row: int|
            0 <= row < SCREEN_HEIGHT && sprite_row_at(vy, row) < rows + 1 && row_collides(
                #[trigger] fb[row],
                sprite[sprite_row_at(vy, row)],
                vx,
            );
        if sprite_row_at(vy, row) < rows {
            assert(rows_collide(fb, sprite, vx, vy, rows));
        } else {
            assert(row == target);
        }
    }
    if rows_collide(fb, sprite, vx, vy, rows) {
        let row = choose|row: int|
            0 <= row < SCREEN_HEIGHT && sprite_row_at(vy, row) < rows && row_collides(
                #[trigger] fb[row],
                sprite[sprite_row_at(vy, row)],
                vx,
            );
        assert(sprite_row_at(vy, row) < rows + 1);
    }
    if row_collides(fb[target], sprite[rows], vx) {
        assert(sprite_row_at(vy, target) < rows + 1);
        assert(row_collides(fb[target], sprite[sprite_row_at(vy, target)], vx));
    }
}

/// The display as console text: row after row, `#` for a lit pixel, a space
/// for an unlit one, a line feed after each row.
pub open spec fn console_text(fb: Seq<Seq<bool>>) -> Seq<u8> {
    Seq::new(
        (SCREEN_HEIGHT * CONSOLE_LINE) as nat,
        |i: int|
            if i % (CONSOLE_LINE as int) == SCREEN_WIDTH {
                CONSOLE_NEWLINE
            } else if fb[i / (CONSOLE_LINE as int)][i % (CONSOLE_LINE as int)] {
                CONSOLE_LIT
            } else {
                CONSOLE_UNLIT
            },
    )
}

/// Writes the display out as console text.
pub fn render_console(fb: &[[bool; SCREEN_WIDTH]; SCREEN_HEIGHT]) -> (text: Vec<u8>)
    ensures
        text@ == console_text(Seq::new(SCREEN_HEIGHT as nat, |row: int| fb@[row]@)),
{
    let ghost grid = Seq::new(SCREEN_HEIGHT as nat, |row: int| fb@[row]@);
    let mut text: Vec<u8> = Vec::new();
    let mut row: usize = 0;
    while row < SCREEN_HEIGHT
        invariant
            row <= SCREEN_HEIGHT,
            grid == Seq::new(SCREEN_HEIGHT as nat, |row: int| fb@[row]@),
            text@.len() == row * CONSOLE_LINE,
            forall|i: int| 0 <= i < text@.len() ==> text@[i] == console_text(grid)[i],
        decreases SCREEN_HEIGHT - row,
    {
        let mut col: usize = 0;
        while col < SCREEN_WIDTH
            invariant
                row < SCREEN_HEIGHT,
                col <= SCREEN_WIDTH,
                grid == Seq::new(SCREEN_HEIGHT as nat, |row: int| fb@[row]@),
                text@.len() == row * CONSOLE_LINE + col,
                forall|i: int| 0 <= i < text@.len() ==> text@[i] == console_text(grid)[i],
            decreases SCREEN_WIDTH - col,
        {
            let pixel: bool = fb[row][col];
            assert(pixel == grid[row as int][col as int]);
            if pixel {
                text.push(CONSOLE_LIT);
            } else {
                text.push(CONSOLE_UNLIT);
            }
            col += 1;
        }
        text.push(CONSOLE_NEWLINE);
        row += 1;
    }
    assert(text@ =~= console_text(grid));
    text
}

/// XORs one sprite row onto one display line, the row's leftmost pixel at
/// column `vx` modulo the width, and tells whether a lit pixel went out.
pub fn xor_sprite_row(line: [bool; SCREEN_WIDTH], sprite_byte: u8, vx: u8) -> (out: (
    [bool; SCREEN_WIDTH],
    bool,
))
    ensures
        out.0@ == xor_row(line@, sprite_byte, vx as int),
        out.1 == row_collides(line@, sprite_byte, vx as int),
{
    let mut drawn = line;
    let mut collided = false;
    let mut bit: usize = 0;
    while bit < SPRITE_WIDTH
        invariant
            bit <= SPRITE_WIDTH,
            forall|col: int|
                0 <= col < SCREEN_WIDTH ==> drawn@[col] == (line@[col] ^ (row_covers(
                    sprite_byte,
                    vx as int,
                    col,
                ) && (col - vx) % (SCREEN_WIDTH as int) < bit)),
            collided <==> exists|col: int|
                0 <= col < SCREEN_WIDTH && #[trigger] line@[col] && row_covers(
                    sprite_byte,
                    vx as int,
                    col,
                ) && (col - vx) % (SCREEN_WIDTH as int) < bit,
        decreases SPRITE_WIDTH - bit,
    {
        let pixel_x: usize = (vx as usize + bit) % SCREEN_WIDTH;
        let sprite_pixel: u8 = (sprite_byte >> ((7 - bit) as u8)) & 1;
        let existing_pixel: bool = drawn[pixel_x];
        let new_pixel: bool = existing_pixel ^ (sprite_pixel != 0);
        proof {
            assert((pixel_x - vx) % (SCREEN_WIDTH as int) == bit);
            assert(sprite_pixel == 0 || sprite_pixel == 1) by (bit_vector)
                requires
                    sprite_pixel == (sprite_byte >> ((7 - bit) as u8)) & 1,
            ;
            assert((sprite_pixel != 0) == sprite_bit(sprite_byte, bit as int));
            assert(existing_pixel == line@[pixel_x as int]);
        }
        drawn[pixel_x] = new_pixel;
        if existing_pixel && !new_pixel {
            collided = true;
        }
        bit += 1;
    }
    assert(drawn@ =~= xor_row(line@, sprite_byte, vx as int));
    (drawn, collided)
}

} // verus!
