//! Bitmap text: digits, letters and a few symbols, drawn into the pixel
//! buffer from fixed glyph tables, five pixels wide.

use crate::canvas::{fill_rect, in_rect, lemma_painted_rows, painted};
use std::collections::HashMap;
use vstd::prelude::*;

verus! {

broadcast use vstd::std_specs::hash::group_hash_axioms;

/// Glyphs of the ten digits: five rows each, the leftmost pixel in bit 4.
pub const FONT: [[u8; 5]; 10] = [
    [0b01110, 0b10001, 0b10011, 0b10101, 0b01110], // 0
    [0b00100, 0b01100, 0b00100, 0b00100, 0b01110], // 1
    [0b01110, 0b10001, 0b00010, 0b00100, 0b11111], // 2
    [0b11110, 0b00001, 0b00110, 0b00001, 0b11110], // 3
    [0b00010, 0b00110, 0b01010, 0b11111, 0b00010], // 4
    [0b11111, 0b10000, 0b11110, 0b00001, 0b11110], // 5
    [0b01110, 0b10000, 0b11110, 0b10001, 0b01110], // 6
    [0b11111, 0b00001, 0b00010, 0b00100, 0b01000], // 7
    [0b01110, 0b10001, 0b01110, 0b10001, 0b01110], // 8
    [0b01110, 0b10001, 0b01111, 0b00001, 0b01110], // 9
];

/// Glyphs of the letters A to Z: seven rows each.
pub const LETTERS: [[u8; 7]; 26] = [
    [0b01110, 0b10001, 0b10001, 0b11111, 0b10001, 0b10001, 0b10001], // A
    [0b11110, 0b10001, 0b10001, 0b11110, 0b10001, 0b10001, 0b11110], // B
    [0b01110, 0b10001, 0b10000, 0b10000, 0b10000, 0b10001, 0b01110], // C
    [0b11100, 0b10010, 0b10001, 0b10001, 0b10001, 0b10010, 0b11100], // D
    [0b11111, 0b10000, 0b10000, 0b11110, 0b10000, 0b10000, 0b11111], // E
    [0b11111, 0b10000, 0b10000, 0b11110, 0b10000, 0b10000, 0b10000], // F
    [0b01110, 0b10001, 0b10000, 0b10000, 0b10011, 0b10001, 0b01110], // G
    [0b10001, 0b10001, 0b10001, 0b11111, 0b10001, 0b10001, 0b10001], // H
    [0b01110, 0b00100, 0b00100, 0b00100, 0b00100, 0b00100, 0b01110], // I
    [0b00111, 0b00010, 0b00010, 0b00010, 0b10010, 0b10010, 0b01100], // J
    [0b10001, 0b10010, 0b10100, 0b11000, 0b10100, 0b10010, 0b10001], // K
    [0b10000, 0b10000, 0b10000, 0b10000, 0b10000, 0b10000, 0b11111], // L
    [0b10001, 0b11011, 0b10101, 0b10101, 0b10001, 0b10001, 0b10001], // M
    [0b10001, 0b10001, 0b11001, 0b10101, 0b10011, 0b10001, 0b10001], // N
    [0b01110, 0b10001, 0b10001, 0b10001, 0b10001, 0b10001, 0b01110], // O
    [0b11110, 0b10001, 0b10001, 0b11110, 0b10000, 0b10000, 0b10000], // P
    [0b01110, 0b10001, 0b10001, 0b10001, 0b10101, 0b10010, 0b01101], // Q
    [0b11110, 0b10001, 0b10001, 0b11110, 0b10100, 0b10010, 0b10001], // R
    [0b01111, 0b10000, 0b10000, 0b01110, 0b00001, 0b00001, 0b11110], // S
    [0b11111, 0b00100, 0b00100, 0b00100, 0b00100, 0b00100, 0b00100], // T
    [0b10001, 0b10001, 0b10001, 0b10001, 0b10001, 0b10001, 0b01110], // U
    [0b10001, 0b10001, 0b10001, 0b10001, 0b10001, 0b01010, 0b00100], // V
    [0b10001, 0b10001, 0b10001, 0b10101, 0b10101, 0b10101, 0b01010], // W
    [0b10001, 0b10001, 0b01010, 0b00100, 0b01010, 0b10001, 0b10001], // X
    [0b10001, 0b10001, 0b10001, 0b01010, 0b00100, 0b00100, 0b00100], // Y
    [0b11111, 0b00001, 0b00010, 0b00100, 0b01000, 0b10000, 0b11111], // Z
];


/// Code points of the symbols that have a glyph.
pub const SYMBOL_CODES: [u32; 10] = [58, 40, 41, 46, 45, 43, 47, 33, 63, 32];

/// Glyphs of the symbols, in the order of `SYMBOL_CODES`.
pub const SYMBOL_ROWS: [[u8; 7]; 10] = [
    [0b00000, 0b00100, 0b00000, 0b00000, 0b00100, 0b00000, 0b00000], // ':'
    [0b00010, 0b00100, 0b01000, 0b01000, 0b01000, 0b00100, 0b00010], // '('
    [0b01000, 0b00100, 0b00010, 0b00010, 0b00010, 0b00100, 0b01000], // ')'
    [0b00000, 0b00000, 0b00000, 0b00000, 0b00000, 0b00100, 0b00000], // '.'
    [0b00000, 0b00000, 0b11111, 0b00000, 0b00000, 0b00000, 0b00000], // '-'
    [0b00000, 0b00100, 0b00100, 0b11111, 0b00100, 0b00100, 0b00000], // '+'
    [0b00001, 0b00010, 0b00100, 0b01000, 0b10000, 0b00000, 0b00000], // '/'
    [0b00100, 0b00100, 0b00100, 0b00100, 0b00000, 0b00100, 0b00000], // '!'
    [0b01110, 0b10001, 0b00010, 0b00100, 0b00100, 0b00000, 0b00100], // '?'
    [0b00000, 0b00000, 0b00000, 0b00000, 0b00000, 0b00000, 0b00000], // ' '
];

/// Whether column `dx` of a glyph's row is set: bit `4 - dx` of the row.
pub open spec fn bit_set(row: u8, dx: u8) -> bool {
    (row >> ((4 - dx) as u8)) & 1 == 1
}

/// Whether the `k`-th cell of a glyph, counted row by row, is set and its
/// square of `scale` by `scale` pixels holds column `px` of row `py`. The
/// glyph's top left corner is at `(x, y)`.
pub open spec fn cell_covers(
    rows: Seq<u8>,
    x: int,
    y: int,
    scale: int,
    k: int,
    px: int,
    py: int,
) -> bool {
    let dx = k % 5;
    let dy = k / 5;
    bit_set(rows[dy], dx as u8) && in_rect(
        px,
        py,
        x + dx * scale,
        y + dy * scale,
        x + (dx + 1) * scale,
        y + (dy + 1) * scale,
    )
}

/// Whether one of the first `n` cells of a glyph covers `(px, py)`.
pub open spec fn cells_cover(rows: Seq<u8>, x: int, y: int, scale: int, n: nat, px: int, py: int) -> bool
    decreases n,
{
    n > 0 && (cells_cover(rows, x, y, scale, (n - 1) as nat, px, py) || cell_covers(
        rows,
        x,
        y,
        scale,
        n - 1,
        px,
        py,
    ))
}

/// Whether the glyph of rows `rows`, drawn with its top left corner at
/// `(x, y)`, covers `(px, py)`: one of its cells is set and holds the pixel.
pub open spec fn glyph_covers(rows: Seq<u8>, x: int, y: int, scale: int, px: int, py: int) -> bool {
    exists|k: int| 0 <= k < 5 * rows.len() && #[trigger] cell_covers(rows, x, y, scale, k, px, py)
}

/// The first `n` cells cover a pixel exactly if one of them does, and cover
/// nothing left of the glyph's left edge.
pub proof fn lemma_cells_cover(rows: Seq<u8>, x: int, y: int, scale: int, n: nat, px: int, py: int)
    requires
        scale >= 0,
    ensures
        cells_cover(rows, x, y, scale, n, px, py) <==> exists|k: int|
            0 <= k < n && #[trigger] cell_covers(rows, x, y, scale, k, px, py),
        cells_cover(rows, x, y, scale, n, px, py) ==> px >= x,
        n == 5 * rows.len() ==> (cells_cover(rows, x, y, scale, n, px, py) <==> glyph_covers(
            rows,
            x,
            y,
            scale,
            px,
            py,
        )),
    decreases n,
{
    if n > 0 {
        lemma_cells_cover(rows, x, y, scale, (n - 1) as nat, px, py);
        let k: int = n - 1;
        if cell_covers(rows, x, y, scale, k, px, py) {
            assert((k % 5) * scale >= 0) by (nonlinear_arith)
                requires
                    k % 5 >= 0,
                    scale >= 0,
            ;
        }
    }
}

/// The number of whole rows that a buffer of `len` pixels holds at `width`
/// pixels to the row.
pub open spec fn whole_rows(len: int, width: int) -> int {
    if width > 0 {
        len / width
    } else {
        0
    }
}

/// Draws the glyph of rows `rows` with its top left corner at `(x, y)`:
/// every set cell becomes a square of `scale` by `scale` pixels of `color`,
/// as far as it lies within the whole rows of the buffer.
pub fn draw_custom_glyph(
    buffer: &mut [u32],
    width: usize,
    x: usize,
    y: usize,
    pattern: &[u8; 7],
    color: u32,
    scale: usize,
)
    ensures
        painted(
            old(buffer)@,
            final(buffer)@,
            width as int,
            whole_rows(old(buffer)@.len() as int, width as int),
            |px: int, py: int| glyph_covers(pattern@, x as int, y as int, scale as int, px, py),
            color,
        ),
{
    draw_glyph(buffer, width, x, y, pattern, color, scale);
}

/// Draws a glyph of `N` rows; see `draw_custom_glyph`.
fn draw_glyph<const N: usize>(
    buffer: &mut [u32],
    width: usize,
    x: usize,
    y: usize,
    rows: &[u8; N],
    color: u32,
    scale: usize,
)
    requires
        N <= 7,
    ensures
        painted(
            old(buffer)@,
            final(buffer)@,
            width as int,
            whole_rows(old(buffer)@.len() as int, width as int),
            |px: int, py: int| glyph_covers(rows@, x as int, y as int, scale as int, px, py),
            color,
        ),
{
    let ghost before = buffer@;
    let height: usize = if width > 0 {
        buffer.len() / width
    } else {
        0
    };
    let mut dy: usize = 0;
    proof {
        lemma_painted_rows(before, width as int);
    }
    while dy < N
        invariant
            dy <= N,
            N <= 7,
            N == rows@.len(),
            height == whole_rows(before.len() as int, width as int),
            painted(
                before,
                buffer@,
                width as int,
                height as int,
                |px: int, py: int|
                    cells_cover(rows@, x as int, y as int, scale as int, (5 * dy) as nat, px, py),
                color,
            ),
        decreases N - dy,
    {
        let row: u8 = rows[dy];
        let mut dx: u8 = 0;
        while dx < 5
            invariant
                dy < N,
                N <= 7,
                dx <= 5,
                N == rows@.len(),
                row == rows@[dy as int],
                height == whole_rows(before.len() as int, width as int),
                painted(
                    before,
                    buffer@,
                    width as int,
                    height as int,
                    |px: int, py: int|
                        cells_cover(
                            rows@,
                            x as int,
                            y as int,
                            scale as int,
                            (5 * dy + dx) as nat,
                            px,
                            py,
                        ),
                    color,
                ),
            decreases 5 - dx,
        {
            let ghost k: int = 5 * dy + dx;
            assert(k % 5 == dx && k / 5 == dy);
            assert(0 <= dx * scale <= 4 * 0xFFFF_FFFF_FFFF_FFFF && 0 <= dy * scale <= 6
                * 0xFFFF_FFFF_FFFF_FFFF && (dy + 1) * scale == dy * scale + scale && (dx + 1)
                * scale == dx * scale + scale) by (nonlinear_arith)
                requires
                    0 <= dx <= 4,
                    0 <= dy <= 6,
                    0 <= scale <= 0xFFFF_FFFF_FFFF_FFFF,
            ;
            if (row >> (4 - dx)) & 1 == 1 {
                let x0: i128 = x as i128 + (dx as i128) * (scale as i128);
                let y0: i128 = y as i128 + (dy as i128) * (scale as i128);
                fill_rect(
                    buffer,
                    width,
                    height,
                    x0,
                    y0,
                    x0 + scale as i128,
                    y0 + scale as i128,
                    color,
                );
            }
            dx += 1;
        }
        dy += 1;
    }
    proof {
        assert forall|px: int, py: int|
            cells_cover(rows@, x as int, y as int, scale as int, (5 * N) as nat, px, py)
                == #[trigger] glyph_covers(rows@, x as int, y as int, scale as int, px, py) by {
            lemma_cells_cover(rows@, x as int, y as int, scale as int, (5 * N) as nat, px, py);
        }
    }
}

/// Draws the glyph of the digit `digit`.
pub fn draw_digit(
    buffer: &mut [u32],
    width: usize,
    x: usize,
    y: usize,
    digit: usize,
    color: u32,
    scale: usize,
)
    requires
        digit < 10,
    ensures
        painted(
            old(buffer)@,
            final(buffer)@,
            width as int,
            whole_rows(old(buffer)@.len() as int, width as int),
            |px: int, py: int|
                glyph_covers(FONT[digit as int]@, x as int, y as int, scale as int, px, py),
            color,
        ),
{
    let rows: [u8; 5] = FONT[digit];
    draw_glyph(buffer, width, x, y, &rows, color, scale);
}

/// Whether `ch` is a letter of the ASCII alphabet.
pub open spec fn is_letter(ch: char) -> bool {
    ('a' <= ch && ch <= 'z') || ('A' <= ch && ch <= 'Z')
}

/// Place of a letter in the alphabet, whatever its case.
pub open spec fn letter_index(ch: char) -> int {
    if 'a' <= ch && ch <= 'z' {
        ch as u32 - 'a' as u32
    } else {
        ch as u32 - 'A' as u32
    }
}

/// Draws the glyph of the letter `ch`, in upper case; any other character
/// draws nothing.
pub fn draw_letter(
    buffer: &mut [u32],
    width: usize,
    x: usize,
    y: usize,
    ch: char,
    color: u32,
    scale: usize,
)
    ensures
        is_letter(ch) ==> painted(
            old(buffer)@,
            final(buffer)@,
            width as int,
            whole_rows(old(buffer)@.len() as int, width as int),
            |px: int, py: int|
                glyph_covers(LETTERS[letter_index(ch)]@, x as int, y as int, scale as int, px, py),
            color,
        ),
        !is_letter(ch) ==> final(buffer)@ == old(buffer)@,
{
    if ('a' <= ch && ch <= 'z') || ('A' <= ch && ch <= 'Z') {
        let index: u32 = if 'a' <= ch && ch <= 'z' {
            ch as u32 - 'a' as u32
        } else {
            ch as u32 - 'A' as u32
        };
        let rows: [u8; 7] = LETTERS[index as usize];
        draw_glyph(buffer, width, x, y, &rows, color, scale);
    }
}

/// Place of a code point among the symbols that have a glyph, if it is one
/// of them.
pub open spec fn symbol_index(code: u32) -> Option<int> {
    if code == SYMBOL_CODES[0] {
        Some(0)
    } else if code == SYMBOL_CODES[1] {
        Some(1)
    } else if code == SYMBOL_CODES[2] {
        Some(2)
    } else if code == SYMBOL_CODES[3] {
        Some(3)
    } else if code == SYMBOL_CODES[4] {
        Some(4)
    } else if code == SYMBOL_CODES[5] {
        Some(5)
    } else if code == SYMBOL_CODES[6] {
        Some(6)
    } else if code == SYMBOL_CODES[7] {
        Some(7)
    } else if code == SYMBOL_CODES[8] {
        Some(8)
    } else if code == SYMBOL_CODES[9] {
        Some(9)
    } else {
        None
    }
}

/// The glyphs of the symbols `: ( ) . - + / ! ?` and of the space, keyed by
/// code point.
pub fn get_symbols() -> (symbols: HashMap<u32, [u8; 7]>)
    ensures
        forall|code: u32| #[trigger] symbols@.contains_key(code) <==> symbol_index(code).is_some(),
        forall|code: u32|
            symbol_index(code).is_some() ==> #[trigger] symbols@[code] == SYMBOL_ROWS[symbol_index(
                code,
            ).unwrap()],
        symbols@.len() == 10,
{
    let mut symbols: HashMap<u32, [u8; 7]> = HashMap::new();
    symbols.insert(SYMBOL_CODES[0], SYMBOL_ROWS[0]);
    symbols.insert(SYMBOL_CODES[1], SYMBOL_ROWS[1]);
    symbols.insert(SYMBOL_CODES[2], SYMBOL_ROWS[2]);
    symbols.insert(SYMBOL_CODES[3], SYMBOL_ROWS[3]);
    symbols.insert(SYMBOL_CODES[4], SYMBOL_ROWS[4]);
    symbols.insert(SYMBOL_CODES[5], SYMBOL_ROWS[5]);
    symbols.insert(SYMBOL_CODES[6], SYMBOL_ROWS[6]);
    symbols.insert(SYMBOL_CODES[7], SYMBOL_ROWS[7]);
    symbols.insert(SYMBOL_CODES[8], SYMBOL_ROWS[8]);
    symbols.insert(SYMBOL_CODES[9], SYMBOL_ROWS[9]);
    symbols
}

/// Whether a line of glyphs covers `(px, py)`: one of its glyphs does. The
/// line starts at `(x, y)`; its glyphs stand six cells apart, and a place
/// without a glyph is left empty.
pub open spec fn line_covers(
    glyphs: Seq<Option<Seq<u8>>>,
    x: int,
    y: int,
    scale: int,
    px: int,
    py: int,
) -> bool {
    exists|i: int|
        0 <= i < glyphs.len() && (#[trigger] glyphs[i]).is_some() && glyph_covers(
            glyphs[i].unwrap(),
            x + i * (6 * scale),
            y,
            scale,
            px,
            py,
        )
}

/// Whether one of the first `n` glyphs of a line covers `(px, py)`.
pub open spec fn glyphs_cover(
    glyphs: Seq<Option<Seq<u8>>>,
    x: int,
    y: int,
    scale: int,
    n: nat,
    px: int,
    py: int,
) -> bool
    decreases n,
{
    n > 0 && (glyphs_cover(glyphs, x, y, scale, (n - 1) as nat, px, py) || match glyphs[n - 1] {
        Some(rows) => glyph_covers(rows, x + (n - 1) * (6 * scale), y, scale, px, py),
        None => false,
    })
}

/// The first `n` glyphs of a line cover a pixel exactly if one of them
/// does, each taken at its own place in the line.
pub proof fn lemma_glyphs_cover(
    glyphs: Seq<Option<Seq<u8>>>,
    x: int,
    y: int,
    scale: int,
    n: nat,
    px: int,
    py: int,
)
    ensures
        glyphs_cover(glyphs, x, y, scale, n, px, py) <==> exists|i: int|
            0 <= i < n && (#[trigger] glyphs[i]).is_some() && glyph_covers(
                glyphs[i].unwrap(),
                x + i * (6 * scale),
                y,
                scale,
                px,
                py,
            ),
        n == glyphs.len() ==> (glyphs_cover(glyphs, x, y, scale, n, px, py) <==> line_covers(
            glyphs,
            x,
            y,
            scale,
            px,
            py,
        )),
    decreases n,
{
    if n > 0 {
        lemma_glyphs_cover(glyphs, x, y, scale, (n - 1) as nat, px, py);
        if glyphs_cover(glyphs, x, y, scale, n, px, py) {
            if !glyphs_cover(glyphs, x, y, scale, (n - 1) as nat, px, py) {
                assert(glyphs[n - 1].is_some());
            }
        }
    }
}

/// The decimal digits of `n`, most significant first.
pub open spec fn spec_decimal_digits(n: nat) -> Seq<u8>
    decreases n,
{
    if n < 10 {
        seq![n as u8]
    } else {
        spec_decimal_digits(n / 10).push((n % 10) as u8)
    }
}

/// The decimal digits of `n`, most significant first.
pub fn decimal_digits(n: usize) -> (digits: Vec<u8>)
    ensures
        digits@ == spec_decimal_digits(n as nat),
        digits@.len() >= 1,
        forall|i: int| 0 <= i < digits@.len() ==> #[trigger] digits@[i] < 10,
    decreases n,
{
    if n < 10 {
        let mut digits: Vec<u8> = Vec::new();
        digits.push(n as u8);
        assert(digits@ =~= seq![n as u8]);
        digits
    } else {
        let mut digits = decimal_digits(n / 10);
        digits.push((n % 10) as u8);
        digits
    }
}

/// The glyphs of a number's digits.
pub open spec fn number_glyphs(digits: Seq<u8>) -> Seq<Option<Seq<u8>>> {
    digits.map_values(|d: u8| Some(FONT[d as int]@))
}

/// The glyph of a character: a digit's, a letter's in upper case, a
/// symbol's, or none.
pub open spec fn glyph_rows(ch: char) -> Option<Seq<u8>> {
    if '0' <= ch && ch <= '9' {
        Some(FONT[ch as u32 - '0' as u32]@)
    } else if is_letter(ch) {
        Some(LETTERS[letter_index(ch)]@)
    } else {
        match symbol_index(ch as u32) {
            Some(i) => Some(SYMBOL_ROWS[i]@),
            None => None,
        }
    }
}

/// The glyphs of a text's characters.
pub open spec fn text_glyphs(text: Seq<char>) -> Seq<Option<Seq<u8>>> {
    text.map_values(|ch: char| glyph_rows(ch))
}

/// Left edge of the `i`-th glyph of a line that starts at column `x`, if
/// it lies within the width of the buffer.
fn glyph_origin(x: usize, i: usize, scale: usize, width: usize) -> (origin: Option<usize>)
    ensures
        match origin {
            Some(gx) => gx == x + i * (6 * scale) && gx < width,
            None => x + i * (6 * scale) >= width,
        },
{
    let step: u128 = 6 * (scale as u128);
    match (i as u128).checked_mul(step) {
        None => None,
        Some(offset) => match offset.checked_add(x as u128) {
            None => None,
            Some(gx) => if gx < width as u128 {
                Some(gx as usize)
            } else {
                None
            },
        },
    }
}

/// A glyph whose left edge is at or beyond the width of the buffer covers
/// no pixel of it.
proof fn lemma_glyph_beyond_width(rows: Seq<u8>, gx: int, y: int, scale: int, width: int)
    requires
        scale >= 0,
        gx >= width,
    ensures
        forall|px: int, py: int| px < width ==> !#[trigger] glyph_covers(rows, gx, y, scale, px, py),
{
    assert forall|px: int, py: int| px < width implies !#[trigger] glyph_covers(
        rows,
        gx,
        y,
        scale,
        px,
        py,
    ) by {
        lemma_cells_cover(rows, gx, y, scale, 5 * rows.len(), px, py);
    }
}

/// Draws `number` in decimal, its first digit with the top left corner at
/// `(x, y)`, each further digit six cells on.
pub fn draw_number(
    buffer: &mut [u32],
    width: usize,
    x: usize,
    y: usize,
    number: usize,
    color: u32,
    scale: usize,
)
    ensures
        painted(
            old(buffer)@,
            final(buffer)@,
            width as int,
            whole_rows(old(buffer)@.len() as int, width as int),
            |px: int, py: int|
                line_covers(
                    number_glyphs(spec_decimal_digits(number as nat)),
                    x as int,
                    y as int,
                    scale as int,
                    px,
                    py,
                ),
            color,
        ),
{
    let ghost before = buffer@;
    let ghost height = whole_rows(before.len() as int, width as int);
    let digits: Vec<u8> = decimal_digits(number);
    let ghost glyphs = number_glyphs(digits@);
    let n: usize = digits.len();
    let mut i: usize = 0;
    proof {
        lemma_painted_rows(before, width as int);
    }
    while i < n
        invariant
            i <= n,
            n == digits@.len(),
            glyphs == number_glyphs(digits@),
            forall|j: int| 0 <= j < digits@.len() ==> #[trigger] digits@[j] < 10,
            height == whole_rows(before.len() as int, width as int),
            painted(
                before,
                buffer@,
                width as int,
                height,
                |px: int, py: int|
                    glyphs_cover(glyphs, x as int, y as int, scale as int, i as nat, px, py),
                color,
            ),
        decreases n - i,
    {
        let digit: usize = digits[i] as usize;
        let ghost rows = FONT[digit as int]@;
        assert(glyphs[i as int] == Some(rows));
        match glyph_origin(x, i, scale, width) {
            Some(gx) => {
                draw_digit(buffer, width, gx, y, digit, color, scale);
            },
            None => {
                proof {
                    lemma_glyph_beyond_width(
                        rows,
                        x + i * (6 * scale),
                        y as int,
                        scale as int,
                        width as int,
                    );
                    lemma_painted_rows(before, width as int);
                }
            },
        }
        i += 1;
    }
    proof {
        assert forall|px: int, py: int|
            glyphs_cover(glyphs, x as int, y as int, scale as int, n as nat, px, py)
                == #[trigger] line_covers(glyphs, x as int, y as int, scale as int, px, py) by {
            lemma_glyphs_cover(glyphs, x as int, y as int, scale as int, n as nat, px, py);
        }
    }
}

/// Draws `text`, its first character with the top left corner at `(x, y)`,
/// each further one six cells on. Digits, letters (in upper case) and the
/// symbols of `get_symbols` have a glyph; any other character leaves its
/// place empty.
pub fn draw_text(
    buffer: &mut [u32],
    width: usize,
    x: usize,
    y: usize,
    text: &str,
    color: u32,
    scale: usize,
)
    ensures
        painted(
            old(buffer)@,
            final(buffer)@,
            width as int,
            whole_rows(old(buffer)@.len() as int, width as int),
            |px: int, py: int|
                line_covers(text_glyphs(text@), x as int, y as int, scale as int, px, py),
            color,
        ),
{
    let ghost before = buffer@;
    let ghost height = whole_rows(before.len() as int, width as int);
    let ghost glyphs = text_glyphs(text@);
    let symbols: HashMap<u32, [u8; 7]> = get_symbols();
    let n: usize = text.unicode_len();
    let mut i: usize = 0;
    proof {
        lemma_painted_rows(before, width as int);
    }
    while i < n
        invariant
            i <= n,
            n == text@.len(),
            glyphs == text_glyphs(text@),
            forall|code: u32| #[trigger]
                symbols@.contains_key(code) <==> symbol_index(code).is_some(),
            forall|code: u32|
                symbol_index(code).is_some() ==> #[trigger] symbols@[code] == SYMBOL_ROWS[symbol_index(
                    code,
                ).unwrap()],
            height == whole_rows(before.len() as int, width as int),
            painted(
                before,
                buffer@,
                width as int,
                height,
                |px: int, py: int|
                    glyphs_cover(glyphs, x as int, y as int, scale as int, i as nat, px, py),
                color,
            ),
        decreases n - i,
    {
        let ch: char = text.get_char(i);
        assert(glyphs[i as int] == glyph_rows(ch));
        let origin: Option<usize> = glyph_origin(x, i, scale, width);
        proof {
            lemma_painted_rows(before, width as int);
            if origin.is_none() && glyph_rows(ch).is_some() {
                lemma_glyph_beyond_width(
                    glyph_rows(ch).unwrap(),
                    x + i * (6 * scale),
                    y as int,
                    scale as int,
                    width as int,
                );
            }
        }
        match origin {
            Some(gx) => {
                if '0' <= ch && ch <= '9' {
                    let digit: u32 = ch as u32 - '0' as u32;
                    draw_digit(buffer, width, gx, y, digit as usize, color, scale);
                } else if ('a' <= ch && ch <= 'z') || ('A' <= ch && ch <= 'Z') {
                    draw_letter(buffer, width, gx, y, ch, color, scale);
                } else {
                    let code: u32 = ch as u32;
                    match symbols.get(&code) {
                        Some(pattern) => {
                            draw_custom_glyph(buffer, width, gx, y, pattern, color, scale);
                        },
                        None => {},
                    }
                }
            },
            None => {},
        }
        i += 1;
    }
    proof {
        assert forall|px: int, py: int|
            glyphs_cover(glyphs, x as int, y as int, scale as int, n as nat, px, py)
                == #[trigger] line_covers(glyphs, x as int, y as int, scale as int, px, py) by {
            lemma_glyphs_cover(glyphs, x as int, y as int, scale as int, n as nat, px, py);
        }
    }
}

} // verus!
