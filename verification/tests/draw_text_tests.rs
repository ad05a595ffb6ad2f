use starfield::draw_text::{
    decimal_digits, draw_custom_glyph, draw_digit, draw_letter, draw_number, draw_text,
    get_symbols, FONT, LETTERS, SYMBOL_ROWS,
};

const W: usize = 40;
const H: usize = 16;

/// The pixels of a buffer as rows of `#` and `.`.
fn picture(buf: &[u32], width: usize, color: u32) -> Vec<String> {
    buf.chunks(width)
        .map(|row| row.iter().map(|&c| if c == color { '#' } else { '.' }).collect())
        .collect()
}

#[test]
fn digit_one_at_scale_one() {
    let mut buf = vec![0u32; 6 * 6];
    draw_digit(&mut buf, 6, 0, 0, 1, 9, 1);
    assert_eq!(
        picture(&buf, 6, 9),
        vec!["..#...", ".##...", "..#...", "..#...", ".###..", "......"]
    );
}

#[test]
fn digit_seven_at_scale_two_with_offset() {
    let mut buf = vec![0u32; 12 * 11];
    draw_digit(&mut buf, 12, 1, 1, 7, 9, 2);
    assert_eq!(
        picture(&buf, 12, 9),
        vec![
            "............",
            ".##########.",
            ".##########.",
            ".........##.",
            ".........##.",
            ".......##...",
            ".......##...",
            ".....##.....",
            ".....##.....",
            "...##.......",
            "...##.......",
        ]
    );
}

#[test]
fn glyphs_are_clipped_to_the_buffer() {
    let mut buf = vec![0u32; 3 * 3];
    draw_digit(&mut buf, 3, 0, 0, 8, 9, 1);
    assert_eq!(picture(&buf, 3, 9), vec![".##", "#..", ".##"]);
    // a buffer with a ragged last row: only whole rows are drawn
    let mut buf = vec![0u32; 8];
    draw_digit(&mut buf, 3, 0, 0, 5, 9, 1);
    assert_eq!(buf, vec![9, 9, 9, 9, 0, 0, 0, 0]);
    // nothing is drawn at scale zero, far away, or with no width
    let mut buf = vec![0u32; 9];
    draw_digit(&mut buf, 3, 0, 0, 8, 9, 0);
    draw_digit(&mut buf, 3, usize::MAX, usize::MAX, 8, 9, usize::MAX);
    draw_digit(&mut buf, 0, 0, 0, 8, 9, 1);
    assert_eq!(buf, vec![0u32; 9]);
    // a huge scale fills what the first set cell covers
    draw_digit(&mut buf, 3, 0, 0, 5, 9, usize::MAX);
    assert_eq!(buf, vec![9u32; 9]);
}

#[test]
fn letters_are_drawn_in_upper_case() {
    let mut lower = vec![0u32; 6 * 8];
    let mut upper = vec![0u32; 6 * 8];
    draw_letter(&mut lower, 6, 0, 0, 'e', 9, 1);
    draw_letter(&mut upper, 6, 0, 0, 'E', 9, 1);
    assert_eq!(lower, upper);
    assert_eq!(
        picture(&upper, 6, 9),
        vec!["#####.", "#.....", "#.....", "####..", "#.....", "#.....", "#####.", "......"]
    );
    let mut other = vec![0u32; 6 * 8];
    draw_letter(&mut other, 6, 0, 0, '7', 9, 1);
    draw_letter(&mut other, 6, 0, 0, 'é', 9, 1);
    assert_eq!(other, vec![0u32; 48]);
}

#[test]
fn custom_glyph_follows_its_pattern() {
    let mut buf = vec![0u32; 5 * 7];
    let pattern = [0b10000, 0b01000, 0b00100, 0b00010, 0b00001, 0b11111, 0b00000];
    draw_custom_glyph(&mut buf, 5, 0, 0, &pattern, 9, 1);
    assert_eq!(
        picture(&buf, 5, 9),
        vec!["#....", ".#...", "..#..", "...#.", "....#", "#####", "....."]
    );
}

#[test]
fn decimal_digits_of_numbers() {
    assert_eq!(decimal_digits(0), vec![0]);
    assert_eq!(decimal_digits(7), vec![7]);
    assert_eq!(decimal_digits(10), vec![1, 0]);
    assert_eq!(decimal_digits(9045), vec![9, 0, 4, 5]);
    assert_eq!(decimal_digits(usize::MAX).len(), usize::MAX.to_string().len());
}

#[test]
fn number_is_drawn_digit_by_digit() {
    let mut buf = vec![0u32; W * H];
    draw_number(&mut buf, W, 2, 1, 42, 9, 1);
    let mut expected = vec![0u32; W * H];
    draw_digit(&mut expected, W, 2, 1, 4, 9, 1);
    draw_digit(&mut expected, W, 8, 1, 2, 9, 1);
    assert_eq!(buf, expected);
    assert_eq!(
        picture(&buf, W, 9)[1..6].iter().map(|r| r[2..13].to_string()).collect::<Vec<_>>(),
        vec!["...#...###.", "..##..#...#", ".#.#.....#.", "#####...#..", "...#..#####"]
    );

    let mut scaled = vec![0u32; W * H];
    draw_number(&mut scaled, W, 0, 0, 10, 5, 2);
    let mut expected = vec![0u32; W * H];
    draw_digit(&mut expected, W, 0, 0, 1, 5, 2);
    draw_digit(&mut expected, W, 12, 0, 0, 5, 2);
    assert_eq!(scaled, expected);

    let mut zero = vec![0u32; W * H];
    draw_number(&mut zero, W, 0, 0, 0, 5, 1);
    let mut expected = vec![0u32; W * H];
    draw_digit(&mut expected, W, 0, 0, 0, 5, 1);
    assert_eq!(zero, expected);
}

#[test]
fn text_mixes_digits_letters_and_symbols() {
    let mut buf = vec![0u32; W * H];
    draw_text(&mut buf, W, 1, 2, "a1:~ z", 9, 1);
    let mut expected = vec![0u32; W * H];
    draw_letter(&mut expected, W, 1, 2, 'A', 9, 1);
    draw_digit(&mut expected, W, 7, 2, 1, 9, 1);
    draw_custom_glyph(&mut expected, W, 13, 2, &SYMBOL_ROWS[0], 9, 1);
    // '~' has no glyph and the space an empty one; both leave their place empty
    draw_letter(&mut expected, W, 31, 2, 'Z', 9, 1);
    assert_eq!(buf, expected);
    assert_eq!(buf[3 * W + 15], 9);
    assert_eq!(buf[6 * W + 15], 9);
    assert_eq!(buf.iter().filter(|&&c| c == 9).count(), 18 + 8 + 2 + 15);
}

#[test]
fn text_beyond_the_width_is_dropped() {
    let mut buf = vec![0u32; 8 * 8];
    draw_text(&mut buf, 8, 0, 0, "11", 9, 1);
    let mut expected = vec![0u32; 8 * 8];
    draw_digit(&mut expected, 8, 0, 0, 1, 9, 1);
    draw_digit(&mut expected, 8, 6, 0, 1, 9, 1);
    assert_eq!(buf, expected);
    assert_eq!(picture(&buf, 8, 9)[1], ".##....#");
    let mut buf = vec![0u32; 8 * 8];
    draw_text(&mut buf, 8, 0, 0, "1111", 9, usize::MAX);
    draw_text(&mut buf, 8, 0, 0, "", 9, 1);
    assert_eq!(buf, vec![0u32; 64]);
}

#[test]
fn symbol_table_holds_ten_glyphs() {
    let symbols = get_symbols();
    assert_eq!(symbols.len(), 10);
    for ch in [':', '(', ')', '.', '-', '+', '/', '!', '?', ' '] {
        assert!(symbols.contains_key(&(ch as u32)));
    }
    assert!(!symbols.contains_key(&('A' as u32)));
    assert_eq!(
        symbols.get(&('+' as u32)),
        Some(&[0b00000, 0b00100, 0b00100, 0b11111, 0b00100, 0b00100, 0b00000])
    );
    assert_eq!(
        symbols.get(&('?' as u32)),
        Some(&[0b01110, 0b10001, 0b00010, 0b00100, 0b00100, 0b00000, 0b00100])
    );
    assert_eq!(symbols.get(&(' ' as u32)), Some(&[0u8; 7]));
    assert_eq!(FONT[0], [0b01110, 0b10001, 0b10011, 0b10101, 0b01110]);
    assert_eq!(LETTERS[25], [0b11111, 0b00001, 0b00010, 0b00100, 0b01000, 0b10000, 0b11111]);
}
