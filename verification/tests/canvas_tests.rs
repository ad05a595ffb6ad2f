use starfield::canvas::{clear, fill_rect, put_pixel};

#[test]
fn put_pixel_writes_one_pixel_or_none() {
    let mut buf = vec![0u32; 12];
    put_pixel(&mut buf, 4, 3, 1, 2, 9);
    assert_eq!(buf, vec![0, 0, 0, 0, 0, 0, 0, 0, 0, 9, 0, 0]);
    for (x, y) in [(-1, 0), (4, 0), (0, 3), (0, -1), (1i128 << 100, 0)] {
        let mut buf = vec![0u32; 12];
        put_pixel(&mut buf, 4, 3, x, y, 9);
        assert_eq!(buf, vec![0u32; 12]);
    }
    // a buffer shorter than the screen: rows beyond it are dropped
    let mut short = vec![0u32; 6];
    put_pixel(&mut short, 4, 3, 2, 1, 9);
    assert_eq!(short, vec![0u32; 6]);
    put_pixel(&mut short, 4, 3, 1, 1, 9);
    assert_eq!(short, vec![0, 0, 0, 0, 0, 9]);
    let mut none = vec![0u32; 4];
    put_pixel(&mut none, 0, 3, 0, 0, 9);
    assert_eq!(none, vec![0u32; 4]);
}

#[test]
fn fill_rect_is_clipped_to_the_screen() {
    let mut buf = vec![0u32; 20];
    fill_rect(&mut buf, 5, 4, 1, 1, 3, 3, 7);
    assert_eq!(buf, vec![0, 0, 0, 0, 0, 0, 7, 7, 0, 0, 0, 7, 7, 0, 0, 0, 0, 0, 0, 0]);
    let mut buf = vec![0u32; 20];
    fill_rect(&mut buf, 5, 4, -2, 3, 2, 9, 7);
    assert_eq!(buf, vec![0, 0, 0, 0, 0, 0, 0, 0, 0, 0, 0, 0, 0, 0, 0, 7, 7, 0, 0, 0]);
    let mut buf = vec![0u32; 20];
    fill_rect(&mut buf, 5, 4, 3, 1, 3, 3, 7);
    assert_eq!(buf, vec![0u32; 20]);
    fill_rect(&mut buf, 5, 4, i128::MIN, i128::MIN, i128::MAX, i128::MAX, 7);
    assert_eq!(buf, vec![7u32; 20]);
}

#[test]
fn clear_blacks_out_everything() {
    let mut buf = vec![5u32; 7];
    clear(&mut buf);
    assert_eq!(buf, vec![0u32; 7]);
    let mut empty: Vec<u32> = Vec::new();
    clear(&mut empty);
    assert!(empty.is_empty());
}
