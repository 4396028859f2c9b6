use ivf::ByteCursor;

#[test]
fn new_cursor_has_everything_left() {
    assert_eq!(ByteCursor::new(Vec::new()).remaining(), 0);
    assert_eq!(ByteCursor::new(vec![1, 2, 3]).remaining(), 3);
}

#[test]
fn reads_advance_through_the_buffer() {
    let mut cursor = ByteCursor::new(vec![1, 2, 3, 4, 5, 6]);
    assert_eq!(cursor.read_exact(2), Some(&[1u8, 2][..]));
    assert_eq!(cursor.remaining(), 4);
    assert_eq!(cursor.read_exact(0), Some(&[][..]));
    assert_eq!(cursor.remaining(), 4);
    assert_eq!(cursor.read_exact(3), Some(&[3u8, 4, 5][..]));
    assert_eq!(cursor.read_exact(1), Some(&[6u8][..]));
    assert_eq!(cursor.remaining(), 0);
    assert_eq!(cursor.read_exact(0), Some(&[][..]));
    assert_eq!(cursor.read_exact(1), None);
}

#[test]
fn failed_read_moves_to_the_end() {
    let mut cursor = ByteCursor::new(vec![1, 2, 3, 4, 5, 6]);
    assert_eq!(cursor.read_exact(2), Some(&[1u8, 2][..]));
    assert_eq!(cursor.read_exact(5), None);
    assert_eq!(cursor.remaining(), 0);
    assert_eq!(cursor.read_exact(1), None);
    assert_eq!(cursor.read_exact(0), Some(&[][..]));
}

#[test]
fn read_of_more_than_any_buffer_fails() {
    let mut cursor = ByteCursor::new(vec![1, 2, 3]);
    assert_eq!(cursor.read_exact(usize::MAX), None);
    assert_eq!(cursor.remaining(), 0);
}

#[test]
fn clones_advance_independently() {
    let mut cursor = ByteCursor::new(vec![1, 2, 3, 4]);
    assert_eq!(cursor.read_exact(1), Some(&[1u8][..]));
    let mut copy = cursor.clone();
    assert_eq!(copy.remaining(), 3);
    assert_eq!(copy.read_exact(3), Some(&[2u8, 3, 4][..]));
    assert_eq!(copy.remaining(), 0);
    assert_eq!(cursor.remaining(), 3);
    assert_eq!(cursor.read_exact(2), Some(&[2u8, 3][..]));
    assert_eq!(cursor.remaining(), 1);
}
