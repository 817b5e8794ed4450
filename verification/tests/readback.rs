use bloom_cook::readback::{padded_bytes_per_row, strip_row_padding};

#[test]
fn rows_are_padded_to_the_copy_alignment() {
    assert_eq!(padded_bytes_per_row(64, 4, 256), Some((256, 256)));
    assert_eq!(padded_bytes_per_row(65, 4, 256), Some((260, 512)));
    assert_eq!(padded_bytes_per_row(3, 1, 256), Some((3, 256)));
    assert_eq!(padded_bytes_per_row(0, 4, 256), Some((0, 0)));
    assert_eq!(padded_bytes_per_row(u32::MAX, 2, 256), None);
    assert_eq!(padded_bytes_per_row(u32::MAX - 10, 1, 256), None);
}

#[test]
fn padding_is_stripped_row_by_row() {
    let data: Vec<u8> = (0..12).collect();
    assert_eq!(strip_row_padding(&data, 3, 2, 4), vec![0, 1, 4, 5, 8, 9]);
    assert_eq!(strip_row_padding(&data, 3, 4, 4), data);
    assert_eq!(strip_row_padding(&[], 0, 0, 0), Vec::<u8>::new());
}
