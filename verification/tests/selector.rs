use fled::layout::{BLOCK_SIZE, SAVE_INDEX_OFFSET, SAVE_SIZE, SECTION_COUNT, SECTION_SIZE};
use fled::select_block;

fn put_save_index(buf: &mut [u8], block: usize, position: usize, index: u32) {
    let at = block * BLOCK_SIZE + position * SECTION_SIZE + SAVE_INDEX_OFFSET;
    buf[at..at + 4].copy_from_slice(&index.to_le_bytes());
}

fn buffer_with_indices(first: u32, second: u32) -> Vec<u8> {
    let mut buf = vec![0u8; SAVE_SIZE];
    for position in 0..SECTION_COUNT {
        put_save_index(&mut buf, 0, position, first);
        put_save_index(&mut buf, 1, position, second);
    }
    // Mark each block so that the returned bytes tell them apart.
    buf[0] = 0xaa;
    buf[BLOCK_SIZE] = 0xbb;
    buf
}

#[test]
fn greater_index_in_the_second_block_selects_it() {
    let buf = buffer_with_indices(5, 7);
    let (offset, block) = select_block(&buf);
    assert_eq!(offset, 57344);
    assert_eq!(block.len(), 57344);
    assert_eq!(block, &buf[57344..114688]);
    assert_eq!(block[0], 0xbb);
}

#[test]
fn greater_index_in_the_first_block_selects_it() {
    let buf = buffer_with_indices(7, 5);
    let (offset, block) = select_block(&buf);
    assert_eq!(offset, 0);
    assert_eq!(block.len(), 57344);
    assert_eq!(block, &buf[..57344]);
    assert_eq!(block[0], 0xaa);
}

#[test]
fn equal_indices_select_the_second_block() {
    let buf = buffer_with_indices(6, 6);
    let (offset, block) = select_block(&buf);
    assert_eq!(offset, 57344);
    assert_eq!(block[0], 0xbb);

    let buf = vec![0u8; SAVE_SIZE];
    assert_eq!(select_block(&buf).0, 57344);
}

#[test]
fn indices_are_compared_as_32_bit_numbers() {
    // 0x0100_0000 is greater than 0xff though its low byte is smaller.
    let buf = buffer_with_indices(0x0100_0000, 0xff);
    assert_eq!(select_block(&buf).0, 0);
    let buf = buffer_with_indices(0xff, 0x0100_0000);
    assert_eq!(select_block(&buf).0, 57344);
    let buf = buffer_with_indices(u32::MAX, 0);
    assert_eq!(select_block(&buf).0, 0);
    let buf = buffer_with_indices(u32::MAX - 1, u32::MAX);
    assert_eq!(select_block(&buf).0, 57344);
}

#[test]
fn the_last_section_of_a_block_ranks_it() {
    // The first block's sections all say 9 but the last, which says 1.
    let mut buf = buffer_with_indices(9, 4);
    put_save_index(&mut buf, 0, 13, 1);
    assert_eq!(select_block(&buf).0, 57344);

    // The first block's sections all say 1 but the last, which says 9.
    let mut buf = buffer_with_indices(1, 4);
    put_save_index(&mut buf, 0, 13, 9);
    assert_eq!(select_block(&buf).0, 0);
}

#[test]
fn selection_does_not_look_at_the_section_table() {
    // No section identifier is set: the blocks are invalid, and still ranked.
    let buf = buffer_with_indices(2, 1);
    assert_eq!(select_block(&buf).0, 0);
}

#[test]
fn bytes_behind_the_second_block_are_ignored() {
    let mut buf = buffer_with_indices(5, 7);
    for at in 2 * BLOCK_SIZE..SAVE_SIZE {
        buf[at] = 0xff;
    }
    buf.extend_from_slice(&[0xff; 100]);
    let (offset, block) = select_block(&buf);
    assert_eq!(offset, 57344);
    assert_eq!(block.len(), 57344);
}
