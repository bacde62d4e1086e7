use remarkable_oxide::command::{Chunk, Command};
use remarkable_oxide::persist::{
    block_num_from_bytes, block_num_to_bytes, pixel_file_offset, plan_writes, FILE_LEN,
    IMAGE_LEN, IMAGE_OFFSET,
};

fn apply(file: &mut Vec<u8>, chunk: &Chunk) {
    for w in plan_writes(chunk) {
        let start = w.offset as usize;
        file[start..start + w.data.len()].copy_from_slice(&w.data);
    }
}

#[test]
fn layout_constants() {
    assert_eq!(FILE_LEN, 3_000_008);
    assert_eq!(IMAGE_LEN, 3_000_000);
    assert_eq!(IMAGE_OFFSET, 8);
}

#[test]
fn block_number_bytes_round_trip() {
    assert_eq!(block_num_to_bytes(0x0102030405060708), [8, 7, 6, 5, 4, 3, 2, 1]);
    assert_eq!(block_num_to_bytes(0x0102030405060708), 0x0102030405060708u64.to_le_bytes());
    for n in [0u64, 1, 255, 256, 1000, u64::MAX, 0xdead_beef_cafe] {
        assert_eq!(block_num_from_bytes(&block_num_to_bytes(n)), n);
    }
    assert_eq!(block_num_from_bytes(&[1, 0, 0, 0, 0, 0, 0, 0]), 1);
    assert_eq!(block_num_from_bytes(&[0, 0, 0, 0, 0, 0, 0, 0x80]), 1 << 63);
}

#[test]
fn pixel_offsets() {
    assert_eq!(pixel_file_offset(0, 0), 8);
    assert_eq!(pixel_file_offset(1, 0), 11);
    assert_eq!(pixel_file_offset(0, 1), 3008);
    assert_eq!(pixel_file_offset(999, 999), 8 + 3 * 999_999);
}

#[test]
fn plans_block_number_then_pixels() {
    let chunk = Chunk {
        block_num: 42,
        cmds: vec![Command { x: 1, y: 2, rgb: (1, 2, 3) }, Command { x: 0, y: 0, rgb: (4, 5, 6) }],
    };
    let writes = plan_writes(&chunk);
    assert_eq!(writes.len(), 3);
    assert_eq!(writes[0].offset, 0);
    assert_eq!(writes[0].data, vec![42, 0, 0, 0, 0, 0, 0, 0]);
    assert_eq!(writes[1].offset, 8 + 3 * 2001);
    assert_eq!(writes[1].data, vec![1, 2, 3]);
    assert_eq!(writes[2].offset, 8);
    assert_eq!(writes[2].data, vec![4, 5, 6]);
}

#[test]
fn persisted_chunk_reads_back() {
    let mut file = vec![0xeeu8; FILE_LEN];
    let chunk = Chunk {
        block_num: 123456,
        cmds: vec![
            Command { x: 5, y: 7, rgb: (1, 1, 1) },
            Command { x: 6, y: 7, rgb: (2, 2, 2) },
            Command { x: 5, y: 7, rgb: (3, 3, 3) },
        ],
    };
    apply(&mut file, &chunk);
    assert_eq!(file.len(), FILE_LEN);
    assert_eq!(block_num_from_bytes(&file[0..8]), 123456);
    let at = |x: u16, y: u16| {
        let o = pixel_file_offset(x, y) as usize;
        file[o..o + 3].to_vec()
    };
    assert_eq!(at(5, 7), vec![3, 3, 3]);
    assert_eq!(at(6, 7), vec![2, 2, 2]);
    assert_eq!(at(7, 7), vec![0xee, 0xee, 0xee]);
    assert_eq!(at(999, 999), vec![0xee, 0xee, 0xee]);
}

fn apply_growing(file: &mut Vec<u8>, chunk: &Chunk) {
    for w in plan_writes(chunk) {
        let start = w.offset as usize;
        if file.len() < start + w.data.len() {
            file.resize(start + w.data.len(), 0);
        }
        file[start..start + w.data.len()].copy_from_slice(&w.data);
    }
}

#[test]
fn block_number_reads_back_for_any_chunk() {
    let mut file = vec![0x55u8; 8];
    let chunk = Chunk { block_num: 77, cmds: vec![Command { x: 5000, y: 9000, rgb: (1, 2, 3) }] };
    apply_growing(&mut file, &chunk);
    assert_eq!(block_num_from_bytes(&file[0..8]), 77);
    let o = pixel_file_offset(5000, 9000) as usize;
    assert_eq!(file[o..o + 3].to_vec(), vec![1, 2, 3]);
}
