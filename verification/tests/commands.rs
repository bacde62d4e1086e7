use remarkable_oxide::block::{extrinsic_to_command, parse_block, parse_block_number};
use remarkable_oxide::chain_data::{Block, Header, OpaqueExtrinsic, SignedBlock};
use remarkable_oxide::command::{Chunk, Command, CANVAS_HEIGHT, CANVAS_WIDTH};

#[test]
fn parses_a_command() {
    let c = Command::parse(&[0x13, 0x37, 0x12, 0x34, 0x56, 1, 2, 3]).unwrap();
    assert_eq!(c, Command { x: 123, y: 456, rgb: (1, 2, 3) });
    let c = Command::parse(&[0x13, 0x37, 0x99, 0x99, 0x99, 0, 0, 0]).unwrap();
    assert_eq!((c.x, c.y), (999, 999));
    assert!((c.x as usize) < CANVAS_WIDTH && (c.y as usize) < CANVAS_HEIGHT);
    let c = Command::parse(&[0x13, 0x37, 0x00, 0x10, 0x01, 9, 9, 9]).unwrap();
    assert_eq!((c.x, c.y), (1, 1));
}

#[test]
fn refuses_malformed_commands() {
    // Wrong magic.
    assert_eq!(Command::parse(&[0x13, 0x38, 0x12, 0x34, 0x56, 1, 2, 3]), None);
    assert_eq!(Command::parse(&[0x37, 0x13, 0x12, 0x34, 0x56, 1, 2, 3]), None);
    // Wrong length.
    assert_eq!(Command::parse(&[0x13, 0x37, 0x12, 0x34, 0x56, 1, 2]), None);
    assert_eq!(Command::parse(&[0x13, 0x37, 0x12, 0x34, 0x56, 1, 2, 3, 4]), None);
    assert_eq!(Command::parse(&[0x13]), None);
    assert_eq!(Command::parse(&[]), None);
    // A hexadecimal digit above 9 in either coordinate.
    assert_eq!(Command::parse(&[0x13, 0x37, 0x1a, 0x34, 0x56, 1, 2, 3]), None);
    assert_eq!(Command::parse(&[0x13, 0x37, 0x12, 0x34, 0x5f, 1, 2, 3]), None);
    assert_eq!(Command::parse(&[0x13, 0x37, 0x12, 0xb4, 0x56, 1, 2, 3]), None);
}

fn unsigned_remark(remark: &[u8]) -> OpaqueExtrinsic {
    let mut v = vec![0x04, 0x00, 0x01, (remark.len() as u8) << 2];
    v.extend_from_slice(remark);
    OpaqueExtrinsic(v)
}

#[test]
fn extracts_commands_of_a_block() {
    let a = [0x13, 0x37, 0x00, 0x10, 0x02, 10, 20, 30];
    let b = [0x13, 0x37, 0x99, 0x90, 0x00, 40, 50, 60];
    let body = SignedBlock {
        block: Block {
            extrinsics: vec![
                unsigned_remark(&a),
                OpaqueExtrinsic(vec![0x04, 0x05, 0x00]),
                unsigned_remark(&[0x13, 0x37]),
                OpaqueExtrinsic(vec![0x07]),
                unsigned_remark(&b),
            ],
        },
    };
    assert_eq!(
        parse_block(body),
        vec![
            Command { x: 1, y: 2, rgb: (10, 20, 30) },
            Command { x: 999, y: 0, rgb: (40, 50, 60) }
        ]
    );
    assert_eq!(extrinsic_to_command(&unsigned_remark(&a).0), Command::parse(&a));
    assert_eq!(extrinsic_to_command(&[0x04, 0x00, 0x02, 1, 2]), None);
    assert_eq!(parse_block(SignedBlock { block: Block { extrinsics: vec![] } }), vec![]);
}

#[test]
fn reads_block_numbers_of_headers() {
    assert_eq!(parse_block_number("0x1f"), Some(31));
    assert_eq!(parse_block_number("0x0x1F"), Some(31));
    assert_eq!(parse_block_number("ff"), Some(255));
    assert_eq!(parse_block_number("0x+10"), Some(16));
    assert_eq!(parse_block_number("0xffffffffffffffff"), Some(u64::MAX));
    assert_eq!(parse_block_number("0x10000000000000000"), None);
    assert_eq!(parse_block_number("0x"), None);
    assert_eq!(parse_block_number(""), None);
    assert_eq!(parse_block_number("0x+"), None);
    assert_eq!(parse_block_number("0x1g"), None);
    assert_eq!(parse_block_number("0x-1"), None);
    assert_eq!(parse_block_number("0x00000000000000000000001"), Some(1));
    let header = Header { number: "0x2a".to_string() };
    assert_eq!(header.block_number(), Some(42));
}

#[test]
fn chunk_holds_block_number_and_commands() {
    let chunk = Chunk { block_num: 5, cmds: vec![Command { x: 1, y: 2, rgb: (3, 4, 5) }] };
    assert_eq!(chunk.block_num, 5);
    assert_eq!(chunk.cmds.len(), 1);
}
