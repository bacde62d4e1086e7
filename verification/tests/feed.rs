use remarkable_oxide::block_feed::BlockCursor;
use remarkable_oxide::chain_data::{Block, OpaqueExtrinsic, SignedBlock};
use remarkable_oxide::command::Command;
use remarkable_oxide::config::{fullscreen_enabled, Config};

fn block_with(remark: &[u8]) -> SignedBlock {
    let mut v = vec![0x04, 0x00, 0x01, (remark.len() as u8) << 2];
    v.extend_from_slice(remark);
    SignedBlock { block: Block { extrinsics: vec![OpaqueExtrinsic(v)] } }
}

#[test]
fn cursor_numbers_consecutive_chunks() {
    let mut c = BlockCursor::new(40000, 40010);
    let chunk = c.next_chunk(block_with(&[0x13, 0x37, 0x00, 0x10, 0x02, 1, 2, 3]));
    assert_eq!(chunk.block_num, 40000);
    assert_eq!(chunk.cmds, vec![Command { x: 1, y: 2, rgb: (1, 2, 3) }]);
    let chunk = c.next_chunk(block_with(&[]));
    assert_eq!(chunk.block_num, 40001);
    assert!(chunk.cmds.is_empty());
    assert_eq!((c.lhs, c.rhs), (40002, 40010));
    c.on_finalized(40020);
    assert_eq!((c.lhs, c.rhs), (40002, 40020));
    let cmds = c.next_commands(block_with(&[0x13, 0x37, 0x00, 0x10, 0x02, 1, 2, 3]));
    assert_eq!(cmds.len(), 1);
    assert_eq!(c.lhs, 40003);
}

#[test]
fn config_defaults_and_values() {
    let c = Config::from_vars(None, None, None);
    assert_eq!(c.persisted_data_path, "persisted_data");
    assert_eq!(c.rpc_hostname, "ws://localhost:1234");
    assert!(c.fullscreen);
    let c = Config::from_vars(Some("/tmp/x".into()), Some("ws://node:9944".into()), Some("No".into()));
    assert_eq!(c.persisted_data_path, "/tmp/x");
    assert_eq!(c.rpc_hostname, "ws://node:9944");
    assert!(!c.fullscreen);
    for off in ["0", "false", "FALSE", "False", "no", "NO", "n", "N"] {
        assert!(!fullscreen_enabled(Some(off.to_string())), "{}", off);
    }
    for on in ["1", "true", "yes", "", "nope", "falsey", "o"] {
        assert!(fullscreen_enabled(Some(on.to_string())), "{}", on);
    }
}
