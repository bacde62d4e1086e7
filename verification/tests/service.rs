use remarkable_oxide::comm::Status;
use remarkable_oxide::command::{Chunk, Command};
use remarkable_oxide::service::{render_status_string, PendingCommands, StatusReport};

fn cmd(x: u16) -> Command {
    Command { x, y: 0, rgb: (0, 0, 0) }
}

#[test]
fn poll_hands_out_a_chunk_last_first() {
    let mut q = PendingCommands::new();
    assert!(q.needs_chunk());
    assert_eq!(q.poll(None), None);
    let chunk = Chunk { block_num: 1, cmds: vec![cmd(1), cmd(2), cmd(3)] };
    assert_eq!(q.poll(Some(chunk)), Some(cmd(3)));
    assert!(!q.needs_chunk());
    assert_eq!(q.poll(None), Some(cmd(2)));
    assert_eq!(q.poll(None), Some(cmd(1)));
    assert!(q.needs_chunk());
    assert_eq!(q.poll(Some(Chunk { block_num: 2, cmds: vec![] })), None);
    assert_eq!(q.poll(None), None);
}

#[test]
fn status_line() {
    let report = |s, c, f| StatusReport { connection_status: s, current_block: c, finalized_block: f };
    assert_eq!(render_status_string(report(Status::Connecting, 0, 100)), "connecting");
    assert_eq!(render_status_string(report(Status::Connected, 10, 100)), "syncing 10/100");
    assert_eq!(render_status_string(report(Status::Connected, 94, 100)), "syncing 94/100");
    assert_eq!(render_status_string(report(Status::Connected, 95, 100)), "idle");
    assert_eq!(render_status_string(report(Status::Connected, 0, 3)), "idle");
    assert_eq!(render_status_string(report(Status::Connected, 100, 100)), "idle");
}

#[test]
fn chunks_come_out_one_after_the_other() {
    let mut q = PendingCommands::new();
    let mut out = vec![];
    let mut chunks = vec![
        Chunk { block_num: 1, cmds: vec![cmd(1), cmd(2)] },
        Chunk { block_num: 2, cmds: vec![cmd(3)] },
    ]
    .into_iter();
    for _ in 0..5 {
        let incoming = if q.needs_chunk() { chunks.next() } else { None };
        if let Some(c) = q.poll(incoming) {
            out.push(c.x);
        }
    }
    assert_eq!(out, vec![2, 1, 3]);
}
