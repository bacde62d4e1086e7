//! The position of a scan over the blocks of the chain, as kept by the block feeds.
use crate::block::{block_commands, extrinsic_bytes, parse_block};
use crate::chain_data::SignedBlock;
use crate::command::{Chunk, Command};
use vstd::prelude::*;

verus! {

/// What moves a cursor: a new finalized head, or the body of the next block.
pub enum CursorEvent {
    Finalized(u64),
    Block,
}

/// One step of a cursor at (`lhs`, `rhs`): the number of the block delivered, if any, and the
/// new (`lhs`, `rhs`).
pub open spec fn cursor_step(lhs: int, rhs: int, event: CursorEvent) -> (Option<int>, int, int) {
    match event {
        CursorEvent::Finalized(h) => (None, lhs, h as int),
        CursorEvent::Block => (Some(lhs), lhs + 1, rhs),
    }
}

/// A run of steps from (`lhs`, `rhs`): the numbers of the blocks delivered, in order, and the
/// final (`lhs`, `rhs`).
pub open spec fn cursor_run(lhs: int, rhs: int, events: Seq<CursorEvent>) -> (Seq<int>, int, int)
    decreases events.len(),
{
    if events.len() == 0 {
        (Seq::empty(), lhs, rhs)
    } else {
        let (delivered, l, r) = cursor_run(lhs, rhs, events.drop_last());
        let (out, l2, r2) = cursor_step(l, r, events.last());
        (
            match out {
                Some(n) => delivered.push(n),
                None => delivered,
            },
            l2,
            r2,
        )
    }
}

/// Whatever finalized heads arrive in between, the blocks a cursor delivers are numbered
/// `start`, `start + 1`, `start + 2`, ...: no block is skipped or repeated.
pub proof fn lemma_cursor_delivers_consecutive_blocks(start: int, rhs: int, events: Seq<CursorEvent>)
    ensures
        cursor_run(start, rhs, events).0 =~= Seq::new(
            cursor_run(start, rhs, events).0.len(),
            |i: int| start + i,
        ),
        cursor_run(start, rhs, events).1 == start + cursor_run(start, rhs, events).0.len(),
    decreases events.len(),
{
    if events.len() > 0 {
        lemma_cursor_delivers_consecutive_blocks(start, rhs, events.drop_last());
    }
}

/// The next block to fetch (`lhs`) and the highest block known to exist (`rhs`).
pub struct BlockCursor {
    pub lhs: u64,
    pub rhs: u64,
}

impl BlockCursor {
    /// A cursor that starts at `start_block_num`, with `finalized` as the highest known block.
    pub fn new(start_block_num: u64, finalized: u64) -> (c: Self)
        ensures
            c.lhs == start_block_num,
            c.rhs == finalized,
    {
        BlockCursor { lhs: start_block_num, rhs: finalized }
    }

    /// The node announced a new head.
    pub fn on_finalized(&mut self, finalized: u64)
        ensures
            final(self).lhs == old(self).lhs,
            final(self).rhs == finalized,
            (None::<int>, final(self).lhs as int, final(self).rhs as int) == cursor_step(
                old(self).lhs as int,
                old(self).rhs as int,
                CursorEvent::Finalized(finalized),
            ),
    {
        self.rhs = finalized;
    }

    /// The body of block `lhs` arrived: the cursor moves to the next block and the chunk of the
    /// block's commands is returned.
    pub fn next_chunk(&mut self, body: SignedBlock) -> (chunk: Chunk)
        requires
            old(self).lhs < u64::MAX,
        ensures
            chunk.block_num == old(self).lhs,
            chunk.cmds@ == block_commands(extrinsic_bytes(body.block.extrinsics@)),
            final(self).lhs == old(self).lhs + 1,
            final(self).rhs == old(self).rhs,
            (Some(chunk.block_num as int), final(self).lhs as int, final(self).rhs as int)
                == cursor_step(old(self).lhs as int, old(self).rhs as int, CursorEvent::Block),
    {
        let block_num = self.lhs;
        self.lhs = self.lhs + 1;
        let cmds = parse_block(body);
        Chunk { block_num, cmds }
    }

    /// The body of block `lhs` arrived: the cursor moves to the next block and the block's
    /// commands are returned.
    pub fn next_commands(&mut self, body: SignedBlock) -> (cmds: Vec<Command>)
        requires
            old(self).lhs < u64::MAX,
        ensures
            cmds@ == block_commands(extrinsic_bytes(body.block.extrinsics@)),
            final(self).lhs == old(self).lhs + 1,
            final(self).rhs == old(self).rhs,
    {
        self.lhs = self.lhs + 1;
        parse_block(body)
    }
}

} // verus!
