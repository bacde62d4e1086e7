//! The synchronous side of the service: the queue of commands handed to the viewer, and the
//! status line that the viewer shows.
use crate::comm::Status;
use crate::command::{Chunk, Command};
use std::collections::VecDeque;
use vstd::prelude::*;

verus! {

/// The state of the link and of the scan, as reported to the viewer.
#[derive(Debug, Clone, Copy, PartialEq, Eq, Structural)]
pub struct StatusReport {
    pub connection_status: Status,
    pub current_block: u64,
    pub finalized_block: u64,
}

/// What the worker observes.
pub enum WorkerEvent {
    /// The link changed its status.
    CommStatusChanged(Status),
    /// The node announced a new finalized height.
    NewFinalizedHeight(u64),
    /// A block was scanned.
    BlockProcessed(Chunk),
}

impl StatusReport {
    /// The report before anything was observed: connecting, at the block the scan starts from,
    /// with no finalized block known.
    pub fn initial(start_block_num: u64) -> (r: StatusReport)
        ensures
            r == (StatusReport {
                connection_status: Status::Connecting,
                current_block: start_block_num,
                finalized_block: 0,
            }),
    {
        StatusReport {
            connection_status: Status::Connecting,
            current_block: start_block_num,
            finalized_block: 0,
        }
    }

    /// Takes an event of the worker into account: a status change sets the status, a new
    /// finalized height sets the finalized block, a scanned block sets the current block.
    pub fn observe(&mut self, event: &WorkerEvent)
        ensures
            match event {
                WorkerEvent::CommStatusChanged(s) => *final(self) == (StatusReport {
                    connection_status: *s,
                    ..*old(self)
                }),
                WorkerEvent::NewFinalizedHeight(h) => *final(self) == (StatusReport {
                    finalized_block: *h,
                    ..*old(self)
                }),
                WorkerEvent::BlockProcessed(chunk) => *final(self) == (StatusReport {
                    current_block: chunk.block_num,
                    ..*old(self)
                }),
            },
    {
        match event {
            WorkerEvent::CommStatusChanged(s) => self.connection_status = *s,
            WorkerEvent::NewFinalizedHeight(h) => self.finalized_block = *h,
            WorkerEvent::BlockProcessed(chunk) => self.current_block = chunk.block_num,
        }
    }
}

/// Commands received from the worker and not handed out yet.
pub struct PendingCommands {
    pending: VecDeque<Command>,
}

/// The queue after a chunk, if one came, was appended to it.
pub open spec fn queued_with(queue: Seq<Command>, incoming: Option<Chunk>) -> Seq<Command> {
    match incoming {
        Some(chunk) => queue + chunk.cmds@,
        None => queue,
    }
}

impl View for PendingCommands {
    type V = Seq<Command>;

    closed spec fn view(&self) -> Seq<Command> {
        self.pending@
    }
}

impl PendingCommands {
    /// An empty queue.
    pub fn new() -> (q: Self)
        ensures
            q@ == Seq::<Command>::empty(),
    {
        PendingCommands { pending: VecDeque::new() }
    }

    /// Whether the queue is empty, so that the next poll needs a chunk from the worker.
    pub fn needs_chunk(&self) -> (r: bool)
        ensures
            r == (self@.len() == 0),
    {
        self.pending.len() == 0
    }

    /// Hands out the next command. Where the queue is empty, the chunk that the worker sent
    /// since, if any, is appended first. Commands are handed out from the back of the queue, so
    /// the commands of one chunk come out last first.
    pub fn poll(&mut self, incoming: Option<Chunk>) -> (r: Option<Command>)
        requires
            old(self)@.len() > 0 ==> incoming is None,
        ensures
            queued_with(old(self)@, incoming).len() == 0 ==> r is None && final(self)@ == queued_with(
                old(self)@,
                incoming,
            ),
            queued_with(old(self)@, incoming).len() > 0 ==> r == Some(
                queued_with(old(self)@, incoming).last(),
            ) && final(self)@ == queued_with(old(self)@, incoming).drop_last(),
            (r, final(self)@) == poll_step(old(self)@, chunk_cmds(incoming)),
    {
        if let Some(cmd) = self.pending.pop_back() {
            return Some(cmd);
        }
        if let Some(chunk) = incoming {
            let cmds = chunk.cmds;
            let ghost start = self.pending@;
            let mut i: usize = 0;
            while i < cmds.len()
                invariant
                    i <= cmds@.len(),
                    self.pending@ == start + cmds@.take(i as int),
                decreases cmds@.len() - i,
            {
                self.pending.push_back(cmds[i]);
                assert(cmds@.take(i + 1) =~= cmds@.take(i as int).push(cmds@[i as int]));
                i = i + 1;
            }
            assert(cmds@.take(cmds@.len() as int) =~= cmds@);
        }
        let r = self.pending.pop_back();
        r
    }
}

/// The commands of a chunk that arrived, if one did.
pub open spec fn chunk_cmds(incoming: Option<Chunk>) -> Option<Seq<Command>> {
    match incoming {
        Some(chunk) => Some(chunk.cmds@),
        None => None,
    }
}

/// One poll of a queue: the commands that arrived are appended, and the last command, if any,
/// is handed out.
pub open spec fn poll_step(queue: Seq<Command>, incoming: Option<Seq<Command>>) -> (Option<Command>, Seq<Command>) {
    let all = match incoming {
        Some(cmds) => queue + cmds,
        None => queue,
    };
    if all.len() == 0 {
        (None, all)
    } else {
        (Some(all.last()), all.drop_last())
    }
}

/// A run of polls from an empty queue, one per element of `incomings` (the commands of the
/// chunk taken at that poll, if any): the commands handed out, in order, the queue left, and
/// whether every chunk was taken only when the queue was empty.
pub open spec fn poll_run(incomings: Seq<Option<Seq<Command>>>) -> (Seq<Command>, Seq<Command>, bool)
    decreases incomings.len(),
{
    if incomings.len() == 0 {
        (Seq::empty(), Seq::empty(), true)
    } else {
        let (handed, queue, valid) = poll_run(incomings.drop_last());
        let incoming = incomings.last();
        let (out, rest) = poll_step(queue, incoming);
        (
            match out {
                Some(c) => handed.push(c),
                None => handed,
            },
            rest,
            valid && (queue.len() > 0 ==> incoming is None),
        )
    }
}

/// The commands of the chunks taken in a run, each chunk last command first, chunk after chunk.
pub open spec fn taken_in_order(incomings: Seq<Option<Seq<Command>>>) -> Seq<Command>
    decreases incomings.len(),
{
    if incomings.len() == 0 {
        Seq::empty()
    } else {
        taken_in_order(incomings.drop_last()) + match incomings.last() {
            Some(cmds) => cmds.reverse(),
            None => Seq::empty(),
        }
    }
}

/// Over any run of polls in which a chunk is taken only when the queue is empty, every command
/// taken is handed out exactly once: what was handed out, followed by what is still queued (in
/// the order it will come out), is the commands of the chunks in the order they were taken,
/// each chunk last command first. So all of one chunk's commands come out before any of the
/// next chunk's.
pub proof fn lemma_polls_hand_out_each_command_once(incomings: Seq<Option<Seq<Command>>>)
    requires
        poll_run(incomings).2,
    ensures
        poll_run(incomings).0 + poll_run(incomings).1.reverse() == taken_in_order(incomings),
    decreases incomings.len(),
{
    if incomings.len() > 0 {
        let prev = incomings.drop_last();
        let (handed, queue, valid) = poll_run(prev);
        lemma_polls_hand_out_each_command_once(prev);
        let incoming = incomings.last();
        match incoming {
            None => {
                if queue.len() > 0 {
                    assert(queue.reverse() =~= seq![queue.last()] + queue.drop_last().reverse());
                    assert(handed.push(queue.last()) + queue.drop_last().reverse() =~= handed
                        + queue.reverse());
                }
                assert(taken_in_order(incomings) =~= taken_in_order(prev));
            },
            Some(cmds) => {
                assert(queue.len() == 0);
                assert(queue + cmds =~= cmds);
                assert(handed =~= taken_in_order(prev));
                if cmds.len() > 0 {
                    assert(cmds.reverse() =~= seq![cmds.last()] + cmds.drop_last().reverse());
                    assert(handed.push(cmds.last()) + cmds.drop_last().reverse() =~= handed
                        + cmds.reverse());
                } else {
                    assert(cmds.reverse() =~= Seq::<Command>::empty());
                    assert(cmds.reverse() =~= cmds);
                }
            },
        }
    }
}

/// The decimal digits of a number.
pub open spec fn decimal(n: nat) -> Seq<char>
    decreases n,
{
    if n < 10 {
        seq![digit_char(n)]
    } else {
        decimal(n / 10).push(digit_char(n % 10))
    }
}

/// The character of a decimal digit.
pub open spec fn digit_char(d: nat) -> char {
    (('0' as nat) + d) as char
}

/// `a - b`, or 0 where that is negative.
pub open spec fn saturating_sub(a: u64, b: u64) -> u64 {
    if a >= b {
        (a - b) as u64
    } else {
        0
    }
}

/// The status line: "connecting" while the link is being established; "syncing current/finalized"
/// while the scan is more than five blocks behind the finalized head; "idle" otherwise.
pub open spec fn status_text(report: StatusReport) -> Seq<char> {
    if report.connection_status == Status::Connecting {
        "connecting"@
    } else if report.current_block < saturating_sub(report.finalized_block, 5) {
        "syncing "@ + decimal(report.current_block as nat) + "/"@ + decimal(
            report.finalized_block as nat,
        )
    } else {
        "idle"@
    }
}

/// Calls `<u64 as ToString>::to_string`, which writes a `u64` in decimal, as its `Display`
/// does.
#[verifier::external_body]
fn u64_decimal(n: u64) -> (s: String)
    ensures
        s@ == decimal(n as nat),
{
    n.to_string()
}

/// Renders the status line shown in the window title.
pub fn render_status_string(status_report: StatusReport) -> (s: String)
    ensures
        s@ == status_text(status_report),
{
    let connecting = match status_report.connection_status {
        Status::Connecting => true,
        Status::Connected => false,
    };
    if connecting {
        "connecting".to_owned()
    } else if status_report.current_block < status_report.finalized_block.saturating_sub(5) {
        let mut line = "syncing ".to_owned();
        let current = u64_decimal(status_report.current_block);
        line.append(current.as_str());
        line.append("/");
        let finalized = u64_decimal(status_report.finalized_block);
        line.append(finalized.as_str());
        line
    } else {
        "idle".to_owned()
    }
}

/// While the link is connecting, the status line says so, whatever the block numbers; once
/// connected, it shows "syncing" exactly while the scan is more than five blocks behind the
/// finalized head, and "idle" otherwise.
pub proof fn lemma_status_line_cases(report: StatusReport)
    ensures
        report.connection_status == Status::Connecting ==> status_text(report) == "connecting"@,
        report.connection_status == Status::Connected ==> (report.current_block + 5
            < report.finalized_block <==> status_text(report) != "idle"@ && status_text(report)
            != "connecting"@),
        report.connection_status == Status::Connected && report.current_block + 5
            >= report.finalized_block ==> status_text(report) == "idle"@,
        report.connection_status == Status::Connected && report.current_block + 5
            < report.finalized_block ==> status_text(report).take(8) == "syncing "@,
{
    reveal_strlit("syncing ");
    reveal_strlit("idle");
    reveal_strlit("connecting");
    if report.connection_status == Status::Connected && report.current_block + 5 < report.finalized_block {
        let t = "syncing "@ + decimal(report.current_block as nat) + "/"@ + decimal(
            report.finalized_block as nat,
        );
        assert(t.take(8) =~= "syncing "@);
        assert(t.len() > 8 && t.len() != 4) by {
            lemma_decimal_nonempty(report.current_block as nat);
        }
        assert(t != "idle"@);
        assert(t[0] != "connecting"@[0]);
        assert(t != "connecting"@);
    }
}

proof fn lemma_decimal_nonempty(n: nat)
    ensures
        decimal(n).len() >= 1,
    decreases n,
{
    if n >= 10 {
        lemma_decimal_nonempty(n / 10);
    }
}

} // verus!
