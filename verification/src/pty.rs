//! The decisions around the pseudo-terminal: which shell to start, in which
//! environment, and what the reader loop does with each outcome.

use vstd::prelude::*;

verus! {

/// Events the reader sends to the window's event loop.
#[derive(Clone, Copy, Debug, PartialEq, Eq, Structural)]
pub enum ControlEvent {
    /// New output is waiting in the channel.
    Wakeup,
    /// The shell's side of the terminal closed, or reading it failed.
    PtyExit,
}

/// The program to start in the terminal, and the variables to set for it.
pub struct ShellCommand {
    pub program: String,
    pub env: Vec<(String, String)>,
}

/// The value of an environment variable, or `fallback` where it is unset.
pub open spec fn or_default(value: Option<String>, fallback: Seq<char>) -> Seq<char> {
    match value {
        Some(s) => s@,
        None => fallback,
    }
}

fn value_or(value: Option<String>, fallback: &str) -> (s: String)
    ensures
        s@ == or_default(value, fallback@),
{
    match value {
        Some(v) => v,
        None => String::from_str(fallback),
    }
}

/// The command that starts the shell, from the values of the variables `SHELL`,
/// `TERM` and `COLORTERM` (`None` where unset): the shell is `$SHELL` or
/// `/bin/zsh`; it runs with `TERM` set to `$TERM` or `xterm-256color` and
/// `COLORTERM` set to `$COLORTERM` or `truecolor`.
pub fn shell_command(shell: Option<String>, term: Option<String>, colorterm: Option<String>) -> (cmd:
    ShellCommand)
    ensures
        cmd.program@ == or_default(shell, "/bin/zsh"@),
        cmd.env@.len() == 2,
        cmd.env@[0].0@ == "TERM"@,
        cmd.env@[0].1@ == or_default(term, "xterm-256color"@),
        cmd.env@[1].0@ == "COLORTERM"@,
        cmd.env@[1].1@ == or_default(colorterm, "truecolor"@),
{
    let program = value_or(shell, "/bin/zsh");
    let mut env: Vec<(String, String)> = Vec::new();
    env.push((String::from_str("TERM"), value_or(term, "xterm-256color")));
    env.push((String::from_str("COLORTERM"), value_or(colorterm, "truecolor")));
    ShellCommand { program, env }
}

/// What the reader loop learns from its last step.
#[derive(Clone, Copy, Debug, PartialEq, Eq, Structural)]
pub enum ReaderEvent {
    /// A read finished: the number of bytes read (`Some(0)` at end of file), or
    /// `None` where reading failed.
    Read(Option<usize>),
    /// The bytes read were handed to the channel (`true`), or its receiver is gone.
    Forwarded(bool),
    /// The "wakeup pending" flag was set; the value is what it held before.
    Marked(bool),
}

/// What the reader loop does next.
#[derive(Clone, Copy, Debug, PartialEq, Eq, Structural)]
pub enum ReaderAction {
    /// Hand the first `n` bytes of the buffer to the channel.
    Forward(usize),
    /// Set the "wakeup pending" flag, learning its previous value.
    MarkPending,
    /// Send `ControlEvent::Wakeup` to the event loop, then read again.
    WakeAndRead,
    /// Read again.
    ReadNext,
    /// Send `ControlEvent::PtyExit` to the event loop, and stop.
    NotifyExit,
    /// Stop without a word: nobody listens any more.
    Stop,
}

/// The reader loop's decision for `event`: at end of file or on a read error it
/// reports the exit and stops; read bytes go to the channel whole; if the
/// channel is gone it stops; after handing bytes over it sets the pending flag,
/// and wakes the event loop only when no wakeup was pending already.
pub open spec fn reader_decision(event: ReaderEvent) -> ReaderAction {
    match event {
        ReaderEvent::Read(None) => ReaderAction::NotifyExit,
        ReaderEvent::Read(Some(n)) => if n == 0 {
            ReaderAction::NotifyExit
        } else {
            ReaderAction::Forward(n)
        },
        ReaderEvent::Forwarded(sent) => if sent {
            ReaderAction::MarkPending
        } else {
            ReaderAction::Stop
        },
        ReaderEvent::Marked(was_pending) => if was_pending {
            ReaderAction::ReadNext
        } else {
            ReaderAction::WakeAndRead
        },
    }
}

/// One decision of the reader loop (see `reader_decision`).
pub fn reader_step(event: ReaderEvent) -> (action: ReaderAction)
    ensures
        action == reader_decision(event),
{
    match event {
        ReaderEvent::Read(None) => ReaderAction::NotifyExit,
        ReaderEvent::Read(Some(n)) => if n == 0 {
            ReaderAction::NotifyExit
        } else {
            ReaderAction::Forward(n)
        },
        ReaderEvent::Forwarded(sent) => if sent {
            ReaderAction::MarkPending
        } else {
            ReaderAction::Stop
        },
        ReaderEvent::Marked(was_pending) => if was_pending {
            ReaderAction::ReadNext
        } else {
            ReaderAction::WakeAndRead
        },
    }
}

/// After a chunk is handed over, the loop marks the flag and then reads again,
/// whatever the flag held.
pub open spec fn reads_again_after_forward() -> bool {
    &&& reader_decision(ReaderEvent::Forwarded(true)) == ReaderAction::MarkPending
    &&& reader_decision(ReaderEvent::Marked(true)) == ReaderAction::ReadNext
    &&& reader_decision(ReaderEvent::Marked(false)) == ReaderAction::WakeAndRead
}

/// The chunk sizes the reader loop hands to the channel over a run in which the
/// reads give `reads` in turn and every hand-over succeeds: each read's decision
/// is followed, the loop going on to the next read where it reads again after a
/// forwarded chunk; any other decision ends the run.
pub open spec fn forwarded_chunks(reads: Seq<Option<usize>>) -> Seq<usize>
    decreases reads.len(),
{
    if reads.len() == 0 {
        Seq::empty()
    } else {
        match reader_decision(ReaderEvent::Read(reads[0])) {
            ReaderAction::Forward(n) => if reads_again_after_forward() {
                seq![n] + forwarded_chunks(reads.drop_first())
            } else {
                seq![n]
            },
            _ => Seq::empty(),
        }
    }
}

/// Over a run with a live channel, the reader hands over every chunk it reads,
/// whole and in order, each non-empty, up to the first end of file or read
/// error, and nothing after it: the chunks received, joined, are the output read
/// so far, and at the end all of it.
pub proof fn lemma_reader_forwards_every_chunk(reads: Seq<Option<usize>>)
    ensures
        forwarded_chunks(reads).len() <= reads.len(),
        forall|i: int|
            0 <= i < forwarded_chunks(reads).len() ==> reads[i] == Some(#[trigger] forwarded_chunks(reads)[i])
                && forwarded_chunks(reads)[i] > 0,
        forwarded_chunks(reads).len() < reads.len() ==> (reads[forwarded_chunks(reads).len() as int] == None::<usize>
            || reads[forwarded_chunks(reads).len() as int] == Some(0usize)),
    decreases reads.len(),
{
    if reads.len() > 0 {
        lemma_reader_forwards_every_chunk(reads.drop_first());
        let rest = forwarded_chunks(reads.drop_first());
        match reads[0] {
            Some(n) => {
                if n > 0 {
                    assert(forwarded_chunks(reads) == seq![n] + rest);
                    assert forall|i: int| 0 <= i < forwarded_chunks(reads).len() implies reads[i] == Some(
                        #[trigger] forwarded_chunks(reads)[i],
                    ) && forwarded_chunks(reads)[i] > 0 by {
                        if i > 0 {
                            assert(forwarded_chunks(reads)[i] == rest[i - 1]);
                            assert(reads[i] == reads.drop_first()[i - 1]);
                        }
                    }
                    if forwarded_chunks(reads).len() < reads.len() {
                        assert(reads[forwarded_chunks(reads).len() as int] == reads.drop_first()[rest.len() as int]);
                    }
                }
            },
            None => {},
        }
    }
}

/// How the "wakeup pending" flag is used: the reader marks it after each chunk,
/// learning what it held; the event loop clears it when it takes the output.
#[derive(Clone, Copy, Debug, PartialEq, Eq, Structural)]
pub enum FlagOp {
    Mark,
    Clear,
}

/// The flag after `ops`, starting from `init`.
pub open spec fn flag_after(init: bool, ops: Seq<FlagOp>) -> bool
    decreases ops.len(),
{
    if ops.len() == 0 {
        init
    } else {
        match ops.last() {
            FlagOp::Mark => true,
            FlagOp::Clear => false,
        }
    }
}

/// The wakeups the reader sends over `ops`: one for each mark whose previous
/// value leads `reader_decision` to wake the event loop.
pub open spec fn wakeups(init: bool, ops: Seq<FlagOp>) -> nat
    decreases ops.len(),
{
    if ops.len() == 0 {
        0
    } else {
        let before = flag_after(init, ops.drop_last());
        let woke: nat = if ops.last() == FlagOp::Mark && reader_decision(ReaderEvent::Marked(before))
            == ReaderAction::WakeAndRead {
            1
        } else {
            0
        };
        wakeups(init, ops.drop_last()) + woke
    }
}

/// The number of clears in `ops`.
pub open spec fn clears(ops: Seq<FlagOp>) -> nat
    decreases ops.len(),
{
    if ops.len() == 0 {
        0
    } else {
        clears(ops.drop_last()) + if ops.last() == FlagOp::Clear {
            1nat
        } else {
            0nat
        }
    }
}

/// Wakeups coalesce: between two clears by the event loop the reader sends at
/// most one wakeup, so over any run it sends at most one more than the clears
/// (none more where the flag started set); and a run of marks from a clear flag
/// sends exactly one, so no chunk goes unsignalled. After any mark the flag is set.
pub proof fn lemma_wakeups_coalesce(init: bool, ops: Seq<FlagOp>)
    ensures
        wakeups(init, ops) <= clears(ops) + if init {
            0nat
        } else {
            1nat
        },
        (forall|i: int| 0 <= i < ops.len() ==> ops[i] == FlagOp::Mark) ==> wakeups(init, ops) == if !init
            && ops.len() > 0 {
            1nat
        } else {
            0nat
        },
        ops.len() > 0 && ops.last() == FlagOp::Mark ==> flag_after(init, ops),
        wakeups(init, ops) + (if flag_after(init, ops) {
            0nat
        } else {
            1nat
        }) <= clears(ops) + if init {
            0nat
        } else {
            1nat
        },
    decreases ops.len(),
{
    if ops.len() > 0 {
        let prefix = ops.drop_last();
        lemma_wakeups_coalesce(init, prefix);
        if forall|i: int| 0 <= i < ops.len() ==> ops[i] == FlagOp::Mark {
            assert forall|i: int| 0 <= i < prefix.len() implies prefix[i] == FlagOp::Mark by {
                assert(prefix[i] == ops[i]);
            }
            if prefix.len() > 0 {
                assert(prefix.last() == ops[prefix.len() - 1]);
            }
        }
    }
}

} // verus!
