//! One turn's decision: what a worker does with the outcome of one read
//! attempt on one of its units. A caller that replays real files reads a
//! line, hands the outcome in as a `ReadEvent`, and performs the returned
//! `TurnAction` on its handles.

use vstd::prelude::*;

use crate::strategy::WrapStrategy;

verus! {

/// The outcome of one read attempt on a unit's input.
#[derive(Debug)]
pub enum ReadEvent {
    /// One whole line, with its terminator.
    Line(String),
    /// Zero bytes were read: the cursor stands at end of input.
    EndOfInput,
    /// The read failed; the cursor did not move.
    ReadError,
}

/// What a wrap does to the unit's output file. Whatever the action, the
/// read cursor then goes back to the start of the input.
#[derive(Debug, Clone, Copy, PartialEq, Eq, Structural)]
pub enum WrapAction {
    /// Leave the output file as it is: it keeps growing.
    KeepOutput,
    /// Reopen the output file empty, discarding its contents.
    TruncateOutput,
    /// Rename the output file to its rotated sibling, overwriting any file
    /// already under that name, and open a fresh empty output file.
    RotateOutput,
}

/// What one turn does after its read attempt.
#[derive(Debug)]
pub enum TurnAction {
    /// Append exactly these bytes to the output file.
    Emit(String),
    /// Apply the wrap to the output file and reset the read cursor to the
    /// start — on a wrap failure the cursor is still reset, so that replay
    /// goes on rather than stalling.
    Wrap(WrapAction),
    /// Report the read failure and leave the unit untouched; it is retried
    /// on its next scheduled turn.
    Report,
}

/// The wrap that each strategy calls for.
pub open spec fn wrap_action_of(s: WrapStrategy) -> WrapAction {
    match s {
        WrapStrategy::Append => WrapAction::KeepOutput,
        WrapStrategy::Truncate => WrapAction::TruncateOutput,
        WrapStrategy::Rotate => WrapAction::RotateOutput,
    }
}

/// Decides one turn: a line is emitted exactly as read; end of input wraps
/// by the strategy; a read failure is reported and changes nothing.
pub fn plan_turn(event: ReadEvent, strategy: WrapStrategy) -> (a: TurnAction)
    ensures
        a == (match event {
            ReadEvent::Line(l) => TurnAction::Emit(l),
            ReadEvent::EndOfInput => TurnAction::Wrap(wrap_action_of(strategy)),
            ReadEvent::ReadError => TurnAction::Report,
        }),
{
    match event {
        ReadEvent::Line(l) => TurnAction::Emit(l),
        ReadEvent::EndOfInput => {
            let w = match strategy {
                WrapStrategy::Append => WrapAction::KeepOutput,
                WrapStrategy::Truncate => WrapAction::TruncateOutput,
                WrapStrategy::Rotate => WrapAction::RotateOutput,
            };
            TurnAction::Wrap(w)
        },
        ReadEvent::ReadError => TurnAction::Report,
    }
}

} // verus!
