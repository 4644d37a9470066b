//! The status record of a transcode job.

use vstd::prelude::*;

verus! {

/// Progress is counted in millionths: this value stands for 1.0.
pub const PROGRESS_DONE: u32 = 1_000_000;

/// The largest progress a job reports before it has completed.
pub const PROGRESS_CAP: u32 = 999_999;

/// Where a transcode job stands.
#[derive(Debug, Clone, Copy, PartialEq, Eq, Structural)]
pub enum TranscodeState {
    /// Registered, the encoder has not started yet.
    Pending,
    /// The encoder is running.
    Processing,
    /// The encoder ended with success.
    Completed,
    /// The encoder could not be started or ended with a failure.
    Error,
}

impl TranscodeState {
    /// `Completed` and `Error` are final.
    pub open spec fn is_terminal(self) -> bool {
        self == TranscodeState::Completed || self == TranscodeState::Error
    }

    /// The moves of the job state machine: `Pending` to `Processing`, and from
    /// either of them to `Completed` or `Error`. Nothing leaves a final state.
    pub open spec fn may_become(self, next: TranscodeState) -> bool {
        match self {
            TranscodeState::Pending => next != TranscodeState::Pending,
            TranscodeState::Processing => next.is_terminal(),
            TranscodeState::Completed => false,
            TranscodeState::Error => false,
        }
    }

    /// Computes [`TranscodeState::is_terminal`].
    pub fn terminal(self) -> (yes: bool)
        ensures
            yes == self.is_terminal(),
    {
        match self {
            TranscodeState::Completed => true,
            TranscodeState::Error => true,
            _ => false,
        }
    }
}

/// What observers see of a job.
#[derive(Debug)]
pub struct TranscodeStatus {
    pub id: String,
    pub status: TranscodeState,
    /// In millionths, from 0 to [`PROGRESS_DONE`].
    pub progress: u32,
    pub output_path: Option<String>,
    pub error: Option<String>,
}

/// A [`TranscodeStatus`] as plain values.
pub struct TranscodeStatusView {
    pub id: Seq<char>,
    pub status: TranscodeState,
    pub progress: nat,
    pub output_path: Option<Seq<char>>,
    pub error: Option<Seq<char>>,
}

/// The text of an optional string.
pub open spec fn text_of(s: Option<String>) -> Option<Seq<char>> {
    match s {
        Some(text) => Some(text@),
        None => None,
    }
}

/// A copy of an optional string.
pub fn copy_text(s: &Option<String>) -> (copy: Option<String>)
    ensures
        copy == *s,
        text_of(copy) == text_of(*s),
{
    match s {
        Some(text) => Some(text.clone()),
        None => None,
    }
}

impl View for TranscodeStatus {
    type V = TranscodeStatusView;

    open spec fn view(&self) -> TranscodeStatusView {
        TranscodeStatusView {
            id: self.id@,
            status: self.status,
            progress: self.progress as nat,
            output_path: text_of(self.output_path),
            error: text_of(self.error),
        }
    }
}

impl Clone for TranscodeStatus {
    fn clone(&self) -> (copy: Self)
        ensures
            copy == *self,
    {
        TranscodeStatus {
            id: self.id.clone(),
            status: self.status,
            progress: self.progress,
            output_path: copy_text(&self.output_path),
            error: copy_text(&self.error),
        }
    }
}

} // verus!
