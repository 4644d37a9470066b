//! Watching a transcode job that runs on a server.
//!
//! The status of the job is asked for every two seconds until the job is
//! done or has failed. At most one watch is alive: a new one ends the one
//! before it. The caller asks the server and sleeps; when to stop is decided
//! here.

use crate::models::transcode::TranscodeStatus;
use vstd::prelude::*;

verus! {

/// A watch ends once the progress has reached this many millionths.
pub const POLL_DONE_AT: u32 = 990_000;

/// The seconds between two questions.
pub const POLL_INTERVAL_SECONDS: u64 = 2;

/// What a watch does next.
#[derive(Debug, Clone, Copy, PartialEq, Eq, Structural)]
pub enum PollStep {
    /// Sleep for [`POLL_INTERVAL_SECONDS`] and ask again.
    Continue,
    /// End the watch.
    Stop,
}

/// The watch of the job on the server.
#[derive(Debug)]
pub struct OnlineTranscodeRepo {
    active: bool,
    generation: u64,
}

/// Whether a status ends a watch: the job is as good as done, or has failed.
pub open spec fn ends_watch(progress: nat, failed: bool) -> bool {
    progress >= POLL_DONE_AT || failed
}

impl OnlineTranscodeRepo {
    /// Whether a watch is alive.
    pub closed spec fn polling(&self) -> bool {
        self.active
    }

    /// The number of the watch that is alive, or was last.
    pub closed spec fn watch(&self) -> u64 {
        self.generation
    }

    /// No watch is alive.
    pub fn new() -> (repo: Self)
        ensures
            !repo.polling(),
    {
        OnlineTranscodeRepo { active: false, generation: 0 }
    }

    /// Starts a watch and gives its number. The second part of the result
    /// says whether a watch was alive: the caller waits for that one to end
    /// before the new one asks its first question. The number differs from
    /// that of the watch before, until the numbers wrap around.
    pub fn start_pooling_status(&mut self) -> (started: (u64, bool))
        ensures
            final(self).polling(),
            started.0 == final(self).watch(),
            started.1 == old(self).polling(),
            old(self).watch() < u64::MAX ==> final(self).watch() == old(self).watch() + 1,
            old(self).watch() == u64::MAX ==> final(self).watch() == 0,
    {
        let was_active = self.active;
        self.active = true;
        self.generation = if self.generation == u64::MAX {
            0
        } else {
            self.generation + 1
        };
        (self.generation, was_active)
    }

    /// Ends the watch that is alive, if one is. The result says whether one
    /// was: the caller then waits until its loop has ended.
    pub fn stop_pooling_status(&mut self) -> (was_active: bool)
        ensures
            !final(self).polling(),
            final(self).watch() == old(self).watch(),
            was_active == old(self).polling(),
    {
        let was_active = self.active;
        self.active = false;
        was_active
    }

    /// Decides what the watch `watch` does after the server has answered with
    /// `status`, or has not answered (`None`). The watch stops where it is no
    /// longer the one that is alive, and where the status ends it: then no
    /// watch is alive any more. An answer that is missing does not end it.
    pub fn after_poll(&mut self, watch: u64, status: Option<&TranscodeStatus>) -> (step: PollStep)
        ensures
            final(self).watch() == old(self).watch(),
            step == PollStep::Continue <==> old(self).polling() && old(self).watch() == watch && !(
            status is Some && ends_watch(status->0.progress as nat, status->0.error is Some)),
            final(self).polling() == (old(self).polling() && (old(self).watch() != watch || step
                == PollStep::Continue)),
    {
        if !self.active || self.generation != watch {
            return PollStep::Stop;
        }
        let ended = match status {
            Some(status) => status.progress >= POLL_DONE_AT || status.error.is_some(),
            None => false,
        };
        if ended {
            self.active = false;
            PollStep::Stop
        } else {
            PollStep::Continue
        }
    }
}

} // verus!
