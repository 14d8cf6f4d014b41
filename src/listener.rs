use vstd::prelude::*;
use crate::machine::{react, transition, ListeningState};
use crate::text::trim;
use crate::wake::{normalized, WakeWordSet};

verus! {

/// The timing of the supervisory loop, in milliseconds.
#[derive(Clone, Copy, Debug, PartialEq, Eq, Structural)]
pub struct Timing {
    /// After a bare wake phrase, how long before the loop reports that it
    /// waits for a command.
    pub grace_ms: u64,
    /// How long the command window stays open.
    pub command_timeout_ms: u64,
    /// How often the dormant decoder session is replaced.
    pub rotation_ms: u64,
    /// How long the listener runs at most.
    pub ceiling_ms: u64,
}

impl Timing {
    pub fn standard() -> (r: Timing)
        ensures
            r.grace_ms == 350,
            r.command_timeout_ms == 3000,
            r.rotation_ms == 600_000,
            r.ceiling_ms == 86_400_000,
    {
        Timing { grace_ms: 350, command_timeout_ms: 3000, rotation_ms: 600_000, ceiling_ms: 86_400_000 }
    }
}

/// What the supervisory loop is to do after one poll.
#[derive(Debug, PartialEq, Eq)]
pub enum PollAction {
    /// A capture error was drained; listening starts over.
    Fault(String),
    /// A trigger was drained: hand the command to the action handler.
    Fire(String),
    /// The command window ran out: reset the active decoder session.
    Timeout,
    /// The command window has been open past the grace period: report once
    /// that a command is awaited.
    AwaitCommand,
    /// The safety ceiling was reached: stop listening.
    Stop,
    /// Nothing to do until the next poll.
    Wait,
}

/// Time from `since` to `now`, zero if the clock reads earlier.
pub open spec fn elapsed(since: u64, now: u64) -> int {
    if now >= since {
        now - since
    } else {
        0
    }
}

/// What a decoder's finalized JSON result holds under its `text` key.
pub uninterp spec fn json_text_of(json: Seq<char>) -> Option<Seq<char>>;

/// Relies on `serde_json::from_str` into a `serde_json::Value`, then
/// `Value::get` and `Value::as_str`: the string under the key `text` when
/// `json` is a JSON object holding one; the outcome depends on `json` alone.
#[verifier::external_body]
fn extract_text_from_complete_json(json: &str) -> (r: Option<String>)
    ensures
        match r {
            Some(t) => json_text_of(json@) == Some(t@),
            None => json_text_of(json@) is None,
        },
{
    let v: serde_json::Value = serde_json::from_str(json).ok()?;
    v.get("text").and_then(|x| x.as_str()).map(|s| s.to_string())
}

/// The state that the capture callback and the supervisory loop share: the
/// listening state, the trigger signal and the error signal.
pub struct Listener {
    state: ListeningState,
    trigger: Option<String>,
    error: Option<String>,
    announced: bool,
    started: u64,
}

impl Listener {
    pub closed spec fn state_spec(&self) -> ListeningState {
        self.state
    }

    /// The command of the pending trigger, if one is set.
    pub closed spec fn trigger_spec(&self) -> Option<Seq<char>> {
        match self.trigger {
            Some(s) => Some(s@),
            None => None,
        }
    }

    /// The message of the pending capture error, if one is set.
    pub closed spec fn error_spec(&self) -> Option<Seq<char>> {
        match self.error {
            Some(s) => Some(s@),
            None => None,
        }
    }

    /// Whether the wait for a command has been reported in this window.
    pub closed spec fn announced_spec(&self) -> bool {
        self.announced
    }

    /// When listening began.
    pub closed spec fn started_spec(&self) -> u64 {
        self.started
    }

    /// An idle listener with no pending signal, started at `now`.
    pub fn new(now: u64) -> (r: Listener)
        ensures
            r.state_spec() == ListeningState::Idle,
            r.trigger_spec() is None,
            r.error_spec() is None,
            !r.announced_spec(),
            r.started_spec() == now,
    {
        Listener { state: ListeningState::Idle, trigger: None, error: None, announced: false, started: now }
    }

    pub fn state(&self) -> (r: ListeningState)
        ensures
            r == self.state_spec(),
    {
        self.state
    }

    /// Whether a trigger waits to be drained.
    pub fn is_triggered(&self) -> (r: bool)
        ensures
            r == self.trigger_spec() is Some,
    {
        self.trigger.is_some()
    }

    /// Feeds one finalized transcript, received at `now`, to the state
    /// machine. A command that it fires sets the trigger unless one is
    /// already pending.
    pub fn on_transcript(&mut self, text: &str, set: &WakeWordSet, now: u64)
        ensures
            final(self).state_spec() == react(
                old(self).state_spec(),
                normalized(text@),
                trim(text@),
                set@,
                now,
            ).0,
            final(self).trigger_spec() == if old(self).trigger_spec() is Some {
                old(self).trigger_spec()
            } else {
                react(old(self).state_spec(), normalized(text@), trim(text@), set@, now).1
            },
            final(self).error_spec() == old(self).error_spec(),
            final(self).announced_spec() == old(self).announced_spec(),
            final(self).started_spec() == old(self).started_spec(),
    {
        let (next, cmd) = transition(self.state, text, set, now);
        self.state = next;
        if self.trigger.is_none() {
            self.trigger = cmd;
        }
    }

    /// Feeds one finalized decoder result, as JSON, to the state machine:
    /// its `text` member is the transcript. Returns whether it held one; a
    /// result without one changes nothing.
    pub fn on_result_json(&mut self, json: &str, set: &WakeWordSet, now: u64) -> (r: bool)
        ensures
            r == json_text_of(json@) is Some,
            match json_text_of(json@) {
                Some(text) => {
                    &&& final(self).state_spec() == react(
                        old(self).state_spec(),
                        normalized(text),
                        trim(text),
                        set@,
                        now,
                    ).0
                    &&& final(self).trigger_spec() == if old(self).trigger_spec() is Some {
                        old(self).trigger_spec()
                    } else {
                        react(old(self).state_spec(), normalized(text), trim(text), set@, now).1
                    }
                },
                None => {
                    &&& final(self).state_spec() == old(self).state_spec()
                    &&& final(self).trigger_spec() == old(self).trigger_spec()
                },
            },
            final(self).error_spec() == old(self).error_spec(),
            final(self).announced_spec() == old(self).announced_spec(),
            final(self).started_spec() == old(self).started_spec(),
    {
        match extract_text_from_complete_json(json) {
            Some(text) => {
                self.on_transcript(text.as_str(), set, now);
                true
            },
            None => false,
        }
    }

    /// Records an error raised by the capture subsystem; a later one replaces
    /// an earlier one that was not drained yet.
    pub fn report_error(&mut self, message: String)
        ensures
            final(self).error_spec() == Some(message@),
            final(self).state_spec() == old(self).state_spec(),
            final(self).trigger_spec() == old(self).trigger_spec(),
            final(self).announced_spec() == old(self).announced_spec(),
            final(self).started_spec() == old(self).started_spec(),
    {
        self.error = Some(message);
    }

    /// One round of the supervisory loop at time `now`. In order: a pending
    /// error is drained, clearing any trigger and returning to idle; else a
    /// pending trigger is drained, returning to idle; else an open command
    /// window that has run longer than the timeout closes; else the wait for
    /// a command is reported once, past the grace period; else listening
    /// stops once it has run longer than the ceiling.
    pub fn poll(&mut self, now: u64, timing: &Timing) -> (r: PollAction)
        ensures
            final(self).started_spec() == old(self).started_spec(),
            final(self).error_spec() is None,
            match old(self).error_spec() {
                Some(e) => {
                    &&& r matches PollAction::Fault(m) && m@ == e
                    &&& final(self).state_spec() == ListeningState::Idle
                    &&& final(self).trigger_spec() is None
                    &&& !final(self).announced_spec()
                },
                None => match old(self).trigger_spec() {
                    Some(cmd) => {
                        &&& r matches PollAction::Fire(m) && m@ == cmd
                        &&& final(self).state_spec() == ListeningState::Idle
                        &&& final(self).trigger_spec() is None
                        &&& !final(self).announced_spec()
                    },
                    None => {
                        &&& final(self).trigger_spec() is None
                        &&& match old(self).state_spec() {
                            ListeningState::WakeDetected { since } => {
                                if elapsed(since, now) > timing.command_timeout_ms {
                                    &&& r == PollAction::Timeout
                                    &&& final(self).state_spec() == ListeningState::Idle
                                    &&& !final(self).announced_spec()
                                } else if elapsed(since, now) > timing.grace_ms
                                    && !old(self).announced_spec() {
                                    &&& r == PollAction::AwaitCommand
                                    &&& final(self).state_spec() == old(self).state_spec()
                                    &&& final(self).announced_spec()
                                } else {
                                    &&& r == (if elapsed(old(self).started_spec(), now)
                                        > timing.ceiling_ms {
                                        PollAction::Stop
                                    } else {
                                        PollAction::Wait
                                    })
                                    &&& final(self).state_spec() == old(self).state_spec()
                                    &&& final(self).announced_spec()
                                        == old(self).announced_spec()
                                }
                            },
                            ListeningState::Idle => {
                                &&& r == (if elapsed(old(self).started_spec(), now)
                                    > timing.ceiling_ms {
                                    PollAction::Stop
                                } else {
                                    PollAction::Wait
                                })
                                &&& final(self).state_spec() == ListeningState::Idle
                                &&& !final(self).announced_spec()
                            },
                        }
                    },
                },
            },
    {
        if let Some(e) = self.error.take() {
            self.trigger = None;
            self.state = ListeningState::Idle;
            self.announced = false;
            return PollAction::Fault(e);
        }
        if let Some(cmd) = self.trigger.take() {
            self.state = ListeningState::Idle;
            self.announced = false;
            return PollAction::Fire(cmd);
        }
        match self.state {
            ListeningState::WakeDetected { since } => {
                let waited: u64 = if now >= since {
                    now - since
                } else {
                    0
                };
                if waited > timing.command_timeout_ms {
                    self.state = ListeningState::Idle;
                    self.announced = false;
                    return PollAction::Timeout;
                }
                if waited > timing.grace_ms && !self.announced {
                    self.announced = true;
                    return PollAction::AwaitCommand;
                }
            },
            ListeningState::Idle => {
                self.announced = false;
            },
        }
        let ran: u64 = if now >= self.started {
            now - self.started
        } else {
            0
        };
        if ran > timing.ceiling_ms {
            PollAction::Stop
        } else {
            PollAction::Wait
        }
    }
}

} // verus!
