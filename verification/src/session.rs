//! The upload session: an event-driven state machine that decides, after
//! each outside call, what the driver must do next. The driver performs
//! the network work (initiate, upload one part, complete, abort) and
//! feeds the outcome back in as an event; every decision, and the
//! completion manifest, lives here.

use vstd::prelude::*;

verus! {

/// How many times one part may be retried after transient failures.
pub const MAX_PART_RETRIES: u32 = 3;

/// Protocol phase of an upload session.
#[derive(PartialEq, Eq, Structural, Clone, Copy, Debug)]
pub enum Phase {
    /// Nothing has been sent yet.
    Idle,
    /// The create request is in flight; no upload identifier yet.
    Initiated,
    /// Part uploads are in flight; some tags may be collected already.
    PartsInFlight,
    /// Every part is acknowledged; the completion request is in flight.
    Completing,
    /// The object was finalized under its key.
    Completed,
    /// A failure occurred; the abort request is in flight.
    Aborting,
    /// The session was explicitly aborted; no object appears.
    Aborted,
    /// The session ended without completion and without a clean abort.
    Failed,
}

/// The outcome of the last piece of outside work, fed back by the driver.
pub enum Event {
    /// Begin the session.
    Start,
    /// The create call returned an upload identifier.
    InitOk,
    /// The create call failed; nothing was opened, nothing to abort.
    InitFailed,
    /// The current part upload returned its integrity tag.
    PartOk { etag: String },
    /// The current part upload failed; only transient failures may be retried.
    PartFailed { transient: bool },
    /// The completion call succeeded.
    CompleteOk,
    /// The completion call failed.
    CompleteFailed,
    /// The abort call succeeded.
    AbortOk,
    /// The abort call failed.
    AbortFailed,
}

/// The next piece of outside work the driver must perform.
#[derive(PartialEq, Eq, Structural, Clone, Copy, Debug)]
pub enum Action {
    /// Send the create request for the session.
    Initiate,
    /// Upload the part with this 1-based number.
    UploadPart { part_number: usize },
    /// Wait `delay_ms` milliseconds, then upload the part again.
    RetryPart { part_number: usize, delay_ms: u64 },
    /// Submit the completion manifest.
    Complete,
    /// Abort the session so no incomplete upload lingers.
    Abort,
    /// Nothing more to do: the session is finished.
    Halt,
}

/// One entry of the completion manifest: a part number and the
/// integrity tag the service returned for that part.
pub struct PartTag {
    /// 1-based part number.
    pub part_number: usize,
    /// Opaque integrity tag returned by the service.
    pub etag: String,
}

/// A completion manifest is well-formed when entry `i` carries part
/// number `i + 1`: tags are recorded in part order with no gaps.
pub open spec fn manifest_wf(parts: Seq<PartTag>) -> bool {
    forall|i: int| 0 <= i < parts.len() ==> (#[trigger] parts[i]).part_number == i + 1
}

/// Law: in a well-formed completion manifest the part numbers are the
/// contiguous sequence 1..K: they start at one, each entry succeeds
/// the one before it, every number lies within 1..K, and none repeats.
pub proof fn lemma_manifest_part_numbers(parts: Seq<PartTag>)
    requires
        manifest_wf(parts),
    ensures
        parts.len() > 0 ==> parts[0].part_number == 1,
        forall|i: int|
            0 <= i < parts.len() - 1 ==> (#[trigger] parts[i]).part_number + 1 == parts[
                i + 1
            ].part_number,
        forall|i: int| 0 <= i < parts.len() ==> 1 <= (#[trigger] parts[i]).part_number <= parts.len(),
        forall|i: int, j: int|
            0 <= i < j < parts.len() ==> (#[trigger] parts[i]).part_number != (
            #[trigger] parts[j]).part_number,
{
}

/// Milliseconds to wait before retry attempt `attempt` (1-based) of a
/// part upload: the delay doubles with each attempt.
pub open spec fn spec_backoff_ms(attempt: int) -> int {
    if attempt <= 1 {
        200
    } else if attempt == 2 {
        400
    } else {
        800
    }
}

/// Backoff delay before retry attempt `attempt` (1-based) of a part.
pub fn backoff_ms(attempt: u32) -> (r: u64)
    ensures
        r as int == spec_backoff_ms(attempt as int),
{
    if attempt <= 1 {
        200
    } else if attempt == 2 {
        400
    } else {
        800
    }
}

/// The phase-level transition relation of the session state machine:
/// which phase may follow which, on which event. Part outcomes leave
/// the choice between staying in flight and moving on, since that
/// choice depends on the collected tags and the retry budget.
pub open spec fn phase_next(pre: Phase, ev: Event, post: Phase) -> bool {
    match (pre, ev) {
        (Phase::Idle, Event::Start) => post == Phase::Initiated,
        (Phase::Initiated, Event::InitOk) => post == Phase::PartsInFlight,
        (Phase::Initiated, Event::InitFailed) => post == Phase::Failed,
        (Phase::PartsInFlight, Event::PartOk { .. }) => post == Phase::PartsInFlight || post
            == Phase::Completing,
        (Phase::PartsInFlight, Event::PartFailed { .. }) => post == Phase::PartsInFlight || post
            == Phase::Aborting,
        (Phase::Completing, Event::CompleteOk) => post == Phase::Completed,
        (Phase::Completing, Event::CompleteFailed) => post == Phase::Aborting,
        (Phase::Aborting, Event::AbortOk) => post == Phase::Aborted,
        (Phase::Aborting, Event::AbortFailed) => post == Phase::Failed,
        _ => false,
    }
}

/// A phase from which the upload can no longer be completed.
pub open spec fn spec_abandoned(p: Phase) -> bool {
    p == Phase::Aborting || p == Phase::Aborted || p == Phase::Failed
}

/// Law: once a session is aborting, aborted or failed, no sequence of
/// further events can reach the completed phase: the object never
/// appears under the destination key.
pub proof fn lemma_no_completion_after_abort(phases: Seq<Phase>, events: Seq<Event>)
    requires
        phases.len() == events.len() + 1,
        spec_abandoned(phases[0]),
        forall|i: int| 0 <= i < events.len() ==> phase_next(phases[i], events[i], phases[i + 1]),
    ensures
        forall|i: int| 0 <= i < phases.len() ==> spec_abandoned(#[trigger] phases[i]),
        forall|i: int| 0 <= i < phases.len() ==> #[trigger] phases[i] != Phase::Completed,
    decreases events.len(),
{
    if events.len() > 0 {
        let ptail = phases.drop_first();
        let etail = events.drop_first();
        assert(phase_next(phases[0], events[0], phases[1]));
        assert(spec_abandoned(ptail[0]));
        assert forall|i: int| 0 <= i < etail.len() implies phase_next(
            ptail[i],
            etail[i],
            ptail[i + 1],
        ) by {
            assert(phase_next(phases[i + 1], events[i + 1], phases[i + 2]));
        }
        lemma_no_completion_after_abort(ptail, etail);
        assert forall|i: int| 0 <= i < phases.len() implies spec_abandoned(
            #[trigger] phases[i],
        ) by {
            if i >= 1 {
                assert(spec_abandoned(ptail[i - 1]));
            }
        }
    }
}

/// One multipart upload session: the part count of its plan, its
/// protocol phase, the retry budget of the part in flight, and the
/// completion manifest collected so far.
pub struct Session {
    /// Protocol phase.
    pub phase: Phase,
    /// Number of parts the plan holds.
    pub part_count: usize,
    /// Retries left for the part currently in flight.
    pub retries_left: u32,
    /// Tags acknowledged so far, one per finished part, in part order.
    pub manifest: Vec<PartTag>,
}

impl Session {
    /// Internal invariant: the manifest is well-formed and its length
    /// agrees with the phase.
    pub open spec fn wf(self) -> bool {
        &&& self.part_count >= 1
        &&& manifest_wf(self.manifest@)
        &&& self.manifest@.len() <= self.part_count
        &&& self.retries_left <= MAX_PART_RETRIES
        &&& (self.phase == Phase::Idle ==> self.manifest@.len() == 0)
        &&& (self.phase == Phase::Initiated ==> self.manifest@.len() == 0)
        &&& (self.phase == Phase::PartsInFlight ==> self.manifest@.len() < self.part_count)
        &&& (self.phase == Phase::Completing || self.phase == Phase::Completed
            ==> self.manifest@.len() == self.part_count)
    }

    /// Which events the session can take in its current phase.
    pub open spec fn accepts(self, ev: Event) -> bool {
        match ev {
            Event::Start => self.phase == Phase::Idle,
            Event::InitOk => self.phase == Phase::Initiated,
            Event::InitFailed => self.phase == Phase::Initiated,
            Event::PartOk { .. } => self.phase == Phase::PartsInFlight,
            Event::PartFailed { .. } => self.phase == Phase::PartsInFlight,
            Event::CompleteOk => self.phase == Phase::Completing,
            Event::CompleteFailed => self.phase == Phase::Completing,
            Event::AbortOk => self.phase == Phase::Aborting,
            Event::AbortFailed => self.phase == Phase::Aborting,
        }
    }

    /// A fresh session for a plan with `part_count` parts.
    pub fn new(part_count: usize) -> (s: Session)
        requires
            part_count >= 1,
        ensures
            s.wf(),
            s.phase == Phase::Idle,
            s.part_count == part_count,
            s.manifest@.len() == 0,
    {
        Session {
            phase: Phase::Idle,
            part_count,
            retries_left: MAX_PART_RETRIES,
            manifest: Vec::new(),
        }
    }

    /// Feed one event into the session; the returned action is the
    /// next piece of outside work the driver must perform.
    ///
    /// A part failure that is permanent, or transient with the retry
    /// budget exhausted, moves the session to the aborting phase and
    /// demands an explicit abort call. Completion is requested only
    /// once the manifest holds a tag for every part.
    pub fn step(&mut self, ev: Event) -> (a: Action)
        requires
            old(self).wf(),
            old(self).accepts(ev),
        ensures
            final(self).wf(),
            final(self).part_count == old(self).part_count,
            phase_next(old(self).phase, ev, final(self).phase),
            a == Action::Complete ==> final(self).manifest@.len() == final(self).part_count,
            final(self).phase == Phase::Completed ==> final(self).manifest@.len() == final(self).part_count,
            ev is Start ==> final(self).phase == Phase::Initiated && a == Action::Initiate
                && final(self).manifest@ == old(self).manifest@,
            ev is InitOk ==> final(self).phase == Phase::PartsInFlight && a
                == (Action::UploadPart { part_number: 1 }) && final(self).manifest@ == old(self).manifest@ && final(self).retries_left == MAX_PART_RETRIES,
            ev is InitFailed ==> final(self).phase == Phase::Failed && a == Action::Halt && final(self).manifest@ == old(self).manifest@,
            ev matches Event::PartOk { etag } ==> final(self).manifest@ == old(self).manifest@.push(
                (PartTag { part_number: (old(self).manifest@.len() + 1) as usize, etag }),
            ) && final(self).retries_left == MAX_PART_RETRIES && (if old(self).manifest@.len() + 1
                < old(self).part_count {
                final(self).phase == Phase::PartsInFlight && a == (Action::UploadPart {
                    part_number: (old(self).manifest@.len() + 2) as usize,
                })
            } else {
                final(self).phase == Phase::Completing && a == Action::Complete
            }),
            ev matches Event::PartFailed { transient } ==> final(self).manifest@ == old(self).manifest@ && (if transient && old(self).retries_left > 0 {
                final(self).phase == Phase::PartsInFlight && final(self).retries_left == old(self).retries_left - 1 && a == (Action::RetryPart {
                    part_number: (old(self).manifest@.len() + 1) as usize,
                    delay_ms: spec_backoff_ms(
                        MAX_PART_RETRIES - old(self).retries_left + 1,
                    ) as u64,
                })
            } else {
                final(self).phase == Phase::Aborting && a == Action::Abort
            }),
            ev is CompleteOk ==> final(self).phase == Phase::Completed && a == Action::Halt
                && final(self).manifest@ == old(self).manifest@,
            ev is CompleteFailed ==> final(self).phase == Phase::Aborting && a == Action::Abort
                && final(self).manifest@ == old(self).manifest@,
            ev is AbortOk ==> final(self).phase == Phase::Aborted && a == Action::Halt && final(self).manifest@ == old(self).manifest@,
            ev is AbortFailed ==> final(self).phase == Phase::Failed && a == Action::Halt && final(self).manifest@ == old(self).manifest@,
    {
        match ev {
            Event::Start => {
                self.phase = Phase::Initiated;
                Action::Initiate
            },
            Event::InitOk => {
                self.phase = Phase::PartsInFlight;
                self.retries_left = MAX_PART_RETRIES;
                Action::UploadPart { part_number: 1 }
            },
            Event::InitFailed => {
                self.phase = Phase::Failed;
                Action::Halt
            },
            Event::PartOk { etag } => {
                let done = self.manifest.len();
                self.manifest.push(PartTag { part_number: done + 1, etag });
                self.retries_left = MAX_PART_RETRIES;
                if done + 1 < self.part_count {
                    Action::UploadPart { part_number: done + 2 }
                } else {
                    self.phase = Phase::Completing;
                    Action::Complete
                }
            },
            Event::PartFailed { transient } => {
                if transient && self.retries_left > 0 {
                    let attempt = MAX_PART_RETRIES - self.retries_left + 1;
                    self.retries_left = self.retries_left - 1;
                    Action::RetryPart {
                        part_number: self.manifest.len() + 1,
                        delay_ms: backoff_ms(attempt),
                    }
                } else {
                    self.phase = Phase::Aborting;
                    Action::Abort
                }
            },
            Event::CompleteOk => {
                self.phase = Phase::Completed;
                Action::Halt
            },
            Event::CompleteFailed => {
                self.phase = Phase::Aborting;
                Action::Abort
            },
            Event::AbortOk => {
                self.phase = Phase::Aborted;
                Action::Halt
            },
            Event::AbortFailed => {
                self.phase = Phase::Failed;
                Action::Halt
            },
        }
    }
}

} // verus!
