//! The background update checker as a state machine. After a 30 second
//! start delay it checks for a release, downloads it (three attempts, 30 s
//! and 60 s apart), and otherwise checks again every 24 hours; a failure
//! stays visible for 60 seconds. It honors cancellation at every wait, waits
//! while a manual check runs, and stops once an update is found.
//!
//! The caller performs what each step asks (sleep, check, download, status
//! changes) and feeds back what it observed.
use vstd::prelude::*;

verus! {

/// What the update widget shows.
#[derive(Clone, Debug, PartialEq, Eq)]
pub enum UpdateStatus {
    Idle,
    Checking,
    Downloading { version: String, progress: u32 },
    Ready { version: String, path: String },
    ReadyToRestart { version: String },
    Installing { version: String },
    BrewUpdate { version: String },
    Failed { error: String },
}

/// A release newer than the running app.
#[derive(Clone, Debug, PartialEq, Eq)]
pub struct Release {
    pub version: String,
    pub asset_url: String,
    pub asset_name: String,
    pub checksum_url: Option<String>,
}

impl Release {
    pub fn duplicate(&self) -> (r: Release)
        ensures
            r == *self,
    {
        Release {
            version: self.version.clone(),
            asset_url: self.asset_url.clone(),
            asset_name: self.asset_name.clone(),
            checksum_url: match &self.checksum_url {
                Some(c) => Some(c.clone()),
                None => None,
            },
        }
    }
}

/// Shared state read when the checker resumes.
#[derive(Clone, Copy, Debug, PartialEq, Eq, Structural)]
pub struct Observation {
    /// The checker's run was cancelled.
    pub cancelled: bool,
    /// A manual check is running.
    pub manual_active: bool,
    /// The status already offers an update (ready, ready to restart,
    /// installing, or a Homebrew update).
    pub update_found: bool,
    /// The status is `Failed`.
    pub failed: bool,
    /// The app was installed with Homebrew.
    pub homebrew: bool,
}

impl UpdateStatus {
    /// Whether the status already offers an update: ready, ready to restart,
    /// installing, or a Homebrew update.
    pub open spec fn offers_update(&self) -> bool {
        ||| self is Ready
        ||| self is ReadyToRestart
        ||| self is Installing
        ||| self is BrewUpdate
    }

    /// Whether the status already offers an update.
    pub fn update_found(&self) -> (r: bool)
        ensures
            r == self.offers_update(),
    {
        match self {
            UpdateStatus::Ready { .. } | UpdateStatus::ReadyToRestart { .. } | UpdateStatus::Installing { .. }
            | UpdateStatus::BrewUpdate { .. } => true,
            _ => false,
        }
    }

    /// Whether the status is `Failed`.
    pub fn is_failed(&self) -> (r: bool)
        ensures
            r == (self is Failed),
    {
        match self {
            UpdateStatus::Failed { .. } => true,
            _ => false,
        }
    }
}

impl Observation {
    /// What the checker sees on resuming, given the shared flags and the
    /// current status.
    pub fn of(cancelled: bool, manual_active: bool, homebrew: bool, status: &UpdateStatus) -> (r: Observation)
        ensures
            r == (Observation {
                cancelled,
                manual_active,
                update_found: status.offers_update(),
                failed: status is Failed,
                homebrew,
            }),
    {
        Observation {
            cancelled,
            manual_active,
            update_found: status.update_found(),
            failed: status.is_failed(),
            homebrew,
        }
    }
}

/// What finished before the checker resumed.
#[derive(Debug, PartialEq, Eq)]
pub enum Outcome {
    /// The requested sleep elapsed.
    Slept,
    /// The release check answered: a newer release, none, or an error.
    Checked(Result<Option<Release>, String>),
    /// The download finished: the downloaded file, or an error.
    Downloaded(Result<String, String>),
}

/// Where the checker waits.
#[derive(Clone, Debug, PartialEq, Eq)]
pub enum CheckerState {
    /// In the start delay, `slept` of 30 seconds done.
    InitialDelay { slept: u32 },
    /// Waiting (a second at a time) for a manual check to end.
    ManualWait,
    /// Waiting for the release check.
    Checking,
    /// Waiting for download attempt `attempt` (0, 1 or 2) of `release`.
    Downloading { release: Release, attempt: u32 },
    /// Before download attempt `attempt`, `waited` seconds of its delay done.
    Backoff { release: Release, attempt: u32, waited: u64 },
    /// Keeping a failure visible, `slept` of 60 seconds done.
    FailedHold { slept: u32 },
    /// Between daily checks, `slept` of 1440 minutes done.
    DailyWait { slept: u32 },
    /// Finished.
    Stopped,
}

/// A change the checker asks for.
#[derive(Clone, Debug, PartialEq, Eq)]
pub enum Effect {
    SetStatus(UpdateStatus),
    /// Redraw the widget.
    Notify,
    /// Record that this run stopped.
    MarkStopped,
}

/// What the checker waits for next.
#[derive(Clone, Debug, PartialEq, Eq)]
pub enum Wait {
    Sleep { secs: u64 },
    CheckForUpdate,
    Download { release: Release },
    Done,
}

/// One step: the effects to apply, in order, then what to wait for.
#[derive(Clone, Debug, PartialEq, Eq)]
pub struct Step {
    pub effects: Vec<Effect>,
    pub wait: Wait,
    pub next: CheckerState,
}

/// Seconds to wait before download attempt `attempt` (1 or 2): 30, then 60.
pub open spec fn backoff_secs(attempt: u32) -> u64 {
    if attempt >= 1 {
        (30 * pow2((attempt - 1) as nat)) as u64
    } else {
        0
    }
}

pub open spec fn pow2(n: nat) -> nat
    decreases n,
{
    if n == 0 {
        1
    } else {
        2 * pow2((n - 1) as nat)
    }
}

/// The step in spec form.
pub struct StepView {
    pub effects: Seq<Effect>,
    pub wait: Wait,
    pub next: CheckerState,
}

impl View for Step {
    type V = StepView;

    open spec fn view(&self) -> StepView {
        StepView { effects: self.effects@, wait: self.wait, next: self.next }
    }
}

pub open spec fn stop(effects: Seq<Effect>) -> StepView {
    StepView { effects: effects.push(Effect::MarkStopped), wait: Wait::Done, next: CheckerState::Stopped }
}

/// The top of the checking loop, after the cancellation check: wait for a
/// manual check, stop when an update is already found, else start a check.
pub open spec fn after_manual(obs: Observation) -> StepView {
    if obs.manual_active {
        if obs.cancelled {
            stop(seq![])
        } else {
            StepView { effects: seq![], wait: Wait::Sleep { secs: 1 }, next: CheckerState::ManualWait }
        }
    } else if obs.update_found {
        stop(seq![])
    } else {
        StepView {
            effects: seq![Effect::SetStatus(UpdateStatus::Checking), Effect::Notify],
            wait: Wait::CheckForUpdate,
            next: CheckerState::Checking,
        }
    }
}

/// The top of the checking loop.
pub open spec fn loop_top(obs: Observation) -> StepView {
    if obs.cancelled {
        stop(seq![])
    } else {
        after_manual(obs)
    }
}

/// After a check or download settled with `effects`: hold a failure for
/// 60 seconds, then wait a day.
pub open spec fn after_attempts(effects: Seq<Effect>, failed: bool) -> StepView {
    if failed {
        StepView { effects, wait: Wait::Sleep { secs: 1 }, next: CheckerState::FailedHold { slept: 1 } }
    } else {
        StepView { effects, wait: Wait::Sleep { secs: 60 }, next: CheckerState::DailyWait { slept: 1 } }
    }
}

/// The step taken on resuming in `state` after `outcome`, having observed `obs`.
pub open spec fn spec_step(state: CheckerState, obs: Observation, outcome: Outcome) -> StepView {
    match state {
        CheckerState::Stopped => StepView { effects: seq![], wait: Wait::Done, next: CheckerState::Stopped },
        CheckerState::InitialDelay { slept } => if slept >= 30 {
            loop_top(obs)
        } else if obs.cancelled {
            stop(seq![])
        } else {
            StepView {
                effects: seq![],
                wait: Wait::Sleep { secs: 1 },
                next: CheckerState::InitialDelay { slept: (slept + 1) as u32 },
            }
        },
        CheckerState::ManualWait => after_manual(obs),
        CheckerState::Checking => match outcome {
            Outcome::Checked(Ok(Some(release))) => if obs.homebrew {
                stop(
                    seq![
                        Effect::SetStatus(UpdateStatus::BrewUpdate { version: release.version }),
                        Effect::Notify,
                    ],
                )
            } else if obs.cancelled {
                stop(seq![])
            } else {
                StepView {
                    effects: seq![
                        Effect::SetStatus(UpdateStatus::Downloading { version: release.version, progress: 0 }),
                        Effect::Notify,
                    ],
                    wait: Wait::Download { release },
                    next: CheckerState::Downloading { release, attempt: 0 },
                }
            },
            Outcome::Checked(Ok(None)) => after_attempts(
                seq![Effect::SetStatus(UpdateStatus::Idle), Effect::Notify],
                false,
            ),
            Outcome::Checked(Err(e)) => after_attempts(
                seq![Effect::SetStatus(UpdateStatus::Failed { error: e }), Effect::Notify],
                true,
            ),
            _ => StepView { effects: seq![], wait: Wait::CheckForUpdate, next: CheckerState::Checking },
        },
        CheckerState::Downloading { release, attempt } => match outcome {
            Outcome::Downloaded(Ok(path)) => stop(
                seq![
                    Effect::SetStatus(UpdateStatus::Ready { version: release.version, path }),
                    Effect::Notify,
                ],
            ),
            Outcome::Downloaded(Err(e)) => if obs.cancelled {
                stop(seq![])
            } else if attempt < 2 {
                StepView {
                    effects: seq![],
                    wait: Wait::Sleep { secs: 1 },
                    next: CheckerState::Backoff { release, attempt: (attempt + 1) as u32, waited: 1 },
                }
            } else {
                after_attempts(seq![Effect::SetStatus(UpdateStatus::Failed { error: e }), Effect::Notify], true)
            },
            _ => StepView {
                effects: seq![],
                wait: Wait::Download { release },
                next: CheckerState::Downloading { release, attempt },
            },
        },
        CheckerState::Backoff { release, attempt, waited } => if waited >= backoff_secs(attempt) {
            StepView {
                effects: seq![
                    Effect::SetStatus(UpdateStatus::Downloading { version: release.version, progress: 0 }),
                    Effect::Notify,
                ],
                wait: Wait::Download { release },
                next: CheckerState::Downloading { release, attempt },
            }
        } else if obs.cancelled {
            stop(seq![])
        } else {
            StepView {
                effects: seq![],
                wait: Wait::Sleep { secs: 1 },
                next: CheckerState::Backoff { release, attempt, waited: (waited + 1) as u64 },
            }
        },
        CheckerState::FailedHold { slept } => if slept >= 60 {
            StepView {
                effects: if obs.failed {
                    seq![Effect::SetStatus(UpdateStatus::Idle), Effect::Notify]
                } else {
                    seq![]
                },
                wait: Wait::Sleep { secs: 60 },
                next: CheckerState::DailyWait { slept: 1 },
            }
        } else if obs.cancelled {
            stop(seq![])
        } else {
            StepView {
                effects: seq![],
                wait: Wait::Sleep { secs: 1 },
                next: CheckerState::FailedHold { slept: (slept + 1) as u32 },
            }
        },
        CheckerState::DailyWait { slept } => if slept >= 1440 {
            loop_top(obs)
        } else if obs.cancelled {
            stop(seq![])
        } else {
            StepView {
                effects: seq![],
                wait: Wait::Sleep { secs: 60 },
                next: CheckerState::DailyWait { slept: (slept + 1) as u32 },
            }
        },
    }
}

/// How a run starts: a cancelled run stops at once, else the start delay
/// begins.
pub open spec fn spec_start(obs: Observation) -> StepView {
    if obs.cancelled {
        stop(seq![])
    } else {
        StepView { effects: seq![], wait: Wait::Sleep { secs: 1 }, next: CheckerState::InitialDelay { slept: 1 } }
    }
}

/// Starts a checker run (the start delay's first second).
pub fn start(obs: Observation) -> (r: Step)
    ensures
        r@ == spec_start(obs),
{
    if obs.cancelled {
        return stop_after(Vec::new());
    }
    Step { effects: Vec::new(), wait: Wait::Sleep { secs: 1 }, next: CheckerState::InitialDelay { slept: 1 } }
}

fn stop_after(effects: Vec<Effect>) -> (r: Step)
    ensures
        r@ == stop(effects@),
{
    let mut effects = effects;
    effects.push(Effect::MarkStopped);
    Step { effects, wait: Wait::Done, next: CheckerState::Stopped }
}

fn after_manual_exec(obs: Observation) -> (r: Step)
    ensures
        r@ == after_manual(obs),
{
    if obs.manual_active {
        if obs.cancelled {
            return stop_after(Vec::new());
        }
        return Step { effects: Vec::new(), wait: Wait::Sleep { secs: 1 }, next: CheckerState::ManualWait };
    }
    if obs.update_found {
        return stop_after(Vec::new());
    }
    Step {
        effects: vec![Effect::SetStatus(UpdateStatus::Checking), Effect::Notify],
        wait: Wait::CheckForUpdate,
        next: CheckerState::Checking,
    }
}

fn loop_top_exec(obs: Observation) -> (r: Step)
    ensures
        r@ == loop_top(obs),
{
    if obs.cancelled {
        return stop_after(Vec::new());
    }
    after_manual_exec(obs)
}

fn after_attempts_exec(effects: Vec<Effect>, failed: bool) -> (r: Step)
    ensures
        r@ == after_attempts(effects@, failed),
{
    if failed {
        Step { effects, wait: Wait::Sleep { secs: 1 }, next: CheckerState::FailedHold { slept: 1 } }
    } else {
        Step { effects, wait: Wait::Sleep { secs: 60 }, next: CheckerState::DailyWait { slept: 1 } }
    }
}

fn backoff_exec(attempt: u32) -> (s: u64)
    requires
        attempt <= 2,
    ensures
        s == backoff_secs(attempt),
{
    proof {
        reveal_with_fuel(pow2, 3);
    }
    if attempt == 0 {
        0
    } else if attempt == 1 {
        30
    } else {
        60
    }
}

/// Whether `state` can occur: download attempts are 0, 1 or 2.
pub open spec fn valid_state(state: CheckerState) -> bool {
    match state {
        CheckerState::Downloading { attempt, .. } => attempt <= 2,
        CheckerState::Backoff { attempt, .. } => 1 <= attempt <= 2,
        _ => true,
    }
}

/// Resumes the checker in `state` after `outcome`, having observed `obs`.
pub fn step(state: CheckerState, obs: Observation, outcome: Outcome) -> (r: Step)
    requires
        valid_state(state),
    ensures
        r@ == spec_step(state, obs, outcome),
        valid_state(r.next),
{
    match state {
        CheckerState::Stopped => Step { effects: Vec::new(), wait: Wait::Done, next: CheckerState::Stopped },
        CheckerState::InitialDelay { slept } => {
            if slept >= 30 {
                loop_top_exec(obs)
            } else if obs.cancelled {
                stop_after(Vec::new())
            } else {
                Step { effects: Vec::new(), wait: Wait::Sleep { secs: 1 }, next: CheckerState::InitialDelay { slept: slept + 1 } }
            }
        },
        CheckerState::ManualWait => after_manual_exec(obs),
        CheckerState::Checking => match outcome {
            Outcome::Checked(Ok(Some(release))) => {
                if obs.homebrew {
                    let version = release.version.clone();
                    stop_after(vec![Effect::SetStatus(UpdateStatus::BrewUpdate { version }), Effect::Notify])
                } else if obs.cancelled {
                    stop_after(Vec::new())
                } else {
                    let version = release.version.clone();
                    let wait_release = release.duplicate();
                    Step {
                        effects: vec![Effect::SetStatus(UpdateStatus::Downloading { version, progress: 0 }), Effect::Notify],
                        wait: Wait::Download { release: wait_release },
                        next: CheckerState::Downloading { release, attempt: 0 },
                    }
                }
            },
            Outcome::Checked(Ok(None)) => after_attempts_exec(
                vec![Effect::SetStatus(UpdateStatus::Idle), Effect::Notify],
                false,
            ),
            Outcome::Checked(Err(e)) => after_attempts_exec(
                vec![Effect::SetStatus(UpdateStatus::Failed { error: e }), Effect::Notify],
                true,
            ),
            _ => Step { effects: Vec::new(), wait: Wait::CheckForUpdate, next: CheckerState::Checking },
        },
        CheckerState::Downloading { release, attempt } => match outcome {
            Outcome::Downloaded(Ok(path)) => {
                let version = release.version.clone();
                stop_after(vec![Effect::SetStatus(UpdateStatus::Ready { version, path }), Effect::Notify])
            },
            Outcome::Downloaded(Err(e)) => {
                if obs.cancelled {
                    stop_after(Vec::new())
                } else if attempt < 2 {
                    Step {
                        effects: Vec::new(),
                        wait: Wait::Sleep { secs: 1 },
                        next: CheckerState::Backoff { release, attempt: attempt + 1, waited: 1 },
                    }
                } else {
                    after_attempts_exec(vec![Effect::SetStatus(UpdateStatus::Failed { error: e }), Effect::Notify], true)
                }
            },
            _ => {
                let wait_release = release.duplicate();
                Step { effects: Vec::new(), wait: Wait::Download { release: wait_release }, next: CheckerState::Downloading { release, attempt } }
            },
        },
        CheckerState::Backoff { release, attempt, waited } => {
            if waited >= backoff_exec(attempt) {
                let version = release.version.clone();
                let wait_release = release.duplicate();
                Step {
                    effects: vec![Effect::SetStatus(UpdateStatus::Downloading { version, progress: 0 }), Effect::Notify],
                    wait: Wait::Download { release: wait_release },
                    next: CheckerState::Downloading { release, attempt },
                }
            } else if obs.cancelled {
                stop_after(Vec::new())
            } else {
                Step { effects: Vec::new(), wait: Wait::Sleep { secs: 1 }, next: CheckerState::Backoff { release, attempt, waited: waited + 1 } }
            }
        },
        CheckerState::FailedHold { slept } => {
            if slept >= 60 {
                let effects = if obs.failed {
                    vec![Effect::SetStatus(UpdateStatus::Idle), Effect::Notify]
                } else {
                    Vec::new()
                };
                Step { effects, wait: Wait::Sleep { secs: 60 }, next: CheckerState::DailyWait { slept: 1 } }
            } else if obs.cancelled {
                stop_after(Vec::new())
            } else {
                Step { effects: Vec::new(), wait: Wait::Sleep { secs: 1 }, next: CheckerState::FailedHold { slept: slept + 1 } }
            }
        },
        CheckerState::DailyWait { slept } => {
            if slept >= 1440 {
                loop_top_exec(obs)
            } else if obs.cancelled {
                stop_after(Vec::new())
            } else {
                Step { effects: Vec::new(), wait: Wait::Sleep { secs: 60 }, next: CheckerState::DailyWait { slept: slept + 1 } }
            }
        },
    }
}

/// A stopped checker stays stopped and does nothing.
pub proof fn law_stopped_is_final(obs: Observation, outcome: Outcome)
    ensures
        spec_step(CheckerState::Stopped, obs, outcome) == (StepView {
            effects: seq![],
            wait: Wait::Done,
            next: CheckerState::Stopped,
        }),
{
}

/// A cancelled run stops at its next wait: resuming from any sleep with the
/// run cancelled records the stop and does nothing else, unless the wait
/// just ended and a pending manual check is all that remains.
pub proof fn law_cancel_stops_sleeps(state: CheckerState, obs: Observation)
    requires
        obs.cancelled,
        !obs.manual_active,
        state is InitialDelay || state is ManualWait || state is Backoff || state is FailedHold || state is DailyWait,
        state is Backoff ==> state->waited < backoff_secs(state->Backoff_attempt),
        state is FailedHold ==> state->FailedHold_slept < 60,
    ensures
        spec_step(state, obs, Outcome::Slept) == stop(seq![]) || (state is ManualWait && !obs.update_found
            && spec_step(state, obs, Outcome::Slept).wait == Wait::CheckForUpdate),
{
}

/// A release found on a Homebrew install is reported, never downloaded.
pub proof fn law_homebrew_never_downloads(obs: Observation, release: Release)
    requires
        obs.homebrew,
    ensures
        spec_step(CheckerState::Checking, obs, Outcome::Checked(Ok(Some(release)))).wait == Wait::Done,
        spec_step(CheckerState::Checking, obs, Outcome::Checked(Ok(Some(release)))).effects[0]
            == Effect::SetStatus(UpdateStatus::BrewUpdate { version: release.version }),
{
}

/// A failed download is retried after 30 seconds, then after 60, and after
/// the third failure the error is shown.
pub proof fn law_download_retries(obs: Observation, release: Release, e: String)
    requires
        !obs.cancelled,
    ensures
        spec_step(
            CheckerState::Downloading { release, attempt: 0 },
            obs,
            Outcome::Downloaded(Err(e)),
        ).next == (CheckerState::Backoff { release, attempt: 1, waited: 1 }),
        backoff_secs(1) == 30,
        spec_step(
            CheckerState::Downloading { release, attempt: 1 },
            obs,
            Outcome::Downloaded(Err(e)),
        ).next == (CheckerState::Backoff { release, attempt: 2, waited: 1 }),
        backoff_secs(2) == 60,
        spec_step(CheckerState::Downloading { release, attempt: 2 }, obs, Outcome::Downloaded(Err(e))).effects
            == seq![Effect::SetStatus(UpdateStatus::Failed { error: e }), Effect::Notify],
{
    reveal_with_fuel(pow2, 3);
}

} // verus!
