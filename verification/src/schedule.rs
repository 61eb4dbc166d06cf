//! The cadence of polling: one device after another, a short pause behind
//! each, a long pause behind the last, and a halt at the first failure.
//!
//! The poller itself fetches and sleeps; what it does next is decided here,
//! from where it stands and what became of its last step.

use vstd::prelude::*;

verus! {

/// The pause behind each device, in seconds.
pub const DEVICE_PAUSE_SECONDS: u64 = 1;

/// The pause behind a full cycle, in seconds.
pub const CYCLE_PAUSE_SECONDS: u64 = 60;

/// Where the poller stands.
#[derive(Clone, Copy, Debug, PartialEq, Eq, Structural)]
pub enum Phase {
    /// Nothing was done yet.
    Idle,
    /// The device at this place in the list is being fetched.
    Fetching { device: usize },
    /// The pause behind the device at this place is being taken.
    Resting { device: usize },
    /// The pause behind a full cycle is being taken.
    Waiting,
    /// A step failed: nothing more is done.
    Halted,
}

/// What became of the poller's last step.
#[derive(Clone, Copy, Debug, PartialEq, Eq, Structural)]
pub enum Event {
    /// The step was carried out.
    Done,
    /// The step failed.
    Failed,
}

/// What the poller does next.
#[derive(Clone, Copy, Debug, PartialEq, Eq, Structural)]
pub enum Action {
    /// Fetch the device at this place in the list, and emit its readings.
    Fetch { device: usize },
    /// Sleep for so many seconds.
    Sleep { seconds: u64 },
    /// Stop polling.
    Halt,
}

/// The start of a cycle over `devices` devices: the first device, or the long
/// pause where there is none.
pub open spec fn cycle_start(devices: usize) -> (Phase, Action) {
    if devices == 0 {
        (Phase::Waiting, Action::Sleep { seconds: CYCLE_PAUSE_SECONDS })
    } else {
        (Phase::Fetching { device: 0 }, Action::Fetch { device: 0 })
    }
}

/// The next phase and the step to take, for a list of `devices` devices.
///
/// A failure halts the poller, and a halted poller stays halted. Otherwise a
/// cycle starts with the first device; behind each device comes the short
/// pause; behind the short pause comes the next device, or the long pause
/// when there is no next one; behind the long pause a new cycle starts.
pub open spec fn next_step(devices: usize, phase: Phase, event: Event) -> (Phase, Action) {
    if event == Event::Failed {
        (Phase::Halted, Action::Halt)
    } else {
        match phase {
            Phase::Halted => (Phase::Halted, Action::Halt),
            Phase::Idle => cycle_start(devices),
            Phase::Waiting => cycle_start(devices),
            Phase::Fetching { device } => (
                Phase::Resting { device },
                Action::Sleep { seconds: DEVICE_PAUSE_SECONDS },
            ),
            Phase::Resting { device } => if device + 1 < devices {
                (
                    Phase::Fetching { device: (device + 1) as usize },
                    Action::Fetch { device: (device + 1) as usize },
                )
            } else {
                (Phase::Waiting, Action::Sleep { seconds: CYCLE_PAUSE_SECONDS })
            },
        }
    }
}

/// The next phase and the step to take, for a list of `devices` devices.
pub fn advance(devices: usize, phase: Phase, event: Event) -> (r: (Phase, Action))
    ensures
        r == next_step(devices, phase, event),
        r.1 matches Action::Fetch { device } ==> device < devices,
{
    match event {
        Event::Failed => (Phase::Halted, Action::Halt),
        Event::Done => match phase {
            Phase::Halted => (Phase::Halted, Action::Halt),
            Phase::Idle | Phase::Waiting => {
                if devices == 0 {
                    (Phase::Waiting, Action::Sleep { seconds: CYCLE_PAUSE_SECONDS })
                } else {
                    (Phase::Fetching { device: 0 }, Action::Fetch { device: 0 })
                }
            },
            Phase::Fetching { device } => (
                Phase::Resting { device },
                Action::Sleep { seconds: DEVICE_PAUSE_SECONDS },
            ),
            Phase::Resting { device } => {
                if device < devices && device + 1 < devices {
                    (Phase::Fetching { device: device + 1 }, Action::Fetch { device: device + 1 })
                } else {
                    (Phase::Waiting, Action::Sleep { seconds: CYCLE_PAUSE_SECONDS })
                }
            },
        },
    }
}

/// No two devices are fetched without a pause between them: a fetch is
/// always followed by the short pause, and only a pause, or the start, is
/// followed by a fetch.
pub proof fn fetches_are_spaced(devices: usize, phase: Phase, event: Event)
    ensures
        phase is Fetching && event == Event::Done ==> next_step(devices, phase, event).1
            == (Action::Sleep { seconds: DEVICE_PAUSE_SECONDS }),
        next_step(devices, phase, event).1 is Fetch ==> !(phase is Fetching),
{
}

/// The first failure stops the poller for good.
pub proof fn a_failure_halts(devices: usize, phase: Phase, event: Event)
    ensures
        next_step(devices, phase, Event::Failed) == (Phase::Halted, Action::Halt),
        next_step(devices, Phase::Halted, event) == (Phase::Halted, Action::Halt),
{
}

/// The devices are fetched in the order of the list, none left out: behind
/// the pause of one device comes the next one, and behind that of the last
/// the long pause.
pub proof fn devices_are_fetched_in_order(devices: usize, device: usize)
    requires
        device < devices,
    ensures
        device + 1 < devices ==> next_step(devices, Phase::Resting { device }, Event::Done).1
            == (Action::Fetch { device: (device + 1) as usize }),
        device + 1 == devices ==> next_step(devices, Phase::Resting { device }, Event::Done)
            == (Phase::Waiting, Action::Sleep { seconds: CYCLE_PAUSE_SECONDS }),
        next_step(devices, Phase::Waiting, Event::Done).1 == (Action::Fetch { device: 0 }),
{
}

} // verus!
