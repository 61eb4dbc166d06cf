use solis_metrics::schedule::{
    advance, Action, Event, Phase, CYCLE_PAUSE_SECONDS, DEVICE_PAUSE_SECONDS,
};

#[test]
fn a_cycle_fetches_every_device_with_a_pause_behind_each() {
    assert_eq!(DEVICE_PAUSE_SECONDS, 1);
    assert_eq!(CYCLE_PAUSE_SECONDS, 60);
    let mut phase = Phase::Idle;
    let mut actions = Vec::new();
    for _ in 0..14 {
        let (next, action) = advance(3, phase, Event::Done);
        phase = next;
        actions.push(action);
    }
    let cycle = vec![
        Action::Fetch { device: 0 },
        Action::Sleep { seconds: 1 },
        Action::Fetch { device: 1 },
        Action::Sleep { seconds: 1 },
        Action::Fetch { device: 2 },
        Action::Sleep { seconds: 1 },
        Action::Sleep { seconds: 60 },
    ];
    assert_eq!(actions[..7], cycle[..]);
    assert_eq!(actions[7..], cycle[..]);
}

#[test]
fn a_list_without_devices_only_waits() {
    let (phase, action) = advance(0, Phase::Idle, Event::Done);
    assert_eq!((phase, action), (Phase::Waiting, Action::Sleep { seconds: 60 }));
    assert_eq!(advance(0, phase, Event::Done), (Phase::Waiting, Action::Sleep { seconds: 60 }));
}

#[test]
fn the_first_failure_stops_the_poller() {
    for phase in [
        Phase::Idle,
        Phase::Fetching { device: 1 },
        Phase::Resting { device: 1 },
        Phase::Waiting,
        Phase::Halted,
    ] {
        assert_eq!(advance(3, phase, Event::Failed), (Phase::Halted, Action::Halt));
    }
    assert_eq!(advance(3, Phase::Halted, Event::Done), (Phase::Halted, Action::Halt));
}

#[test]
fn a_place_outside_the_list_ends_the_cycle() {
    assert_eq!(
        advance(3, Phase::Resting { device: 7 }, Event::Done),
        (Phase::Waiting, Action::Sleep { seconds: 60 })
    );
    assert_eq!(
        advance(3, Phase::Resting { device: usize::MAX }, Event::Done),
        (Phase::Waiting, Action::Sleep { seconds: 60 })
    );
}
