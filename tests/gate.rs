use gatekeeper::error::ErrorKind;
use gatekeeper::gate::{
    action_enables, parse_setting, setting_value, Domain, GateController, GateTransition,
};
use tokio::sync::broadcast::error::TryRecvError;

#[test]
fn write_then_read_same_caller() {
    let gate = GateController::new(false, false, 100);
    assert!(!gate.read(Domain::Voting));
    assert_eq!(gate.write(Domain::Voting, true, true), Ok(()));
    assert!(gate.read(Domain::Voting));
    assert!(!gate.read(Domain::Registration));
    assert_eq!(gate.write(Domain::Registration, true, true), Ok(()));
    assert!(gate.read(Domain::Registration));
    assert_eq!(gate.write(Domain::Voting, false, true), Ok(()));
    assert!(!gate.read(Domain::Voting));
}

#[test]
fn failed_persist_leaves_cache_and_subscribers_untouched() {
    let gate = GateController::new(false, true, 100);
    let mut rx = gate.subscribe();
    assert_eq!(gate.write(Domain::Voting, true, false), Err(ErrorKind::StoreUnavailable));
    assert!(!gate.read(Domain::Voting));
    assert!(gate.read(Domain::Registration));
    assert!(matches!(rx.try_recv(), Err(TryRecvError::Empty)));
}

#[test]
fn subscriber_sees_transitions_in_order() {
    let gate = GateController::new(false, false, 100);
    let mut rx = gate.subscribe();
    gate.write(Domain::Voting, true, true).unwrap();
    gate.write(Domain::Registration, true, true).unwrap();
    assert_eq!(rx.try_recv().unwrap(), GateTransition { domain: Domain::Voting, enabled: true });
    assert_eq!(
        rx.try_recv().unwrap(),
        GateTransition { domain: Domain::Registration, enabled: true }
    );
    assert!(matches!(rx.try_recv(), Err(TryRecvError::Empty)));
}

#[test]
fn slow_subscriber_still_observes_latest_value() {
    let gate = GateController::new(false, false, 4);
    let mut rx = gate.subscribe();
    for i in 0..50 {
        gate.write(Domain::Voting, i % 2 == 0, true).unwrap();
    }
    gate.write(Domain::Voting, true, true).unwrap();
    let mut lagged = false;
    let mut last = None;
    loop {
        match rx.try_recv() {
            Ok(t) => last = Some(t),
            Err(TryRecvError::Lagged(_)) => lagged = true,
            Err(_) => break,
        }
    }
    assert!(lagged);
    assert_eq!(last, Some(GateTransition { domain: Domain::Voting, enabled: true }));
    assert!(gate.read(Domain::Voting));
}

#[test]
fn subscriber_registered_late_misses_earlier_writes() {
    let gate = GateController::new(false, false, 100);
    gate.write(Domain::Voting, true, true).unwrap();
    let mut rx = gate.subscribe();
    assert!(matches!(rx.try_recv(), Err(TryRecvError::Empty)));
    gate.write(Domain::Voting, false, true).unwrap();
    assert_eq!(rx.try_recv().unwrap(), GateTransition { domain: Domain::Voting, enabled: false });
}

#[test]
fn settings_round_trip_through_text() {
    assert_eq!(setting_value(true), "true");
    assert_eq!(setting_value(false), "false");
    assert!(parse_setting(Some(&setting_value(true))));
    assert!(!parse_setting(Some(&setting_value(false))));
    assert!(!parse_setting(None));
    assert!(!parse_setting(Some("TRUE")));
    assert!(!parse_setting(Some("")));
}

#[test]
fn only_start_opens_the_gate() {
    assert!(action_enables("start"));
    assert!(!action_enables("stop"));
    assert!(!action_enables("Start"));
    assert!(!action_enables("start "));
    assert!(!action_enables(""));
}
