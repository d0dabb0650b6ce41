use danmaku_machine::timer::{TimerAction, TimerEvent, TimerState};

#[test]
fn interval_print() {
    let mut timer = TimerState::new();
    let mut counter = 0;
    for _ in 0..4 {
        if timer.step(TimerEvent::Elapsed) == TimerAction::Fire {
            counter += 1;
        }
    }
    assert_eq!(4, counter);
}

#[test]
fn timer_stops_for_good() {
    let mut timer = TimerState::new();
    assert!(timer.running);
    assert_eq!(timer.step(TimerEvent::Elapsed), TimerAction::Fire);
    assert!(timer.running);
    assert_eq!(timer.step(TimerEvent::Stopped), TimerAction::Exit);
    assert!(!timer.running);
    assert_eq!(timer.step(TimerEvent::Elapsed), TimerAction::Exit);
    assert!(!timer.running);
}

#[test]
fn timer_stopped_at_once_never_fires() {
    let mut timer = TimerState::new();
    assert_eq!(timer.step(TimerEvent::Stopped), TimerAction::Exit);
    assert_eq!(timer.step(TimerEvent::Elapsed), TimerAction::Exit);
}
