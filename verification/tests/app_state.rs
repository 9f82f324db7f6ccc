use midi::app_state::{AppEvent, AppState, AsyncAppEvent, DELAY_MILLIS};
use midi::store::Slice;

#[test]
fn default_state_is_zero() {
    assert_eq!(AppState::default().midi, 0);
}

#[test]
fn initialize_sets_sixty_nine() {
    let mut state = AppState { midi: -3 };
    AppState::reducer(&mut state, AppEvent::Initialize);
    assert_eq!(state.midi, 69);
}

#[test]
fn add_number_adds() {
    let mut state = AppState { midi: 69 };
    AppState::reducer(&mut state, AppEvent::AddNumber(1));
    assert_eq!(state.midi, 70);
    AppState::reducer(&mut state, AppEvent::AddNumber(-1));
    assert_eq!(state.midi, 69);
    AppState::reducer(&mut state, AppEvent::AddNumber(-100));
    assert_eq!(state.midi, -31);
}

#[test]
fn add_number_wraps_at_the_upper_end() {
    let mut state = AppState { midi: i32::MAX };
    AppState::reducer(&mut state, AppEvent::AddNumber(1));
    assert_eq!(state.midi, i32::MIN);
}

#[test]
fn add_number_wraps_at_the_lower_end() {
    let mut state = AppState { midi: i32::MIN };
    AppState::reducer(&mut state, AppEvent::AddNumber(-1));
    assert_eq!(state.midi, i32::MAX);
    let mut state = AppState { midi: -2_000_000_000 };
    AppState::reducer(&mut state, AppEvent::AddNumber(-2_000_000_000));
    assert_eq!(state.midi, 294_967_296);
}

#[test]
fn delayed_addition_waits_a_second_and_then_adds() {
    let effect = AppState::async_reducer(AsyncAppEvent::DelayAddNumber(-5));
    assert_eq!(effect.delay_millis, 1000);
    assert_eq!(DELAY_MILLIS, 1000);
    assert_eq!(effect.events.len(), 1);
    assert!(matches!(effect.events[0], AppEvent::AddNumber(-5)));
}

#[test]
fn clones_equal_what_they_were_made_from() {
    let state = AppState { midi: 12 };
    assert_eq!(state.clone().midi, 12);
    assert!(matches!(AppEvent::Initialize.clone(), AppEvent::Initialize));
    assert!(matches!(AppEvent::AddNumber(4).clone(), AppEvent::AddNumber(4)));
    assert!(matches!(
        AsyncAppEvent::DelayAddNumber(-4).clone(),
        AsyncAppEvent::DelayAddNumber(-4)
    ));
}

#[test]
fn state_and_events_print_for_debugging() {
    assert_eq!(format!("{:?}", AppState { midi: 3 }), "AppState { midi: 3 }");
    assert_eq!(format!("{:?}", AppEvent::AddNumber(3)), "AddNumber(3)");
    assert_eq!(format!("{:?}", AppEvent::Initialize), "Initialize");
    assert_eq!(format!("{:?}", AsyncAppEvent::DelayAddNumber(1)), "DelayAddNumber(1)");
}
