use vstd::prelude::*;

use crate::app_state::{AppEvent, AppState, AsyncAppEvent};
use crate::store::{Effect, Slice, Store as StoreBase, StoreModel};

verus! {

type Store = StoreBase<AppState>;

/// The keys that the application tells apart.
pub enum VirtualKeyCode {
    Up,
    Down,
    Other,
}

/// A key press, as far as the application reads it.
pub struct KeyboardInput {
    /// The key, where the platform could name it.
    pub virtual_keycode: Option<VirtualKeyCode>,
}

/// What the user clicked in one frame.
pub struct Clicks {
    /// The button that adds one.
    pub add_one: bool,
    /// The button that subtracts one after a delay.
    pub sub_one_delayed: bool,
}

/// The application: what it showed last.
pub struct App {
    last_state: AppState,
}

/// What a frame asks of the event loop.
pub enum AppResponse {
    Redraw,
    Nothing,
}

/// The event that a key press stands for, if any.
pub open spec fn key_event(event: KeyboardInput) -> Option<AppEvent> {
    match event.virtual_keycode {
        Some(VirtualKeyCode::Up) => Some(AppEvent::AddNumber(1)),
        Some(VirtualKeyCode::Down) => Some(AppEvent::AddNumber(-1i32)),
        _ => None,
    }
}

/// The store after the clicks of one frame: first the addition, then the
/// start of the delayed subtraction.
pub open spec fn after_clicks(store: StoreModel<AppState>, clicks: Clicks) -> StoreModel<AppState> {
    let added = if clicks.add_one {
        store.dispatched(AppEvent::AddNumber(1))
    } else {
        store
    };
    if clicks.sub_one_delayed {
        added.started()
    } else {
        added
    }
}

/// Whether the event loop has to draw again without waiting for input:
/// while work is in flight, or when the last frame asked for it.
pub fn needs_redraw(is_working: bool, response: &AppResponse) -> (redraw: bool)
    ensures
        redraw == (is_working || response is Redraw),
{
    is_working || matches!(response, AppResponse::Redraw)
}

impl App {
    /// The state that was current when the last frame was drawn.
    pub closed spec fn last_state(&self) -> AppState {
        self.last_state
    }

    /// An application that has shown nothing yet.
    pub fn new() -> (app: Self)
        ensures
            app.last_state() == (AppState { midi: 0 }),
    {
        App { last_state: AppState::default() }
    }

    /// Dispatches the event that a key press stands for: up adds one, down
    /// subtracts one, any other key does nothing.
    pub fn handle_key_event(&mut self, store: &mut Store, event: KeyboardInput)
        ensures
            final(self).last_state() == old(self).last_state(),
            final(store)@.has_changes == old(store)@.has_changes,
            final(store)@.store == (match key_event(event) {
                Some(e) => old(store)@.store.dispatched(e),
                None => old(store)@.store,
            }),
    {
        match event.virtual_keycode {
            Some(VirtualKeyCode::Up) => store.dispatch(AppEvent::AddNumber(1)),
            Some(VirtualKeyCode::Down) => store.dispatch(AppEvent::AddNumber(-1)),
            _ => (),
        }
    }

    /// One frame: dispatches what the clicks ask for, and remembers the
    /// state that the frame showed, which is the state before the clicks.
    /// Returns the effect of a delayed subtraction for the caller to run.
    pub fn render(&mut self, store: &mut Store, clicks: Clicks) -> (out: (
        AppResponse,
        Option<Effect<AppEvent>>,
    ))
        requires
            clicks.sub_one_delayed ==> old(store)@.store.in_flight < i32::MAX,
        ensures
            final(self).last_state() == old(store)@.store.state,
            final(store)@.store == after_clicks(old(store)@.store, clicks),
            final(store)@.has_changes == old(store)@.has_changes,
            out.0 is Nothing,
            clicks.sub_one_delayed ==> out.1 is Some && out.1.unwrap()@ == AppState::effect(
                AsyncAppEvent::DelayAddNumber(-1i32),
            ),
            !clicks.sub_one_delayed ==> out.1 is None,
    {
        let state = store.get_state();
        if clicks.add_one {
            store.dispatch(AppEvent::AddNumber(1));
        }
        let effect = if clicks.sub_one_delayed {
            Some(store.dispatch_async(AsyncAppEvent::DelayAddNumber(-1)))
        } else {
            None
        };
        self.last_state = state;
        (AppResponse::Nothing, effect)
    }
}

} // verus!
