use vstd::prelude::*;

use crate::store::{Effect, EffectView, Slice};

verus! {

/// How long a delayed addition waits, in milliseconds.
pub const DELAY_MILLIS: u64 = 1000;

/// The state of the application.
#[derive(Debug)]
pub struct AppState {
    pub midi: i32,
}

impl Clone for AppState {
    fn clone(&self) -> (state: AppState)
        ensures
            state == *self,
    {
        AppState { midi: self.midi }
    }
}

impl Default for AppState {
    fn default() -> (state: AppState)
        ensures
            state.midi == 0,
    {
        AppState { midi: 0 }
    }
}

/// Events to the application state.
#[derive(Debug)]
pub enum AppEvent {
    Initialize,
    AddNumber(i32),
}

impl Clone for AppEvent {
    fn clone(&self) -> (event: AppEvent)
        ensures
            event == *self,
    {
        match self {
            AppEvent::Initialize => AppEvent::Initialize,
            AppEvent::AddNumber(num) => AppEvent::AddNumber(*num),
        }
    }
}

/// Events whose effect takes time.
#[derive(Debug)]
pub enum AsyncAppEvent {
    DelayAddNumber(i32),
}

impl Clone for AsyncAppEvent {
    fn clone(&self) -> (event: AsyncAppEvent)
        ensures
            event == *self,
    {
        match self {
            AsyncAppEvent::DelayAddNumber(num) => AsyncAppEvent::DelayAddNumber(*num),
        }
    }
}

/// The sum of `a` and `b` in 32-bit two's complement: the mathematical sum
/// where it fits, else the sum brought back into range by 2^32.
pub open spec fn wrapped_sum(a: i32, b: i32) -> i32 {
    if a + b > i32::MAX {
        (a + b - 0x1_0000_0000) as i32
    } else if a + b < i32::MIN {
        (a + b + 0x1_0000_0000) as i32
    } else {
        (a + b) as i32
    }
}

impl Slice for AppState {
    type Event = AppEvent;

    type AsyncEvent = AsyncAppEvent;

    open spec fn reduce(state: Self, event: Self::Event) -> Self {
        match event {
            AppEvent::Initialize => AppState { midi: 69 },
            AppEvent::AddNumber(num) => AppState { midi: wrapped_sum(state.midi, num) },
        }
    }

    open spec fn effect(event: Self::AsyncEvent) -> EffectView<Self::Event> {
        match event {
            AsyncAppEvent::DelayAddNumber(num) => EffectView {
                delay_millis: DELAY_MILLIS,
                events: seq![AppEvent::AddNumber(num)],
            },
        }
    }

    /// `Initialize` sets the number to 69; `AddNumber` adds to it, wrapping
    /// round at the ends of the 32-bit range.
    fn reducer(state: &mut Self, event: Self::Event) {
        match event {
            AppEvent::Initialize => {
                state.midi = 69;
            },
            AppEvent::AddNumber(num) => {
                state.midi = state.midi.wrapping_add(num);
            },
        }
    }

    /// `DelayAddNumber` waits a second and then adds its number.
    fn async_reducer(event: Self::AsyncEvent) -> (effect: Effect<Self::Event>) {
        match event {
            AsyncAppEvent::DelayAddNumber(num) => {
                let mut events: Vec<AppEvent> = Vec::new();
                events.push(AppEvent::AddNumber(num));
                Effect { delay_millis: DELAY_MILLIS, events }
            },
        }
    }

    proof fn clone_is_exact(a: Self, b: Self) {
    }
}

} // verus!
