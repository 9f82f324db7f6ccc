//! A small state container. Events are applied to one state value through a
//! reducer, strictly in the order in which they were dispatched. Effects that
//! take time are described as data: the store counts them as in flight when
//! they start, and applies the events they produced when they complete.
//!
//! - [`store`]: the store, the trait of the states it can hold, and the
//!   store that also keeps a change flag.
//! - [`history`]: what holds of every sequence of operations on a store.
//! - [`app_state`]: the state and the events of the application.
//! - [`app`]: what the application does with key presses and clicks.
//! - [`ports`]: the choice of a MIDI input port.

pub mod app;
pub mod app_state;
pub mod history;
pub mod ports;
pub mod store;
