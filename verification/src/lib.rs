//! Global input listener: translates raw OS input events into normalized
//! device events and publishes them, exactly once per process, to a single
//! downstream subscriber.

pub mod event;
pub mod listener;
pub mod setup;
pub mod sink;
pub mod translate;
