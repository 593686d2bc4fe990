//! Runtime layer of a robot-controller firmware stack.
//!
//! The heart of the crate is [`sync`]: locks, condition variables, barriers and
//! one-time initialisers for cooperatively scheduled tasks. Every primitive is an
//! explicit state machine. A task that has to wait is recorded in a waiter queue
//! under its [`sync::TaskId`]; an operation that frees a resource hands it to the
//! next waiter and reports which tasks the scheduler has to make ready.
//!
//! [`devices`] holds the decisions of the peripheral drivers (what a reading means,
//! which command a request turns into, which error a connection state gives),
//! [`display`] the layout of the error box that is drawn after a fatal failure,
//! [`graphics`] what a graphics toolkit needs of the brain.
pub mod devices;
pub mod display;
pub mod graphics;
pub mod sync;
