//! The desktop front end's logic: what the views show, and the state machine
//! that turns each message into the next state and the work to start.
pub mod diagnostics;
pub mod handlers;
pub mod helpers;
pub mod library_order;
pub mod message;
pub mod state;
pub mod tasks;
pub mod update;
