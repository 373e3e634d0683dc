//! Event-dispatch core of a Wayland windowing event loop.
//!
//! The loop owns the application's single logical turn of execution: it
//! computes how long to wait, classifies why the wait ended, and delivers one
//! iteration of callbacks to the application in a fixed phase order.  Native
//! readiness polling, the connection and the helper thread live outside this
//! crate; they feed the loop through the notification methods of
//! [`state::WinitState`] and the entry points of [`event_loop::EventLoop`].
//!
//! The modules, leaf first:
//!
//! - [`time`], [`control`]: timeouts, the control-flow policy, the cause of
//!   an iteration, exit codes.
//! - [`event`], [`sink`], [`window`]: events, the event buffer, the record
//!   kept of each window.
//! - [`model`], [`well_formed`], [`laws`]: the state as mathematics, its
//!   invariant, and what every operation keeps.
//! - [`state`]: the state itself.
//! - [`proxy`], [`notifier`]: the wake-up signal and the handshake with the
//!   helper thread.
//! - [`request`]: what an application may ask of the windows while it is
//!   called; the loop carries the requests out itself.
//! - [`application`], [`trace`], [`script`], [`walk`], [`event_loop`]: the
//!   application's callbacks, the record of what was delivered, the
//!   iteration as a program over that record, what every iteration keeps,
//!   and the driver.

pub mod application;
pub mod control;
pub mod event;
pub mod event_loop;
pub mod laws;
pub mod model;
pub mod notifier;
pub mod proxy;
pub mod request;
pub mod script;
pub mod sink;
pub mod state;
pub mod time;
pub mod trace;
pub mod walk;
pub mod well_formed;
pub mod window;
