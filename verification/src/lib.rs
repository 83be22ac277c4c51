//! Verified core of a graphical login greeter.
//!
//! The backend of the greeter brokers an authentication conversation between
//! a user interface and a session daemon. Its decisions are taken here, by a
//! state machine with a transition function and laws proved of it; reading,
//! writing and waiting are left to the program around it.
//!
//! - [`machine`] defines the conversation as a state machine, [`engine`] runs
//!   it, and [`laws`] states what holds of every run.
//! - [`greetd`] classifies and words the failures of the daemon, [`frame`]
//!   frames its messages and overwrites secrets, [`protocol`] holds the
//!   messages of the user interface, [`phase`] the phases and their order.
//! - [`launch`] works out what a session is launched with, [`env`] keeps its
//!   environment, [`settings`] the configuration of the backend, [`state`]
//!   the record of the last selection, [`power`] what becomes of power actions.
//! - [`config`], [`desktop`], [`launcher`], [`palette`] and [`logdir`] hold
//!   the rules of the launcher and of the tools beside it.
//! - [`text`] holds the operations on text that all of them rest on.

pub mod config;
pub mod desktop;
pub mod engine;
pub mod env;
pub mod frame;
pub mod greetd;
pub mod launch;
pub mod launcher;
pub mod laws;
pub mod logdir;
pub mod machine;
pub mod palette;
pub mod phase;
pub mod power;
pub mod protocol;
pub mod settings;
pub mod state;
pub mod text;
