//! An interactive wizard for composing a structured commit message.
//!
//! The library holds the verified core: subject validation, the step
//! navigation state machine, and the deterministic assembly of the final
//! message text. Terminal rendering, input polling, configuration files
//! and the commit command itself live outside the library and talk to it
//! through plain values.

pub mod assemble;
pub mod config;
pub mod nav;
pub mod state;
pub mod text;
pub mod validation;

pub use assemble::assemble_message;
pub use config::{config_ok, Config, MergeConfig};
pub use nav::{apply_event, classify_key, step_number};
pub use state::{state_ok, AppState, Event, Flow, Key, Step};
pub use text::trim_str;
pub use validation::{validate_subject, FailureReason};
