//! Desktop activity collector: the decision logic behind observation, event
//! delivery and remote automation commands, with machine-checked contracts.

pub mod network;
pub mod command;
pub mod config;
pub mod detection;
pub mod event;
pub mod idle;
pub mod keys;
pub mod screenshot;
pub mod text;
pub mod uia;

pub use command::{execute_command, Command, CommandResult};
pub use config::Config;
pub use event::{build_activity_event, bstr_to_string, hwnd_to_hex, UiaElement, UiaSnapshot, WindowEvent};
pub use network::calculate_backoff;
pub use screenshot::{capture_screenshot, encode_raw_to_base64, init_screenshot_buffer};
pub use uia::allow_uia_snapshot;
