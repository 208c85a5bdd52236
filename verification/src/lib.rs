//! eastStar: a GNOME-first screensaver. This library holds the verified core:
//! settings parsing and persistence format, the idle-monitor poll cache, the
//! lock fallback plan, the daemon and preferences-panel decision logic, and
//! the pipe-growth simulation behind the Pipes effect.

pub mod control_panel;
pub mod daemon;
pub mod lock;
pub mod panel;
pub mod pipes;
pub mod platform;
pub mod random;
pub mod saver;
pub mod settings;
pub mod text;
