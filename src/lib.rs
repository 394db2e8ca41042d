//! Learns five MIDI note codes, one per editor role, and then maps each
//! incoming note to the host action bound to the first role that learned it.

pub mod engine;
pub mod roles;
pub mod session;

pub use engine::{BindingEngine, Outcome, Phase, NOTE_OFF};
pub use roles::{HostAction, Role, ROLE_COUNT};
pub use session::{port_plan, select_port, PortPlan, SetupError};
