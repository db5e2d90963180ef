//! Which device a model runs on: the adapters of the machine, the plan that follows from them,
//! the status and figures that are reported, and how sessions are opened and fall back.
//!
//! Nothing here reads the machine. Whoever does hands in what was read, and every rule is a
//! function of that.

pub mod adapters;
pub mod gpu;
pub mod limits;
pub mod nvidia;
pub mod pci;
pub mod plan;
pub mod process;
pub mod session;
pub mod settings;
pub mod state;
pub mod status;
pub mod telemetry;
pub mod text;
