use vstd::prelude::*;

pub mod text;
pub mod power;
pub mod engine;
pub mod metrics;
pub mod tray;
pub mod autostart;
pub mod system;
pub mod logging;

verus! {
}
