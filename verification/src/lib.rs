//! Native-process shell logic for a single-document image editor: launch
//! argument resolution, a pending-file handoff registry, a sandboxed
//! file-access policy, and window-geometry persistence.

pub mod digits;
pub mod guard;
pub mod launch;
pub mod paths;
pub mod probe;
pub mod registry;
pub mod state_codec;
pub mod text;
pub mod window_state;
