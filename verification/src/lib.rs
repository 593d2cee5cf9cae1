//! Safety bridge between a host's fixed game-plugin calling convention and an
//! implementer's game logic.
//!
//! The bridge owns everything that crosses the boundary: bounded output
//! buffers for variable-length results ([`ptr_vec`]), a typed error channel
//! per instance, the capacity contract a game declares at creation, the
//! per-instance state envelope with one entry point per host operation, and
//! the dispatch-table description handed to the host.  A reference
//! subtraction game exercises the whole bridge.

pub mod error;
pub mod game;
pub mod instance;
pub mod nim;
pub mod ptr_vec;
pub mod sizer;
pub mod table;

pub use ptr_vec::PtrVec;
