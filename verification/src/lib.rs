//! Work review: report block rendering and agent conversation memory.

pub mod text;
pub mod report_blocks;
pub mod report_render;
pub mod report_render_laws;
pub mod report_laws;
pub mod report_stability;
pub mod stats;
pub mod localize;
pub mod message;
pub mod memory;
pub mod memory_laws;
pub mod executor;
