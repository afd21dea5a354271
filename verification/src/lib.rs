//! A typing-trainer core: a key-event reducer, a diff renderer that splits
//! typed text into correctness spans, and speed/accuracy metrics, all with
//! verified contracts.

pub mod metrics;
pub mod render;
pub mod session;
