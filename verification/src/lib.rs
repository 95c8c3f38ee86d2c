//! Batch image-thumbnailing library: discovery filtering, fit-within resize
//! arithmetic, mirrored destination paths, the per-file transform pipeline,
//! and run reporting.
//!
//! Paths and diagnostic lines are modelled as byte strings (`Vec<u8>` with
//! `/` as the component separator), so every rule about them is stated over
//! `Seq<u8>` and proved.

pub mod config;
pub mod paths;
pub mod image_ops;
pub mod pipeline;
pub mod report;
pub mod resize;

pub use config::ArgumentError;
pub use config::Config;
pub use config::OutputFormat;
