//! Verified core of a chat companion application: prompt templates and their
//! variables, text normalization, streaming decoding, run bookkeeping and
//! the deterministic helpers of the lorebook and memory pipelines.
use vstd::prelude::*;

pub mod abort_manager;
pub mod adapters;
pub mod companion;
pub mod creation;
pub mod custom_adapters;
pub mod dynamic_memory_run_manager;
pub mod fields;
pub mod images;
pub mod json;
pub mod keys;
pub mod lorebook_entry;
pub mod logging;
pub mod messages;
pub mod lorebook_pipeline;
pub mod memory;
pub mod memory_tools;
pub mod parameter_engine;
pub mod prompt_templates;
pub mod prompt_types;
pub mod request;
pub mod response;
pub mod serde_utils;
pub mod sse;
pub mod temporal;
pub mod xml_fallback;
pub mod usage;
pub mod text;
pub mod tool_fields;

verus! {

} // verus!
