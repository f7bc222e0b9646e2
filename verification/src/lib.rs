use vstd::prelude::*;
pub mod text;
pub mod subtitles;
pub mod excel;
pub mod rag;
pub mod router;
pub mod chat;
pub mod security;
pub mod queue;
pub mod json;
pub mod diagnostics;
pub mod agent;
pub mod tasks;
pub mod upscale;
pub mod models;
pub mod memory;
pub mod language;
pub mod habits;
pub mod documents;
pub mod engine;
pub mod pipeline;
pub mod stamps;
pub mod voice;
pub mod installer;
pub mod logs;
pub mod paths;

verus! {
} // verus!
