//! Verified building blocks for the drbot assistant: small data structures,
//! design-pattern helpers, parsers for MIME types and magic bytes, text
//! normalizers and metering primitives, each with a machine-checked contract.

pub mod min_max;
pub mod nonzero;
pub mod mem_util;
pub mod null_object;
pub(crate) mod json;
pub(crate) mod ids;
pub(crate) mod clock;
mod text;
pub mod chars;
pub mod pairs;
pub mod memento;
pub mod mock;
pub mod keyed;
pub mod multimap;
pub mod media;
pub mod mime;
pub mod meter;
pub mod metrics;
pub mod normalize;
pub mod memo;
pub mod mediator;
pub mod observable;
pub mod nlcmd;
pub mod message;
pub mod mobile;
pub mod msteams;
pub mod notification;
pub mod mcp;
pub mod memory;
pub mod oauth;
pub mod memory_graph;
pub mod mesh;
pub mod multiagent;
pub mod meetai;
pub mod middleware;
pub mod multimodal;
pub mod layered;
pub mod longterm;
pub mod executor;
