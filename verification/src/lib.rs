//! The core of an agent chat panel, verified: the transcript of a
//! conversation and its byte budget, the events that update it, the resource
//! pool and the input box context, per-session queues and operation
//! generations, the session list and transcript cache, and the application
//! settings with their normalisation rules.
use vstd::prelude::*;

pub mod acp_flow;
pub mod text;
pub mod settings;
pub mod fonts;
pub mod budget;
pub mod cards;
pub mod events;
pub mod transcript_model;
pub mod transcript;
pub mod transcript_laws;
pub mod history_laws;
pub mod message_text;
pub mod composer;
pub mod resources;
pub mod session_cache;
pub mod prompt;
pub mod sessions;
pub mod text_order;
pub mod composer_context;
pub mod operations;
pub mod pending;
pub mod proxy_url;

verus! {

} // verus!
