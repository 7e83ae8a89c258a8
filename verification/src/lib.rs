//! Verified core of the cursor2api Console: HTTP head handling, secret redaction,
//! request summaries, release checks, setup views and the Bridge runtime state.

pub mod text;
pub mod redact;
pub mod http_head;
pub mod records;
pub mod release;
pub mod setup;
pub mod path_search;
pub mod sidecar;
pub mod stores;
pub mod runtime;
pub mod console;
pub mod pack;
