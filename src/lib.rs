//! Query-resolution core of a "what shipped this" developer tool: input
//! classification, tag and release selection, cache fetch bookkeeping and the
//! commit / pull request / issue / release resolution steps.

pub mod text;
pub mod input;
pub mod changelog;
pub mod semver;
pub mod links;
pub mod commit;
pub mod tags;
pub mod fetch_state;
pub mod timeline;
pub mod errors;
pub mod resolve;
pub mod backend_choice;
pub mod repo_manager;
