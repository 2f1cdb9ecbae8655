//! Verified navigation core for a vault of interlinked markdown notes.
//!
//! A vault is described by a manifest: a root note name, an author, and a
//! table associating note keys with content addresses. Notes are markdown
//! text containing `[[key|display]]` wikilinks. This crate provides the
//! wikilink extraction and splitting algorithm, the link resolver, and the
//! state machine that drives manifest and note loading; fetching and the
//! interactive surface live outside, driven by the actions this crate emits.

pub mod link;
pub mod machine;
pub mod render;
pub mod vault;
pub mod wikilink;

pub use link::ContentAddress;
pub use link::ParsedLink;
pub use link::ResolvedLink;
pub use link::split;
pub use vault::VaultDescriptor;
pub use vault::resolve;
pub use wikilink::LinkSpan;
pub use wikilink::extract;
pub use render::Segment;
pub use render::bind;
pub use machine::Action;
pub use machine::Event;
pub use machine::FailReason;
pub use machine::Machine;
pub use machine::NavState;
