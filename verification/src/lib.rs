//! Docket: a small bug tracker that keeps each bug as a Markdown file with a
//! YAML front matter and an append-only log of events.
pub mod text;
pub mod bug;
pub mod event;
pub mod order;
pub mod store;
pub mod workflow;
