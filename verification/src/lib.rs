//! Search a catalog of question papers by approximate name match and account
//! for the concurrent retrieval of every match.
//!
//! The crate holds the verified core of the tool: the record model and its
//! filename derivation, the fuzzy matcher over a decoded catalog, the outcome
//! messages a download task reports, and the bookkeeping that guarantees one
//! terminal outcome per started download. Network and terminal plumbing live
//! with the binary, which feeds plain values in and out of this crate.

pub mod coordinator;
pub mod matcher;
pub mod outcome;
pub mod paper;
pub mod text;

pub use coordinator::Batch;

pub use matcher::interpret_json;
pub use matcher::JsonField;
pub use matcher::JsonRecord;
pub use paper::Paper;
pub use text::sanitize_component;
pub use text::to_lowercase;
