//! Decision logic of a resource fetcher: where a download goes, whether and
//! how it starts, how a response is classified, how streamed bytes are
//! accounted for, and how a bounded crawl admits and deduplicates URLs.
//!
//! Network, file-system and terminal work is left to the caller, which hands
//! plain values in and performs the actions handed back.

pub mod locator;
pub mod target;
pub mod transfer;
pub mod traversal;

pub use locator::{output_path, relative_path};
pub use transfer::{
    after_response, classify_response, is_html, is_success, range_header, start_decision, FetchConfig, FetchError,
    FetchOutcome, Next, ProgressEvent, RedirectPolicy, SinkMode, SkipReason, Start, Transfer, WritePlan,
};
pub use traversal::{Discovery, Job, Traversal};
pub use target::Target;
