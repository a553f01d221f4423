//! Watches a submission site for new items, drops those already seen or
//! carrying an excluded tag, and plans their delivery to every destination.
//!
//! The logic here is verified: extracting identifiers and records from markup,
//! the exclusion filter, the deduplication pass, the delivery plan and the
//! retry decisions of the dispatcher. Fetching pages, talking to the store and
//! sending messages are left to the caller, which hands the results back in.
pub mod config;
pub mod markup;
pub mod submission;
pub mod filter;
pub mod dedup;
pub mod delivery;
pub mod dispatch;

pub use config::{AppConfiguration, ConfigKey};
pub use markup::{parse_id, parse_proto_ids, ids_from_attrs};
pub use submission::{SubmissionData, MalformedDetail, build_submission, parse_submission_text};
pub use filter::{is_blacklisted, same_folded};
pub use dedup::take_if_unseen;
pub use delivery::{Delivery, Payload, delivery_plan, join_tags, take_detail};
pub use dispatch::{DispatchStep, Dispatcher, RetryPolicy, SendOutcome, POLL_INTERVAL_MS, RETRY_DELAY_MS};
