//! Request construction and response interpretation for a client of a
//! time-tracking server that stores buckets of timestamped events.
pub mod client;
pub mod error;
pub mod response;
pub mod text;
pub mod time;

pub use client::{AwClient, Body, Bucket, BucketMetadata, Method, Request};
pub use error::ClientError;
pub use response::{check_status, checked_body, event_count, parse_count};
pub use text::{decimal, form_encode_str};
pub use time::{Timestamp, MAX_SECS, MIN_SECS};
