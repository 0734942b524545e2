//! Typed metric descriptors and collections, a time-windowed refresh policy
//! for cached collections, and an encoder for the plaintext exposition format.

pub mod encoder;
pub mod error;
pub mod metrics;
pub mod polling;
pub mod utils;

pub use encoder::TextEncoder;
pub use error::PrometheusError;
pub use metrics::{Metric, MetricCollection, MetricCollectionMut, MetricDescriptor, MetricDescriptorBuilder, MetricLabel, MetricType, MetricValue};
pub use polling::{concat_collections, PollingState};
pub use utils::{is_valid_ident, write_escaped_string};
