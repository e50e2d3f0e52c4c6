//! A durable, priority-aware job-queue backend for a JetStream-style broker.
//!
//! The crate holds the storage adapter's logic: the job envelope and its wire
//! codec, the names of streams, subjects and consumers, the plans that
//! provision streams and consumers, the producer's publish plan, the strict
//! priority fetch loop, the acknowledgement state machine with dead-letter
//! routing, and the progress heartbeat that keeps long handlers visible.
//! Broker I/O itself stays outside; every decision the adapter makes is
//! specified and proved here.

pub mod ack;
pub mod clock;
pub mod codec;
pub mod config;
pub mod dedup;
pub mod dlq;
pub mod errors;
pub mod fetch;
pub mod heartbeat;
pub mod json;
pub mod names;
pub mod plans;
pub mod priority;
pub mod producer;
pub mod queries;

pub use ack::{AckAction, DeliveryState, Outcome};
pub use codec::{EnvelopeModel, JobEnvelope};
pub use config::Config;
pub use dlq::{DlqEnvelope, DlqModel, DlqReason};
pub use errors::NatsPollError;
pub use fetch::{FetchAction, FetchState};
pub use heartbeat::{ProgressHeartbeatLayer, ProgressHeartbeatService};
pub use plans::{ConsumerPlan, StreamPlan};
pub use priority::Priority;
pub use producer::{PushPlan, TraceContext};
pub use queries::{NatsQueueInfo, Stat};
