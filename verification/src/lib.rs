//! A partitioned, append-only log-streaming broker.
//!
//! Producers append records to the partitions of named topics; consumers read ranges
//! of records by offset. Brokers watch one another with a rotating-trusted failure
//! detector. Clients and brokers speak a binary protocol of tagged frames.
//!
//! - `wire`: big-endian numbers and length-prefixed strings, read and written.
//! - `communication`: requests and responses to and from their frames.
//! - `round_trip`: what is written reads back as it was.
//! - `storage`: topics, partitions and their logs.
//! - `detector`: the failure detector as a state machine.
//! - `endpoint`: the broker and its dispatcher.
//! - `history`: what a broker's answers say about its logs.
//! - `console`: lines typed by a person as requests.
//!
//! The library is sequential and does no input or output of its own. A broker that
//! serves several connections is shared behind a lock; what it has to send to other
//! brokers, and how long its failure detector has to wait, it hands to its caller.

pub mod communication;
pub mod console;
pub mod detector;
pub mod endpoint;
pub mod history;
pub mod round_trip;
pub mod storage;
pub mod types;
pub mod wire;

pub use crate::communication::{Action, ActionMessage, Response, ResponseMessage};
pub use crate::detector::{FailureDetector, Outbound, Round};
pub use crate::endpoint::{Broker, Controller, Reply, RequestError};
pub use crate::storage::{Cluster, Partition};
pub use crate::types::{BrokerInfo, Content, OffsetValue, TopicAddress};
