//! # Client Mocking
//!
//! Utilities for mocking gRPC clients in tests. A [`MockableGrpcClient`] is configured with
//! responses for the methods of services, and answers requests without any gRPC call.
//!
//! - [`MockableGrpcClient`]: the mock client that handles requests
//! - [`MockResponseDefinition`]: a response or an error, with optional metadata and delay
//! - [`MockBuilder`]: configures the responses for one method
//! - [`GrpcClientExt`]: makes a client type from a mock
//! - [`BetterMockableGrpcClient`], [`BetterMockResponseDefinition`] and
//!   [`BetterMockBuilder`]: the same for answers that are whole response bodies
//!
//! Messages reach the library as bytes. What encodes and decodes them is handed over as
//! functions when a response is configured. A mock client does not wait: it says how long its
//! caller should. Nor does it lock: where others may hold it, it is handed over as the outcome
//! of an attempt to lock it.
//!
//! The contracts of the answers speak of the functions that they were configured with. An
//! answer is one of those that `dispatches` admits for the handlers of the client; the
//! functions whose names start with `law_` say what follows from that.

pub mod better;
pub mod client;
pub mod decimal;
pub mod dispatch;
pub mod handler;
pub mod headers;
pub mod response;
pub mod status;

pub use better::{BetterMockBuilder, BetterMockResponseDefinition, BetterMockableGrpcClient};
pub use client::{GrpcClientExt, MockBuilder, MockableGrpcClient};
pub use response::{response_delay, MockResponseDefinition};
pub use status::{Code, MockStatus};
