//! Mock gRPC clients whose answers are verified: which response a request gets, with which
//! headers, and after which delay.

pub mod client_mock;
