//! A request/response middleware pipeline for edge-style HTTP handlers.

pub mod http;
pub mod laws;
pub mod rack;
pub mod stages;

pub use http::{Request, RequestData, Response, ResponseData};
pub use rack::{FastRack, Middleware, RackError, RunError, MAX_RETRIES};
pub use stages::{AlwaysRetry, RetryRequest, Stage, Stamp, SyntheticOnResponse, SyntheticResponse};
