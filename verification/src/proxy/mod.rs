//! From a request to a decision: fingerprint, cache protocol, response.

pub mod cache;
pub mod errors;
pub mod fingerprint;
pub mod resolver;

pub use errors::{ForwardError, ProxyError};
pub use fingerprint::RequestFields;
pub use resolver::{Resolver, Response, RouteStep, RuleStep};
