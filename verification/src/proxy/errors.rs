use crate::config::errors::ConfigParseError;
use vstd::prelude::*;
use vstd::std_specs::convert::FromSpecImpl;
use vstd::string::*;

verus! {

/// Why a request could not be forwarded to its upstream.
#[derive(Debug, Clone, PartialEq, Eq)]
pub enum ForwardError {
    /// The target is no valid URI; the text says why.
    InvalidUri(String),
    /// The transport to the upstream failed; the text says why.
    HyperError(String),
    /// The request's headers could not be handed on.
    ForwardHeaderError,
}

/// Everything that can go wrong in the proxy, at startup or for one request.
#[derive(Debug, Clone, PartialEq, Eq)]
pub enum ProxyError {
    ForwardHeaderError,
    NoFreePort,
    InvalidIp(String),
    /// The cache store could not be reached or answered out of protocol.
    CacheError(String),
    InvalidUri(String),
    HyperError(String),
    InvalidSocketAddress(String),
    ConfigParseError(ConfigParseError),
    /// No connection to the cache store could be borrowed from the pool.
    RedisConnectionPoolError(String),
}

/// A failure of the upstream call as an error of the proxy: each kind keeps
/// its name and its text.
pub open spec fn from_forward(err: ForwardError) -> ProxyError {
    match err {
        ForwardError::InvalidUri(e) => ProxyError::InvalidUri(e),
        ForwardError::HyperError(e) => ProxyError::HyperError(e),
        ForwardError::ForwardHeaderError => ProxyError::ForwardHeaderError,
    }
}

impl From<ForwardError> for ProxyError {
    fn from(err: ForwardError) -> (mapped: Self) {
        match err {
            ForwardError::InvalidUri(e) => ProxyError::InvalidUri(e),
            ForwardError::HyperError(e) => ProxyError::HyperError(e),
            ForwardError::ForwardHeaderError => ProxyError::ForwardHeaderError,
        }
    }
}

impl FromSpecImpl<ForwardError> for ProxyError {
    open spec fn obeys_from_spec() -> bool {
        true
    }

    open spec fn from_spec(err: ForwardError) -> Self {
        from_forward(err)
    }
}

impl From<ConfigParseError> for ProxyError {
    fn from(err: ConfigParseError) -> (mapped: Self) {
        ProxyError::ConfigParseError(err)
    }
}

impl FromSpecImpl<ConfigParseError> for ProxyError {
    open spec fn obeys_from_spec() -> bool {
        true
    }

    open spec fn from_spec(err: ConfigParseError) -> Self {
        ProxyError::ConfigParseError(err)
    }
}

impl ProxyError {
    /// The message that describes this error.
    pub open spec fn message_text(&self) -> Seq<char> {
        match self {
            ProxyError::ConfigParseError(err) => err.message_text(),
            ProxyError::InvalidIp(ip) => "Invalid IP Address: "@ + ip@,
            ProxyError::RedisConnectionPoolError(err) => "Redis error: "@ + err@,
            ProxyError::CacheError(err) => "Redis error: "@ + err@,
            ProxyError::ForwardHeaderError => {
                "Error occurred when forwarding the header to the destination"@
            },
            ProxyError::InvalidUri(uri) => "Invalid Uri: "@ + uri@,
            ProxyError::HyperError(err) => "Server error occured: "@ + err@,
            ProxyError::InvalidSocketAddress(address) => "Invalid address provided "@ + address@,
            ProxyError::NoFreePort => "All system ports are exhausted"@,
        }
    }

    /// Writes out the message that describes this error.
    pub fn message(&self) -> (content: String)
        ensures
            content@ == self.message_text(),
    {
        match self {
            ProxyError::ConfigParseError(err) => err.message(),
            ProxyError::InvalidIp(ip) => String::from_str("Invalid IP Address: ").concat(
                ip.as_str(),
            ),
            ProxyError::RedisConnectionPoolError(err) => String::from_str("Redis error: ").concat(
                err.as_str(),
            ),
            ProxyError::CacheError(err) => String::from_str("Redis error: ").concat(err.as_str()),
            ProxyError::ForwardHeaderError => String::from_str(
                "Error occurred when forwarding the header to the destination",
            ),
            ProxyError::InvalidUri(uri) => String::from_str("Invalid Uri: ").concat(uri.as_str()),
            ProxyError::HyperError(err) => String::from_str("Server error occured: ").concat(
                err.as_str(),
            ),
            ProxyError::InvalidSocketAddress(address) => String::from_str(
                "Invalid address provided ",
            ).concat(address.as_str()),
            ProxyError::NoFreePort => String::from_str("All system ports are exhausted"),
        }
    }

    /// Whether the error arose while forwarding to an upstream.
    pub open spec fn is_forward_error(&self) -> bool {
        self is InvalidUri || self is HyperError || self is ForwardHeaderError
    }
}

} // verus!
