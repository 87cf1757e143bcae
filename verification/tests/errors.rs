use murundiri::config::ConfigParseError;
use murundiri::proxy::{ForwardError, ProxyError};
use murundiri::utils::text::decimal_text;

#[test]
fn numbers_are_written_in_decimal() {
    assert_eq!(decimal_text(0), "0");
    assert_eq!(decimal_text(7), "7");
    assert_eq!(decimal_text(10), "10");
    assert_eq!(decimal_text(1234567890), "1234567890");
    assert_eq!(decimal_text(usize::MAX), usize::MAX.to_string());
}

#[test]
fn config_errors_describe_themselves() {
    assert_eq!(
        ConfigParseError::ReadError("No such file or directory (os error 2)".to_string())
            .message(),
        "The following error occured while reading config file: No such file or directory (os error 2)"
    );
    assert_eq!(
        ConfigParseError::InvalidSyntax {
            location: Some((12, 7)),
            message: "unknown field `rule`".to_string()
        }
        .message(),
        "Invalid syntax at line: 12 col: 7 with error: unknown field `rule`"
    );
    assert_eq!(
        ConfigParseError::InvalidSyntax { location: None, message: "EOF".to_string() }.message(),
        "EOF"
    );
    assert_eq!(ConfigParseError::InvalidRegexRule.message(), "Invalid regex rule");
}

#[test]
fn proxy_errors_describe_themselves() {
    assert_eq!(
        ProxyError::ForwardHeaderError.message(),
        "Error occurred when forwarding the header to the destination"
    );
    assert_eq!(ProxyError::NoFreePort.message(), "All system ports are exhausted");
    assert_eq!(
        ProxyError::InvalidIp("1.2.3".to_string()).message(),
        "Invalid IP Address: 1.2.3"
    );
    assert_eq!(
        ProxyError::CacheError("broken pipe".to_string()).message(),
        "Redis error: broken pipe"
    );
    assert_eq!(
        ProxyError::RedisConnectionPoolError("timed out".to_string()).message(),
        "Redis error: timed out"
    );
    assert_eq!(ProxyError::InvalidUri("empty".to_string()).message(), "Invalid Uri: empty");
    assert_eq!(
        ProxyError::HyperError("closed".to_string()).message(),
        "Server error occured: closed"
    );
    assert_eq!(
        ProxyError::InvalidSocketAddress("x:1".to_string()).message(),
        "Invalid address provided x:1"
    );
    assert_eq!(
        ProxyError::ConfigParseError(ConfigParseError::InvalidRegexRule).message(),
        "Invalid regex rule"
    );
}

#[test]
fn errors_convert_into_proxy_errors() {
    assert_eq!(
        ProxyError::from(ConfigParseError::InvalidRegexRule),
        ProxyError::ConfigParseError(ConfigParseError::InvalidRegexRule)
    );
    assert_eq!(
        ProxyError::from(ForwardError::InvalidUri("u".to_string())),
        ProxyError::InvalidUri("u".to_string())
    );
    assert_eq!(
        ProxyError::from(ForwardError::HyperError("h".to_string())),
        ProxyError::HyperError("h".to_string())
    );
    assert_eq!(ProxyError::from(ForwardError::ForwardHeaderError), ProxyError::ForwardHeaderError);
}
