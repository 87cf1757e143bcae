//! The rule model and the table that maps path patterns to rules.

pub mod config;
pub mod constructs;
pub mod errors;
pub mod json;
pub mod url_regex;

pub use constructs::{
    concat_all, default_ttl, default_ttl_millis, texts, Rule, RuleAction, RuleActionView,
    RuleFields, RuleFieldsView, RuleView, Stringify,
};
pub use json::Json;
pub use errors::ConfigParseError;
pub use url_regex::UriRegex;
pub use config::{default_docker_client, default_ip, default_port, Config};
