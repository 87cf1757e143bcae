use crate::config::config::{first_match, Config};
use crate::config::constructs::{Rule, RuleAction, RuleActionView};
use crate::config::json::Json;
use crate::proxy::errors::{from_forward, ForwardError, ProxyError};
use crate::proxy::fingerprint;
use crate::proxy::fingerprint::{fingerprint, RequestFields};
use vstd::prelude::*;

verus! {

/// A response that the proxy makes itself: a status code, and a body that
/// may be missing.
#[derive(Debug, Clone, PartialEq, Eq)]
pub struct Response {
    pub status: u16,
    pub body: Option<String>,
}

/// A response as plain values.
pub ghost struct ResponseView {
    pub status: int,
    pub body: Option<Seq<char>>,
}

impl View for Response {
    type V = ResponseView;

    open spec fn view(&self) -> ResponseView {
        ResponseView {
            status: self.status as int,
            body: match self.body {
                Some(text) => Some(text@),
                None => None,
            },
        }
    }
}

/// The text of a payload that may be missing.
pub open spec fn body_view(body: Option<&Json>) -> Option<Seq<char>> {
    match body {
        Some(json) => Some(json@),
        None => None,
    }
}

/// What the resolver asks for once it has seen a request's path.
#[derive(Debug)]
pub enum RouteStep<'a> {
    /// No rule answers for the path: this is the response.
    Reply(Response),
    /// `rule` answers for the path: record `key` in the cache for the rule's
    /// time-to-live, and come back with what the cache said.
    Check { rule: &'a Rule, key: String },
}

/// What the resolver asks for once the cache has answered.
#[derive(Debug, Clone, PartialEq, Eq)]
pub enum RuleStep {
    /// This is the response.
    Reply(Response),
    /// Forward the request to `uri`, and return what comes back as it is.
    Forward { uri: String },
}

/// A step after the cache's answer, as plain values.
pub ghost enum RuleStepView {
    Reply(ResponseView),
    Forward { uri: Seq<char> },
}

impl View for RuleStep {
    type V = RuleStepView;

    open spec fn view(&self) -> RuleStepView {
        match self {
            RuleStep::Reply(response) => RuleStepView::Reply(response@),
            RuleStep::Forward { uri } => RuleStepView::Forward { uri: uri@ },
        }
    }
}

/// What a rule's action asks for, for a new fingerprint and for a repeated
/// one. A repeated fingerprint never reaches the upstream.
pub open spec fn decision(action: RuleActionView, fresh: bool) -> RuleStepView {
    match action {
        RuleActionView::Respond { success, failure } => if fresh {
            RuleStepView::Reply(ResponseView { status: 200, body: Some(success) })
        } else {
            RuleStepView::Reply(ResponseView { status: 403, body: Some(failure) })
        },
        RuleActionView::Redirect { uri } => if fresh {
            RuleStepView::Forward { uri }
        } else {
            RuleStepView::Reply(ResponseView { status: 403, body: None })
        },
    }
}

/// The status of the response that stands for an error: 502 for a failure
/// of the upstream call, 500 for every other.
pub open spec fn error_status(err: ProxyError) -> int {
    if err.is_forward_error() {
        502
    } else {
        500
    }
}

/// Resolves requests against a loaded configuration.
///
/// It holds no connection: it says what is to be done, and the program
/// around it talks to the cache store and to the upstream.
#[derive(Debug)]
pub struct Resolver {
    config: Config,
}

impl Resolver {
    /// The rule table that requests are resolved against.
    pub closed spec fn table(&self) -> Seq<(Seq<char>, Rule)> {
        self.config.entries()
    }

    /// Makes a resolver for a loaded configuration.
    pub fn new(config: Config) -> (resolver: Self)
        ensures
            resolver.table() == config.entries(),
    {
        Self { config }
    }

    /// The first step for a request: with no rule for its path the answer is
    /// 500 with an empty body; else the rule declared first among those that
    /// match, and the request's fingerprint under that rule's fields.
    pub fn route<'a>(&'a self, path: &str, request: &RequestFields) -> (step: RouteStep<'a>)
        ensures
            match first_match(self.table(), path@) {
                None => step matches RouteStep::Reply(response) && response@ == (ResponseView {
                    status: 500,
                    body: None,
                }),
                Some(i) => step matches RouteStep::Check { rule, key } && *rule == self.table()[i].1
                    && key@ == fingerprint(rule.fields@, request@),
            },
    {
        match self.config.get_rule(path) {
            None => RouteStep::Reply(self.internal_server_error_response()),
            Some(rule) => RouteStep::Check {
                rule,
                key: fingerprint::derive(&rule.fields, request),
            },
        }
    }

    /// The step after the cache's answer, where `fresh` says that this
    /// request was the first to bear its fingerprint.
    pub fn handle_rule(&self, rule: &Rule, fresh: bool) -> (step: RuleStep)
        ensures
            step@ == decision(rule.action@, fresh),
    {
        match &rule.action {
            RuleAction::Respond { success, failure } => if fresh {
                RuleStep::Reply(self.ok_response(Some(success)))
            } else {
                RuleStep::Reply(self.forbidden_response(Some(failure)))
            },
            RuleAction::Redirect { uri } => if fresh {
                RuleStep::Forward { uri: uri.clone() }
            } else {
                RuleStep::Reply(self.forbidden_response(None))
            },
        }
    }

    /// What is returned for a forwarded request: the upstream's response as
    /// it is, or the failure as an error of the proxy.
    pub fn after_forward<T>(&self, result: Result<T, ForwardError>) -> (returned: Result<
        T,
        ProxyError,
    >)
        ensures
            match result {
                Ok(response) => returned == Ok::<T, ProxyError>(response),
                Err(err) => returned == Err::<T, ProxyError>(from_forward(err)),
            },
    {
        match result {
            Ok(response) => Ok(response),
            Err(err) => Err(ProxyError::from(err)),
        }
    }

    /// The response that stands for an error met while handling a request.
    pub fn error_response(&self, err: &ProxyError) -> (response: Response)
        ensures
            response@ == (ResponseView { status: error_status(*err), body: None }),
    {
        match err {
            ProxyError::InvalidUri(_) | ProxyError::HyperError(_) | ProxyError::ForwardHeaderError => {
                Response { status: 502, body: None }
            },
            _ => self.internal_server_error_response(),
        }
    }

    /// 200, with the payload as the body where there is one.
    pub fn ok_response(&self, body: Option<&Json>) -> (response: Response)
        ensures
            response@ == (ResponseView { status: 200, body: body_view(body) }),
    {
        Response {
            status: 200,
            body: match body {
                Some(json) => Some(json.text()),
                None => None,
            },
        }
    }

    /// 403, with the payload as the body where there is one.
    pub fn forbidden_response(&self, body: Option<&Json>) -> (response: Response)
        ensures
            response@ == (ResponseView { status: 403, body: body_view(body) }),
    {
        Response {
            status: 403,
            body: match body {
                Some(json) => Some(json.text()),
                None => None,
            },
        }
    }

    /// 500, with an empty body.
    pub fn internal_server_error_response(&self) -> (response: Response)
        ensures
            response@ == (ResponseView { status: 500, body: None }),
    {
        Response { status: 500, body: None }
    }
}

} // verus!
