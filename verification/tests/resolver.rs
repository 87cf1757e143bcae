use murundiri::config::{Config, Json, Rule, RuleAction, RuleFields};
use murundiri::proxy::{
    ForwardError, ProxyError, RequestFields, Resolver, Response, RouteStep, RuleStep,
};

fn respond(success: &str, failure: &str) -> Rule {
    Rule {
        ttl: 2,
        fields: RuleFields { body: Some(vec!["trx_id".to_string()]), query: None, header: None },
        action: RuleAction::Respond {
            success: Json(success.to_string()),
            failure: Json(failure.to_string()),
        },
    }
}

fn redirect(uri: &str) -> Rule {
    Rule {
        ttl: 3,
        fields: RuleFields { body: None, query: Some(vec!["ship_id".to_string()]), header: None },
        action: RuleAction::Redirect { uri: uri.to_string() },
    }
}

fn resolver() -> Resolver {
    Resolver::new(
        Config::default()
            .add_rule("^/api/v1/books", respond("{\"ok\":true}", "{\"ok\":false}"))
            .unwrap()
            .add_rule("\\w+/api/ships", redirect("https://google.com:9000/v2"))
            .unwrap(),
    )
}

fn request() -> RequestFields {
    RequestFields {
        body: vec![("trx_id".to_string(), "t-1".to_string())],
        query: vec![("ship_id".to_string(), "s-9".to_string())],
        header: vec![],
    }
}

#[test]
fn respond_rule_with_new_fingerprint_gives_200_and_success() {
    let step = resolver().handle_rule(&respond("S", "F"), true);
    assert_eq!(step, RuleStep::Reply(Response { status: 200, body: Some("S".to_string()) }));
}

#[test]
fn respond_rule_with_repeated_fingerprint_gives_403_and_failure() {
    let step = resolver().handle_rule(&respond("S", "F"), false);
    assert_eq!(step, RuleStep::Reply(Response { status: 403, body: Some("F".to_string()) }));
}

#[test]
fn redirect_rule_with_new_fingerprint_forwards_to_the_target() {
    let step = resolver().handle_rule(&redirect("http://upstream/u"), true);
    assert_eq!(step, RuleStep::Forward { uri: "http://upstream/u".to_string() });
}

#[test]
fn redirect_rule_with_repeated_fingerprint_gives_403_and_no_body() {
    let step = resolver().handle_rule(&redirect("http://upstream/u"), false);
    assert_eq!(step, RuleStep::Reply(Response { status: 403, body: None }));
}

#[test]
fn a_path_without_rule_gives_500_and_no_body() {
    match resolver().route("/unknown", &request()) {
        RouteStep::Reply(response) => {
            assert_eq!(response, Response { status: 500, body: None })
        }
        RouteStep::Check { .. } => panic!("no rule matches /unknown"),
    }
}

#[test]
fn a_path_with_a_rule_asks_for_the_cache_with_the_fingerprint() {
    let resolver = resolver();
    match resolver.route("/api/v1/books/3", &request()) {
        RouteStep::Check { rule, key } => {
            assert_eq!(rule, &respond("{\"ok\":true}", "{\"ok\":false}"));
            assert_eq!(rule.ttl, 2);
            assert_eq!(key, "body::t-1,");
        }
        RouteStep::Reply(_) => panic!("a rule matches"),
    }
    match resolver.route("/v1/api/ships", &request()) {
        RouteStep::Check { rule, key } => {
            assert_eq!(rule, &redirect("https://google.com:9000/v2"));
            assert_eq!(key, "query::s-9,");
        }
        RouteStep::Reply(_) => panic!("a rule matches"),
    }
}

#[test]
fn the_upstream_response_is_returned_as_it_is() {
    let upstream = Response { status: 201, body: Some("made".to_string()) };
    assert_eq!(resolver().after_forward(Ok(upstream.clone())), Ok(upstream));
    assert_eq!(resolver().after_forward(Ok(17u8)), Ok(17u8));
}

#[test]
fn a_failure_of_the_upstream_call_becomes_an_error_of_the_proxy() {
    let resolver = resolver();
    assert_eq!(
        resolver.after_forward::<Response>(Err(ForwardError::InvalidUri("bad".to_string()))),
        Err(ProxyError::InvalidUri("bad".to_string()))
    );
    assert_eq!(
        resolver.after_forward::<Response>(Err(ForwardError::HyperError("down".to_string()))),
        Err(ProxyError::HyperError("down".to_string()))
    );
    assert_eq!(
        resolver.after_forward::<Response>(Err(ForwardError::ForwardHeaderError)),
        Err(ProxyError::ForwardHeaderError)
    );
}

#[test]
fn errors_become_server_error_responses() {
    let resolver = resolver();
    let cache = ProxyError::CacheError("connection refused".to_string());
    assert_eq!(resolver.error_response(&cache), Response { status: 500, body: None });
    let pool = ProxyError::RedisConnectionPoolError("timed out".to_string());
    assert_eq!(resolver.error_response(&pool), Response { status: 500, body: None });
    let uri = ProxyError::InvalidUri("bad".to_string());
    assert_eq!(resolver.error_response(&uri), Response { status: 502, body: None });
    let transport = ProxyError::HyperError("down".to_string());
    assert_eq!(resolver.error_response(&transport), Response { status: 502, body: None });
    assert_eq!(
        resolver.error_response(&ProxyError::ForwardHeaderError),
        Response { status: 502, body: None }
    );
}

#[test]
fn canned_responses_carry_the_payload_text() {
    let resolver = resolver();
    let payload = Json("{\"a\":1}".to_string());
    assert_eq!(
        resolver.ok_response(Some(&payload)),
        Response { status: 200, body: Some("{\"a\":1}".to_string()) }
    );
    assert_eq!(resolver.ok_response(None), Response { status: 200, body: None });
    assert_eq!(
        resolver.forbidden_response(Some(&payload)),
        Response { status: 403, body: Some("{\"a\":1}".to_string()) }
    );
    assert_eq!(resolver.forbidden_response(None), Response { status: 403, body: None });
    assert_eq!(
        resolver.internal_server_error_response(),
        Response { status: 500, body: None }
    );
}
