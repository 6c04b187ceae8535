use std::time::Duration;

use openasking::config::{Backend, Timeout};
use openasking::question::Question;
use openasking::request::{prepare, PreparedRequest};
use openasking::{
    Asking, BoolQuestion, ChoiceQuestion, Config, Error, Json, ScoreQuestion, Step, TypeSafeConfig,
    VercelConfig,
};

fn text(s: &str) -> Json {
    Json::Str(s.to_string())
}

fn questions() -> Vec<Question> {
    vec![
        Question::Bool(BoolQuestion::new("safe", "Is it safe?").when_true("read only").when_false("writes")),
        Question::Choice(ChoiceQuestion::new("route", "Next?").option("continue", "Continue").option("retry", "Retry")),
        Question::Score(ScoreQuestion::new("quality", "Quality?").level("poor").level("fair").level("good")),
    ]
}

fn state() -> Option<Result<Json, serde_json::Error>> {
    Some(Ok(Json::Object(vec![("action".to_string(), text("read"))])))
}

fn headers(p: &PreparedRequest) -> Vec<(&str, &str)> {
    p.headers.iter().map(|(n, v)| (n.as_str(), v.as_str())).collect()
}

fn field_names(j: &Json) -> Vec<&str> {
    match j {
        Json::Object(fields) => fields.iter().map(|(k, _)| k.as_str()).collect(),
        other => panic!("not an object: {other:?}"),
    }
}

fn message(r: Result<PreparedRequest, Error>) -> String {
    match r {
        Err(Error::Configuration(m)) => m,
        Err(other) => panic!("unexpected error {other:?}"),
        Ok(_) => panic!("unexpected success"),
    }
}

#[test]
fn gateway_request_carries_protocol_headers_and_body() {
    let config: Config = VercelConfig::new(None)
        .with_api_key("test-key")
        .with_endpoint("http://127.0.0.1:9/evaluation-model")
        .into();
    let p = prepare(config, state(), questions()).unwrap();
    assert_eq!(p.backend, Backend::Vercel);
    assert_eq!(p.endpoint, "http://127.0.0.1:9/evaluation-model");
    assert_eq!(
        headers(&p),
        vec![
            ("authorization", "Bearer test-key"),
            ("ai-gateway-auth-method", "api-key"),
            ("ai-gateway-protocol-version", "0.0.1"),
            ("ai-evaluation-model-specification-version", "4"),
            ("ai-model-id", "typesafe-ai/jev"),
        ]
    );
    assert_eq!(field_names(&p.body), vec!["state", "questions"]);
    match &p.body {
        Json::Object(fields) => assert_eq!(field_names(&fields[1].1), vec!["safe", "route", "quality"]),
        _ => unreachable!(),
    }
    assert_eq!(p.timeout, Timeout { secs: 60, nanos: 0 });
    assert!(p.client.is_none());
    assert_eq!(p.questions.len(), 3);
}

#[test]
fn native_request_names_the_model_and_sends_only_authorization() {
    let config: Config = TypeSafeConfig::new(None)
        .with_api_key("native-key")
        .with_model("jev-pinned")
        .into();
    let p = prepare(config, state(), questions()).unwrap();
    assert_eq!(p.endpoint, "https://api.typesafe.ai/v1/systemone");
    assert_eq!(headers(&p), vec![("authorization", "Bearer native-key")]);
    assert_eq!(field_names(&p.body), vec!["model", "state", "questions"]);
    match &p.body {
        Json::Object(fields) => assert!(matches!(&fields[0].1, Json::Str(m) if m == "jev-pinned")),
        _ => unreachable!(),
    }
}

#[test]
fn custom_gateway_model_is_the_model_header() {
    let config: Config = VercelConfig::new(Some("env-key".to_string())).with_model("typesafe-ai/custom").into();
    let p = prepare(config, state(), questions()).unwrap();
    assert!(headers(&p).contains(&("ai-model-id", "typesafe-ai/custom")));
    assert!(headers(&p).contains(&("authorization", "Bearer env-key")));
}

#[test]
fn explicit_key_overrides_the_environment_key() {
    let config: Config = TypeSafeConfig::new(Some("native-env".to_string())).with_api_key("explicit").into();
    let p = prepare(config, state(), questions()).unwrap();
    assert_eq!(headers(&p), vec![("authorization", "Bearer explicit")]);
}

#[test]
fn missing_key_names_the_provider_variable() {
    let native: Config = TypeSafeConfig::new(None).into();
    assert_eq!(message(prepare(native, state(), questions())), "TYPESAFE_API_KEY or with_api_key is required");
    let gateway: Config = VercelConfig::new(None).into();
    assert_eq!(message(prepare(gateway, state(), questions())), "AI_GATEWAY_API_KEY or with_api_key is required");
}

#[test]
fn refusals_come_in_order_and_name_their_cause() {
    let key = || VercelConfig::new(Some("k".to_string()));
    let cases: Vec<(Config, Option<Result<Json, serde_json::Error>>, Vec<Question>, &str)> = vec![
        (key().into(), None, questions(), "state is required"),
        (key().into(), Some(Ok(Json::Null)), questions(), "state must be a nonempty string, object, or array"),
        (key().into(), state(), vec![], "at least one question is required"),
        (
            key().into(),
            state(),
            vec![Question::Bool(BoolQuestion::new("q", "Q")), Question::Score(ScoreQuestion::new("q", "Q").level("a").level("b"))],
            "duplicate question ID",
        ),
        (VercelConfig::new(Some(" ".to_string())).into(), state(), questions(), "API key must not be empty"),
        (key().with_api_key("a\u{7f}b").into(), state(), questions(), "API key is not a valid HTTP header value"),
        (key().with_model("  ").into(), state(), questions(), "model must not be empty"),
        (key().with_model("bad\nmodel").into(), state(), questions(), "model is not a valid HTTP header value"),
        (key().with_endpoint("not a url").into(), state(), questions(), "invalid evaluation endpoint"),
        (key().with_endpoint("ftp://example.com").into(), state(), questions(), "endpoint must be an HTTP(S) URL without user credentials"),
        (key().with_endpoint("https://user:pw@example.com").into(), state(), questions(), "endpoint must be an HTTP(S) URL without user credentials"),
        (key().with_endpoint("https://user@example.com").into(), state(), questions(), "endpoint must be an HTTP(S) URL without user credentials"),
        (key().with_timeout(Duration::ZERO).into(), state(), questions(), "timeout must be greater than zero"),
    ];
    for (config, state, questions, expected) in cases {
        assert_eq!(message(prepare(config, state, questions)), expected);
    }
}

#[test]
fn native_model_may_hold_characters_a_header_may_not() {
    let config: Config = TypeSafeConfig::new(Some("k".to_string())).with_model("bad\nmodel").into();
    assert!(prepare(config, state(), questions()).is_ok());
}

#[test]
fn a_tab_is_a_valid_header_character() {
    let config: Config = VercelConfig::new(Some("a\tb".to_string())).into();
    let p = prepare(config, state(), questions()).unwrap();
    assert_eq!(headers(&p)[0], ("authorization", "Bearer a\tb"));
}

#[test]
fn custom_timeout_and_client_are_kept() {
    let client = reqwest::Client::new();
    let config: Config = VercelConfig::new(Some("k".to_string()))
        .with_timeout(Duration::from_millis(1500))
        .with_http_client(client)
        .into();
    let p = prepare(config, state(), questions()).unwrap();
    assert_eq!(p.timeout, Timeout { secs: 1, nanos: 500_000_000 });
    assert!(p.client.is_some());
}

#[test]
fn a_request_is_sent_at_most_once() {
    let mut request = Asking::new(VercelConfig::new(Some("k".to_string())).into())
        .state(text("Build passed"))
        .bool_question(BoolQuestion::new("passed", "Did the build pass?"));
    assert!(request.is_building());
    assert!(matches!(request.start(), Step::Send(_)));
    assert!(!request.is_building());
    for _ in 0..3 {
        assert!(matches!(request.start(), Step::Wait));
    }
    request.complete();
    assert!(matches!(request.start(), Step::Finished(Error::AlreadyCompleted)));
    assert!(matches!(request.start(), Step::Finished(Error::AlreadyCompleted)));
}

#[test]
fn request_settings_can_be_set_on_the_request() {
    let mut request = Asking::new(TypeSafeConfig::new(None).into())
        .with_api_key("native-key")
        .with_endpoint("http://localhost:8080/v1/systemone")
        .with_timeout(Duration::from_secs(5))
        .state(text("state"))
        .choice_question(ChoiceQuestion::new("c", "Q").option("a", "A"));
    match request.start() {
        Step::Send(p) => {
            assert_eq!(p.endpoint, "http://localhost:8080/v1/systemone");
            assert_eq!(p.timeout, Timeout { secs: 5, nanos: 0 });
            assert_eq!(headers(&p), vec![("authorization", "Bearer native-key")]);
        }
        _ => panic!("expected the request to be sent"),
    }
}

#[test]
fn state_can_be_replaced_before_the_request_starts() {
    let error = serde_json::from_str::<serde_json::Value>("{").unwrap_err();
    let mut request = Asking::new(VercelConfig::new(Some("k".to_string())).into())
        .state_unserializable(error)
        .state(Json::Array(vec![Json::Number("1".to_string())]))
        .bool_question(BoolQuestion::new("q", "Q"));
    assert!(matches!(request.start(), Step::Send(_)));
}

#[test]
fn default_settings_of_each_provider() {
    let gateway: Config = VercelConfig::new(None).into();
    let s = gateway.settings();
    assert_eq!(s.endpoint(), "https://ai-gateway.vercel.sh/v4/ai/evaluation-model");
    assert_eq!(s.model(), "typesafe-ai/jev");
    assert!(s.api_key().is_none());
    let native: Config = TypeSafeConfig::new(Some("x".to_string())).into();
    let s = native.settings();
    assert_eq!(s.model(), "jev-latest");
    assert_eq!(s.api_key(), Some("x"));
    assert_eq!(Backend::TypeSafe.key_env(), "TYPESAFE_API_KEY");
}

#[test]
fn configs_convert_by_value_and_by_reference() {
    let config = TypeSafeConfig::new(Some("k".to_string())).with_model("m");
    let by_ref: Config = (&config).into();
    let by_value: Config = config.into();
    assert_eq!(by_ref.backend(), Backend::TypeSafe);
    assert_eq!(by_ref.settings().model(), by_value.settings().model());
    let again: Config = (&by_ref).into();
    assert_eq!(again.settings().api_key(), Some("k"));
}
