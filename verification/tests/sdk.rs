use std::time::Duration;

use openasking::{
    Asking, BoolQuestion, ChoiceQuestion, Config, Error, Json, ScoreQuestion, Step, TypeSafeConfig,
    VercelConfig,
};

fn text(s: &str) -> Json {
    Json::Str(s.to_string())
}

fn boolean() -> BoolQuestion {
    BoolQuestion::new("safe", "Is it safe?")
}

fn vercel() -> VercelConfig {
    VercelConfig::new(None)
}

fn mixed(config: Config) -> Asking {
    Asking::new(config)
        .state(Json::Object(vec![("action".to_string(), text("read"))]))
        .bool_question(
            BoolQuestion::new("safe", "Is it safe?")
                .when_true("read only")
                .when_false("writes"),
        )
        .choice_question(
            ChoiceQuestion::new("route", "Next?")
                .option("continue", "Continue")
                .option("retry", "Retry"),
        )
        .score_question(
            ScoreQuestion::new("quality", "Quality?")
                .level("poor")
                .level("fair")
                .level("good"),
        )
}

fn is_configuration(step: &Step) -> bool {
    matches!(step, Step::Finished(Error::Configuration(_)))
}

fn is_already_completed(step: &Step) -> bool {
    matches!(step, Step::Finished(Error::AlreadyCompleted))
}

#[test]
fn invalid_requests_fail_on_first_poll_without_runtime() {
    let cases = vec![
        Asking::new(vercel().into()),
        Asking::new(vercel().into()).state(text("state")),
        Asking::new(vercel().into()).state(text("")).bool_question(boolean()),
        Asking::new(vercel().into()).state(text("  ")).bool_question(boolean()),
        Asking::new(vercel().into()).state(Json::Object(vec![])).bool_question(boolean()),
        Asking::new(vercel().into()).state(Json::Array(vec![])).bool_question(boolean()),
        Asking::new(vercel().into()).state(Json::Null).bool_question(boolean()),
        Asking::new(vercel().into())
            .state(Json::Number("42".to_string()))
            .bool_question(boolean()),
        Asking::new(vercel().into()).state(Json::Bool(false)).bool_question(boolean()),
        Asking::new(vercel().with_api_key("").into())
            .state(text("state"))
            .bool_question(boolean()),
        Asking::new(vercel().with_api_key("bad\nkey").into())
            .state(text("state"))
            .bool_question(boolean()),
        Asking::new(vercel().into())
            .state(text("state"))
            .bool_question(boolean())
            .bool_question(boolean()),
        Asking::new(vercel().into())
            .state(text("state"))
            .bool_question(BoolQuestion::new("", "Q")),
        Asking::new(vercel().into())
            .state(text("state"))
            .bool_question(BoolQuestion::new("q", "")),
        Asking::new(vercel().into())
            .state(text("state"))
            .bool_question(boolean().when_true("")),
        Asking::new(vercel().into())
            .state(text("state"))
            .choice_question(ChoiceQuestion::new("q", "Q")),
        Asking::new(vercel().into()).state(text("state")).choice_question(
            ChoiceQuestion::new("q", "Q").option("a", "A").option("a", "B"),
        ),
        Asking::new(vercel().into())
            .state(text("state"))
            .score_question(ScoreQuestion::new("q", "Q").level("low")),
        Asking::new(vercel().into())
            .state(text("state"))
            .score_question(ScoreQuestion::new("q", "Q").level("low").level("")),
        Asking::new(vercel().with_api_key("k").with_endpoint("ftp://example.com").into())
            .state(text("state"))
            .bool_question(boolean()),
        Asking::new(vercel().with_api_key("k").with_timeout(Duration::ZERO).into())
            .state(text("state"))
            .bool_question(boolean()),
    ];
    for mut request in cases {
        assert!(is_configuration(&request.start()));
        assert!(is_already_completed(&request.start()));
    }
}

struct BadState;

impl serde::Serialize for BadState {
    fn serialize<S: serde::Serializer>(&self, _: S) -> Result<S::Ok, S::Error> {
        Err(serde::ser::Error::custom("cannot serialize"))
    }
}

#[test]
fn serialization_errors_are_deferred() {
    let error = serde_json::to_value(BadState).unwrap_err();
    let mut request = Asking::new(vercel().into())
        .state_unserializable(error)
        .bool_question(boolean());
    assert!(matches!(request.start(), Step::Finished(Error::StateSerialization(_))));
}

#[test]
fn provider_validation_is_deferred_to_poll() {
    let configs: Vec<Config> = vec![
        TypeSafeConfig::new(None).with_api_key("").into(),
        TypeSafeConfig::new(None).with_api_key("key").with_model("").into(),
        TypeSafeConfig::new(None)
            .with_api_key("key")
            .with_timeout(Duration::ZERO)
            .into(),
        VercelConfig::new(None)
            .with_api_key("key")
            .with_model("bad\nmodel")
            .into(),
    ];
    for config in configs {
        let mut request = mixed(config);
        assert!(is_configuration(&request.start()));
    }
}
