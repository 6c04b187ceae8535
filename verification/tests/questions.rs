use openasking::config::Backend;
use openasking::question::Question;
use openasking::{BoolQuestion, ChoiceQuestion, Error, Json, ScoreQuestion};

fn s(v: &str) -> String {
    v.to_string()
}

fn text_of(j: &Json) -> &str {
    match j {
        Json::Str(v) => v.as_str(),
        other => panic!("not a string: {other:?}"),
    }
}

fn field<'a>(j: &'a Json, key: &str) -> &'a Json {
    match j {
        Json::Object(fields) => &fields.iter().find(|(k, _)| k == key).expect(key).1,
        other => panic!("not an object: {other:?}"),
    }
}

fn keys(j: &Json) -> Vec<String> {
    match j {
        Json::Object(fields) => fields.iter().map(|(k, _)| k.clone()).collect(),
        other => panic!("not an object: {other:?}"),
    }
}

fn configuration_message(r: Result<Json, Error>) -> String {
    match r {
        Err(Error::Configuration(m)) => m,
        other => panic!("expected a configuration error, got {other:?}"),
    }
}

#[test]
fn boolean_question_encodes_type_instructions_and_criteria() {
    let q = Question::Bool(
        BoolQuestion::new("safe", "Is it safe?").when_true("read only").when_false("writes"),
    );
    let j = q.encode(Backend::Vercel).unwrap();
    assert_eq!(keys(&j), vec![s("type"), s("instructions"), s("criteria")]);
    assert_eq!(text_of(field(&j, "type")), "boolean");
    assert_eq!(text_of(field(&j, "instructions")), "Is it safe?");
    let criteria = field(&j, "criteria");
    assert_eq!(keys(criteria), vec![s("true"), s("false")]);
    assert_eq!(text_of(field(criteria, "true")), "read only");
    assert_eq!(text_of(field(criteria, "false")), "writes");
}

#[test]
fn native_boolean_question_is_a_noul() {
    let q = Question::Bool(BoolQuestion::new("safe", "Is it safe?"));
    let j = q.encode(Backend::TypeSafe).unwrap();
    assert_eq!(text_of(field(&j, "type")), "noul");
    assert_eq!(keys(&j), vec![s("type"), s("instructions")]);
}

#[test]
fn criteria_are_replaced_by_a_later_call() {
    let q = Question::Bool(
        BoolQuestion::new("safe", "Q").when_true("first").when_true("second"),
    );
    let j = q.encode(Backend::Vercel).unwrap();
    let criteria = field(&j, "criteria");
    assert_eq!(keys(criteria), vec![s("true")]);
    assert_eq!(text_of(field(criteria, "true")), "second");
}

#[test]
fn choice_question_encodes_options_in_order() {
    let q = Question::Choice(
        ChoiceQuestion::new("route", "Next?").option("continue", "Continue").option("retry", "Retry"),
    );
    let j = q.encode(Backend::TypeSafe).unwrap();
    assert_eq!(text_of(field(&j, "type")), "choice");
    let criteria = field(&j, "criteria");
    assert_eq!(keys(criteria), vec![s("continue"), s("retry")]);
    assert_eq!(text_of(field(criteria, "retry")), "Retry");
}

#[test]
fn score_question_encodes_levels_as_an_array() {
    let q = Question::Score(
        ScoreQuestion::new("quality", "Quality?").level("poor").level("fair").level("good"),
    );
    let j = q.encode(Backend::Vercel).unwrap();
    assert_eq!(text_of(field(&j, "type")), "score");
    match field(&j, "criteria") {
        Json::Array(items) => {
            let levels: Vec<&str> = items.iter().map(text_of).collect();
            assert_eq!(levels, vec!["poor", "fair", "good"]);
        }
        other => panic!("not an array: {other:?}"),
    }
}

#[test]
fn invalid_questions_name_their_fault() {
    let cases: Vec<(Question, &str)> = vec![
        (Question::Bool(BoolQuestion::new("", "Q")), "question ID must not be empty"),
        (Question::Bool(BoolQuestion::new(" \t\n", "Q")), "question ID must not be empty"),
        (Question::Bool(BoolQuestion::new("q", "  ")), "question instructions must not be empty"),
        (Question::Bool(BoolQuestion::new("q", "Q").when_false(" ")), "boolean criterion must not be empty"),
        (Question::Choice(ChoiceQuestion::new("q", "Q")), "choice requires at least one option"),
        (Question::Choice(ChoiceQuestion::new("q", "Q").option("", "A")), "option key must not be empty"),
        (Question::Choice(ChoiceQuestion::new("q", "Q").option("a", "")), "option description must not be empty"),
        (
            Question::Choice(ChoiceQuestion::new("q", "Q").option("a", "A").option("b", "B").option("a", "C")),
            "duplicate choice option key",
        ),
        (Question::Score(ScoreQuestion::new("q", "Q").level("only")), "score requires at least two levels"),
        (Question::Score(ScoreQuestion::new("q", "Q").level("a").level("\u{3000}")), "score level must not be empty"),
    ];
    for (q, message) in cases {
        assert_eq!(configuration_message(q.encode(Backend::Vercel)), message);
    }
}

#[test]
fn the_first_fault_among_options_is_reported() {
    let q = Question::Choice(
        ChoiceQuestion::new("q", "Q").option("a", "A").option("a", "B").option("", "C"),
    );
    assert_eq!(configuration_message(q.encode(Backend::Vercel)), "duplicate choice option key");
}

#[test]
fn question_id_is_the_given_id() {
    assert_eq!(Question::Score(ScoreQuestion::new("quality", "Q")).id(), "quality");
    assert_eq!(Question::Choice(ChoiceQuestion::new("route", "Q")).id(), "route");
}
