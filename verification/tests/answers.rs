use openasking::answer::Real;
use openasking::decode::{Distribution, NumericChecks, Rounding, WireAnswer, WireResponse};
use openasking::native::{NativeAnswer, NativeResponse, NativeUsage};
use openasking::question::Question;
use openasking::{BoolQuestion, ChoiceQuestion, Error, Json, ScoreQuestion, Usage};

fn number(v: f64) -> Real {
    Real { bits: v.to_bits() }
}

fn value(r: Real) -> f64 {
    f64::from_bits(r.bits)
}

fn pairs(items: &[(&str, f64)]) -> Vec<(String, Real)> {
    items.iter().map(|(k, v)| (k.to_string(), number(*v))).collect()
}

fn sound() -> NumericChecks {
    NumericChecks {
        probability_in_range: true,
        distribution: Distribution::Sound,
        selected_is_top: true,
        score_ceiling: Some(0),
        mean_matches: true,
    }
}

fn wire(answers: Vec<(&str, WireAnswer)>) -> WireResponse {
    WireResponse {
        answers: answers.into_iter().map(|(id, a)| (id.to_string(), a)).collect(),
        provider_metadata: Json::Null,
        usage: None,
        warnings: vec![],
        rounding: Rounding { probability_decimals: None, score_decimals: None },
    }
}

fn mixed_questions() -> Vec<Question> {
    vec![
        Question::Bool(BoolQuestion::new("safe", "Is it safe?")),
        Question::Choice(ChoiceQuestion::new("route", "Next?").option("continue", "Continue").option("retry", "Retry")),
        Question::Score(ScoreQuestion::new("quality", "Quality?").level("poor").level("fair").level("good")),
    ]
}

fn invalid_message(r: Result<openasking::Answers, Error>) -> String {
    match r {
        Err(Error::InvalidResponse(m)) => m,
        Err(other) => panic!("unexpected error {other:?}"),
        Ok(_) => panic!("unexpected success"),
    }
}

#[test]
fn mixed_answers_are_decoded_and_typed() {
    let mut w = wire(vec![
        ("quality", WireAnswer::Score { score: number(1.7), probabilities: Some(pairs(&[("2", 0.7), ("0", 0.0), ("1", 0.3)])) }),
        ("safe", WireAnswer::Bool { probability: number(0.99) }),
        ("route", WireAnswer::Choice { choice: "continue".to_string(), probabilities: Some(pairs(&[("continue", 0.8), ("retry", 0.2)])) }),
    ]);
    w.usage = Some(Usage { input_tokens: Some(100), output_tokens: Some(10) });
    w.warnings = vec![Json::Object(vec![("type".to_string(), Json::Str("other".to_string()))])];
    let checks = vec![NumericChecks { score_ceiling: Some(2), ..sound() }, sound(), sound()];
    let answers = w.decode(&mixed_questions(), &checks).unwrap();
    assert_eq!(answers.len(), 3);
    assert_eq!(value(answers.bool_answer("safe").unwrap().probability_true), 0.99);
    let route = answers.choice_answer("route").unwrap();
    assert_eq!(route.choice, "continue");
    assert_eq!(route.probabilities.len(), 2);
    let quality = answers.score_answer("quality").unwrap();
    assert_eq!(value(quality.score), 1.7);
    let ordered: Vec<f64> = quality.probabilities.iter().map(|r| value(*r)).collect();
    assert_eq!(ordered, vec![0.0, 0.3, 0.7]);
    assert_eq!(answers.usage.unwrap().input_tokens, Some(100));
    assert_eq!(answers.warnings.len(), 1);
    assert!(matches!(answers.bool_answer("missing"), Err(Error::NotFound(id)) if id == "missing"));
    assert!(matches!(
        answers.bool_answer("route"),
        Err(Error::TypeMismatch { id, expected: "boolean", actual: "choice" }) if id == "route"
    ));
    assert!(matches!(answers.choice_answer("safe"), Err(Error::TypeMismatch { expected: "choice", actual: "boolean", .. })));
    assert!(matches!(answers.score_answer("safe"), Err(Error::TypeMismatch { expected: "score", actual: "boolean", .. })));
    assert!(matches!(answers.bool_answer("quality"), Err(Error::TypeMismatch { actual: "score", .. })));
}

#[test]
fn missing_distributions_stay_empty() {
    let w = wire(vec![
        ("c", WireAnswer::Choice { choice: "a".to_string(), probabilities: None }),
        ("s", WireAnswer::Score { score: number(0.5), probabilities: None }),
    ]);
    let questions = vec![
        Question::Choice(ChoiceQuestion::new("c", "Q").option("a", "A")),
        Question::Score(ScoreQuestion::new("s", "Q").level("low").level("high")),
    ];
    let checks = vec![sound(), NumericChecks { score_ceiling: Some(1), ..sound() }];
    let answers = w.decode(&questions, &checks).unwrap();
    assert!(answers.choice_answer("c").unwrap().probabilities.is_empty());
    assert!(answers.score_answer("s").unwrap().probabilities.is_empty());
    assert!(matches!(answers.metadata, Json::Null));
}

#[test]
fn score_indexes_beyond_nine_keep_their_place() {
    let probabilities: Vec<(String, Real)> = (0..12).rev().map(|i| (i.to_string(), number(if i == 10 { 1.0 } else { 0.0 }))).collect();
    let w = wire(vec![("score", WireAnswer::Score { score: number(10.0), probabilities: Some(probabilities) })]);
    let mut score = ScoreQuestion::new("score", "Q");
    for i in 0..12 {
        score = score.level(&format!("level {i}"));
    }
    let checks = vec![NumericChecks { score_ceiling: Some(10), ..sound() }];
    let answers = w.decode(&vec![Question::Score(score)], &checks).unwrap();
    let ordered = &answers.score_answer("score").unwrap().probabilities;
    assert_eq!(ordered.len(), 12);
    assert_eq!(value(ordered[10]), 1.0);
    assert_eq!(value(ordered[1]), 0.0);
}

#[test]
fn malformed_answer_sets_are_refused() {
    let q = || vec![Question::Bool(BoolQuestion::new("safe", "Is it safe?"))];
    let cases: Vec<(Vec<(&str, WireAnswer)>, Vec<NumericChecks>, &str)> = vec![
        (vec![], vec![], "answer IDs do not match question IDs"),
        (vec![("other", WireAnswer::Bool { probability: number(0.5) })], vec![sound()], "missing requested answer"),
        (
            vec![("safe", WireAnswer::Bool { probability: number(1.1) })],
            vec![NumericChecks { probability_in_range: false, ..sound() }],
            "probability must be finite and between 0 and 1",
        ),
        (
            vec![("safe", WireAnswer::Choice { choice: "a".to_string(), probabilities: None })],
            vec![sound()],
            "answer type does not match question type",
        ),
        (
            vec![("safe", WireAnswer::Bool { probability: number(0.5) }), ("extra", WireAnswer::Bool { probability: number(0.5) })],
            vec![sound(), sound()],
            "answer IDs do not match question IDs",
        ),
    ];
    for (answers, checks, expected) in cases {
        assert_eq!(invalid_message(wire(answers).decode(&q(), &checks)), expected);
    }
}

#[test]
fn invalid_choices_and_scores_are_refused() {
    let choice = || vec![Question::Choice(ChoiceQuestion::new("q", "Q").option("a", "A").option("b", "B"))];
    let score = || vec![Question::Score(ScoreQuestion::new("q", "Q").level("low").level("high"))];
    let c = |choice: &str, p: Option<&[(&str, f64)]>| WireAnswer::Choice { choice: choice.to_string(), probabilities: p.map(pairs) };
    let s = |v: f64, p: Option<&[(&str, f64)]>| WireAnswer::Score { score: number(v), probabilities: p.map(pairs) };
    let in_scale = NumericChecks { score_ceiling: Some(1), ..sound() };
    let cases: Vec<(Vec<Question>, WireAnswer, NumericChecks, &str)> = vec![
        (choice(), c("unknown", None), sound(), "choice is not a declared option"),
        (choice(), c("a", Some(&[("a", 1.0)])), sound(), "choice distribution keys do not match options"),
        (choice(), c("a", Some(&[("a", 0.5), ("c", 0.5)])), sound(), "choice distribution keys do not match options"),
        (
            choice(),
            c("a", Some(&[("a", 0.2), ("b", 0.8)])),
            NumericChecks { selected_is_top: false, ..sound() },
            "selected choice is not a most probable option",
        ),
        (
            choice(),
            c("a", Some(&[("a", 0.8), ("b", 0.8)])),
            NumericChecks { distribution: Distribution::SumMismatch, ..sound() },
            "distribution does not sum to 1 within declared rounding",
        ),
        (
            choice(),
            c("a", Some(&[("a", 1.5), ("b", -0.5)])),
            NumericChecks { distribution: Distribution::ProbabilityOutOfRange, ..sound() },
            "probability must be finite and between 0 and 1",
        ),
        (score(), s(2.0, None), NumericChecks { score_ceiling: Some(2), ..sound() }, "score is outside the declared scale"),
        (score(), s(-1.0, None), NumericChecks { score_ceiling: None, ..sound() }, "score is outside the declared scale"),
        (score(), s(0.5, Some(&[("0", 1.0)])), in_scale, "score distribution has wrong length"),
        (score(), s(0.5, Some(&[("0", 0.5), ("2", 0.5)])), in_scale, "invalid score distribution index"),
        (score(), s(0.5, Some(&[("0", 0.5), ("01", 0.5)])), in_scale, "invalid score distribution index"),
        (
            score(),
            s(0.5, Some(&[("0", 1.0), ("1", 0.0)])),
            NumericChecks { mean_matches: false, ..in_scale },
            "score differs from distribution mean",
        ),
        (score(), c("a", None), sound(), "answer type does not match question type"),
    ];
    for (questions, answer, checks, expected) in cases {
        assert_eq!(invalid_message(wire(vec![("q", answer)]).decode(&questions, &vec![checks])), expected);
    }
}

fn native_reply() -> NativeResponse {
    NativeResponse {
        model: "jev-1.13.0".to_string(),
        usage: NativeUsage { input_tokens: 380, output_tokens: 62 },
        answers: vec![
            ("safe".to_string(), NativeAnswer::Noul { noul: number(0.99) }),
            (
                "route".to_string(),
                NativeAnswer::Choice {
                    choice: "continue".to_string(),
                    probabilities: pairs(&[("continue", 0.8), ("retry", 0.2)]),
                    confidence: "0.6".to_string(),
                },
            ),
            (
                "quality".to_string(),
                NativeAnswer::Score {
                    score: number(1.19),
                    probabilities: pairs(&[("0", 0.04), ("1", 0.73), ("2", 0.23)]),
                    confidence: "0.6".to_string(),
                    legend: vec![("0".to_string(), "poor".to_string()), ("1".to_string(), "fair".to_string()), ("2".to_string(), "good".to_string())],
                },
            ),
        ],
    }
}

fn lookup<'a>(j: &'a Json, key: &str) -> &'a Json {
    match j {
        Json::Object(fields) => &fields.iter().find(|(k, _)| k == key).expect(key).1,
        other => panic!("not an object: {other:?}"),
    }
}

#[test]
fn native_replies_become_common_answers() {
    let w = native_reply().normalize(&vec![true, true, true]).unwrap();
    assert_eq!(w.rounding, Rounding { probability_decimals: Some(2), score_decimals: Some(2) });
    assert_eq!(w.usage, Some(Usage { input_tokens: Some(380), output_tokens: Some(62) }));
    assert!(matches!(&w.answers[0], (id, WireAnswer::Bool { probability }) if id == "safe" && value(*probability) == 0.99));
    let typesafe = lookup(&w.provider_metadata, "typesafe");
    assert!(matches!(lookup(typesafe, "model"), Json::Str(m) if m == "jev-1.13.0"));
    assert!(matches!(lookup(lookup(typesafe, "confidence"), "route"), Json::Number(n) if n == "0.6"));
    assert!(matches!(lookup(lookup(lookup(typesafe, "legend"), "quality"), "2"), Json::Str(l) if l == "good"));
    let checks = vec![sound(), sound(), NumericChecks { score_ceiling: Some(2), ..sound() }];
    let answers = w.decode(&mixed_questions(), &checks).unwrap();
    assert_eq!(value(answers.bool_answer("safe").unwrap().probability_true), 0.99);
    let ordered: Vec<f64> = answers.score_answer("quality").unwrap().probabilities.iter().map(|r| value(*r)).collect();
    assert_eq!(ordered, vec![0.04, 0.73, 0.23]);
}

#[test]
fn native_replies_with_bad_legends_or_confidence_are_refused() {
    let mut reply = native_reply();
    if let NativeAnswer::Score { legend, .. } = &mut reply.answers[2].1 {
        legend.truncate(1);
    }
    assert!(matches!(
        reply.normalize(&vec![true, true, true]),
        Err(Error::InvalidResponse(m)) if m == "TypeSafe legend and probability indexes differ"
    ));
    assert!(matches!(
        native_reply().normalize(&vec![true, false, true]),
        Err(Error::InvalidResponse(m)) if m == "TypeSafe confidence must be between 0 and 1"
    ));
    assert!(native_reply().normalize(&vec![false, true, true]).is_ok());
}
