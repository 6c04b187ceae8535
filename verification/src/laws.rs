use vstd::prelude::*;

use crate::answer::{answer_for, first_with_id, kind_name, lemma_first_with_id_unique, AnswerView};
use crate::asking::{phase_after_start, started_as, Phase, Step};
use crate::config::Backend;
use crate::decode::{
    answer_outcome, decoding, first_answer_fault, question_answer, NumericChecks, WireAnswerView,
};
use crate::error::Error;
use crate::question::{encoding, first_option_fault, option_fault, QuestionView};
use crate::request::{
    bearer, first_question_fault, preparation, question_fault, questions_fields, questions_outcome,
};
use crate::json::JsonValue;
use crate::config::{ConfigView, SettingsView, Timeout};
use crate::decode::{has_key, value_at, Distribution};
use crate::native::{
    confidence_fields, first_native_fault, legend_fields, native_fault, normalized_as, NativeAnswerView,
    NativeUsage,
};
use crate::decode::{wire_entries, WireResponse};
use crate::answer::Usage;
use crate::question::{BoolQuestionView, ChoiceQuestionView, ScoreQuestionView};
use crate::text::{decimal, is_blank};

verus! {

/// No two questions share an ID.
pub open spec fn distinct_ids(qs: Seq<QuestionView>) -> bool {
    forall|i: int, j: int| 0 <= i < j < qs.len() ==> #[trigger] qs[i].id() != #[trigger] qs[j].id()
}

/// The kind of answer that a question asks for.
pub open spec fn question_kind(q: QuestionView) -> Seq<char> {
    match q {
        QuestionView::Bool(_) => "boolean"@,
        QuestionView::Choice(_) => "choice"@,
        QuestionView::Score(_) => "score"@,
    }
}

proof fn lemma_no_question_fault(qs: Seq<QuestionView>, backend: Backend, from: int, k: int)
    requires
        0 <= from <= k < qs.len(),
        first_question_fault(qs, backend, from) is None,
    ensures
        question_fault(qs, backend, k) is None,
    decreases k - from,
{
    if from < k {
        lemma_no_question_fault(qs, backend, from + 1, k);
    }
}

/// A request that is accepted has at least one question, no two with the same
/// ID, and each question valid on its own.
pub proof fn law_accepted_questions_are_valid_and_distinct(
    config: crate::config::ConfigView,
    state: Option<Result<JsonValue, ()>>,
    qs: Seq<QuestionView>,
)
    requires
        preparation(config, state, qs) is Ok,
    ensures
        qs.len() > 0,
        distinct_ids(qs),
        forall|k: int| 0 <= k < qs.len() ==> #[trigger] encoding(qs[k], config.backend) is Ok,
{
    assert(questions_outcome(qs, config.backend) is Ok);
    assert forall|i: int, j: int| 0 <= i < j < qs.len() implies #[trigger] qs[i].id() != #[trigger] qs[j].id() by {
        lemma_no_question_fault(qs, config.backend, 0, j);
    }
    assert forall|k: int| 0 <= k < qs.len() implies #[trigger] encoding(qs[k], config.backend) is Ok by {
        lemma_no_question_fault(qs, config.backend, 0, k);
    }
}

/// Every question of a request goes out in one request, with the state: the
/// body holds the state and an object with each question under its own ID,
/// encoded for the configuration's protocol. The request goes to the configured
/// endpoint, with the configured timeout, and carries the configured key as a
/// bearer credential.
pub proof fn law_one_request_carries_state_and_questions(
    config: crate::config::ConfigView,
    state: JsonValue,
    qs: Seq<QuestionView>,
)
    requires
        preparation(config, Some(Ok(state)), qs) is Ok,
    ensures
        ({
            let p = preparation(config, Some(Ok(state)), qs)->Ok_0;
            &&& p.body matches JsonValue::Object(fields) && {
                &&& exists|i: int| 0 <= i < fields.len() && #[trigger] fields[i] == ("state"@, state)
                &&& exists|i: int| 0 <= i < fields.len() && #[trigger] fields[i] == (
                    "questions"@,
                    JsonValue::Object(questions_fields(qs, config.backend)),
                )
            }
            &&& questions_fields(qs, config.backend).len() == qs.len()
            &&& forall|k: int| 0 <= k < qs.len() ==> (#[trigger] questions_fields(qs, config.backend)[k]).0
                == qs[k].id() && encoding(qs[k], config.backend) == Ok::<JsonValue, Seq<char>>(
                questions_fields(qs, config.backend)[k].1)
            &&& p.endpoint == config.settings.endpoint
            &&& p.timeout == config.settings.timeout
            &&& config.settings.api_key matches Some(key) && p.headers[0] == ("authorization"@, bearer(key))
        }),
{
    let p = preparation(config, Some(Ok(state)), qs)->Ok_0;
    let qf = questions_fields(qs, config.backend);
    law_accepted_questions_are_valid_and_distinct(config, Some(Ok(state)), qs);
    match p.body {
        JsonValue::Object(fields) => {
            match config.backend {
                Backend::Vercel => {
                    assert(fields[0] == ("state"@, state));
                    assert(fields[1] == ("questions"@, JsonValue::Object(qf)));
                },
                Backend::TypeSafe => {
                    assert(fields[1] == ("state"@, state));
                    assert(fields[2] == ("questions"@, JsonValue::Object(qf)));
                },
            }
        },
        _ => {},
    }
    assert forall|k: int| 0 <= k < qs.len() implies (#[trigger] qf[k]).0 == qs[k].id() && encoding(
        qs[k],
        config.backend,
    ) == Ok::<JsonValue, Seq<char>>(qf[k].1) by {
        assert(encoding(qs[k], config.backend) is Ok);
    }
}

proof fn lemma_fault_found(opts: Seq<(Seq<char>, Seq<char>)>, from: int, k: int)
    requires
        0 <= from <= k < opts.len(),
        option_fault(opts, k) is Some,
    ensures
        first_option_fault(opts, from) is Some,
    decreases k - from,
{
    if from < k && option_fault(opts, from) is None {
        lemma_fault_found(opts, from + 1, k);
    }
}

/// Two options with the same key are refused rather than one replacing the other.
pub proof fn law_duplicate_option_keys_are_refused(
    c: crate::question::ChoiceQuestionView,
    backend: Backend,
    i: int,
    j: int,
)
    requires
        0 <= i < j < c.options.len(),
        c.options[i].0 == c.options[j].0,
    ensures
        encoding(QuestionView::Choice(c), backend) is Err,
{
    assert(option_fault(c.options, j) is Some);
    lemma_fault_found(c.options, 0, j);
}

/// A request is validated and sent at most once: only a request still being
/// built is sent, and no start leads back to building.
pub proof fn law_sent_at_most_once(ph: Phase, step: Step)
    requires
        started_as(ph, step),
    ensures
        step is Send ==> ph is Building,
        !(phase_after_start(ph) is Building),
{
}

/// Once a request is over, every further start answers `AlreadyCompleted` and
/// leaves it over.
pub proof fn law_completed_stays_completed(step: Step)
    requires
        started_as(Phase::Done, step),
    ensures
        step matches Step::Finished(Error::AlreadyCompleted),
        phase_after_start(Phase::Done) is Done,
{
}

/// A request that cannot be prepared is over after its first start.
pub proof fn law_refused_requests_finish(ph: Phase, step: Step)
    requires
        ph is Building,
        started_as(ph, step),
        step is Finished,
    ensures
        phase_after_start(ph) is Done,
{
}

proof fn lemma_no_answer_fault(
    entries: Seq<(Seq<char>, WireAnswerView)>,
    checks: Seq<NumericChecks>,
    qs: Seq<QuestionView>,
    from: int,
    k: int,
)
    requires
        0 <= from <= k < qs.len(),
        first_answer_fault(entries, checks, qs, from) is None,
    ensures
        question_answer(entries, checks, qs, k) is Ok,
    decreases k - from,
{
    if from < k {
        lemma_no_answer_fault(entries, checks, qs, from + 1, k);
    }
}

/// The kind of answer that a wire answer holds.
pub open spec fn wire_kind(w: WireAnswerView) -> Seq<char> {
    match w {
        WireAnswerView::Bool(_) => "boolean"@,
        WireAnswerView::Choice(..) => "choice"@,
        WireAnswerView::Score(..) => "score"@,
    }
}

/// An accepted answer is of the kind its question asks for, which is the kind
/// the provider sent.
proof fn lemma_answer_kind(q: QuestionView, w: WireAnswerView, c: NumericChecks)
    requires
        answer_outcome(q, w, c) is Ok,
    ensures
        kind_name(answer_outcome(q, w, c)->Ok_0) == question_kind(q),
        question_kind(q) == wire_kind(w),
{
}

/// Some entry is the first to hold an ID that entry `k` holds.
proof fn lemma_first_with_id_exists(entries: Seq<(Seq<char>, AnswerView)>, id: Seq<char>, k: int)
    requires
        0 <= k < entries.len(),
        entries[k].0 == id,
    ensures
        exists|i: int| first_with_id(entries, id, i),
    decreases k,
{
    if exists|j: int| 0 <= j < k && #[trigger] entries[j].0 == id {
        let j = choose|j: int| 0 <= j < k && #[trigger] entries[j].0 == id;
        lemma_first_with_id_exists(entries, id, j);
    } else {
        assert(first_with_id(entries, id, k));
    }
}

/// In a validated response, every question asked has an answer under its ID,
/// of the kind it asks for; so typed access by the question's ID succeeds for
/// that kind and reports a type mismatch for the others.
pub proof fn law_every_question_answered_in_kind(
    wire: Seq<(Seq<char>, WireAnswerView)>,
    checks: Seq<NumericChecks>,
    qs: Seq<QuestionView>,
    k: int,
)
    requires
        decoding(wire, checks, qs) is Ok,
        0 <= k < qs.len(),
    ensures
        answer_for(decoding(wire, checks, qs)->Ok_0, qs[k].id()) matches Some(a) && kind_name(a)
            == question_kind(qs[k]),
{
    let entries = decoding(wire, checks, qs)->Ok_0;
    let id = qs[k].id();
    lemma_first_with_id_exists(entries, id, k);
    let j = choose|j: int| first_with_id(entries, id, j);
    lemma_first_with_id_unique(entries, id, j);
    lemma_no_answer_fault(wire, checks, qs, 0, k);
    lemma_no_answer_fault(wire, checks, qs, 0, j);
    let i = crate::decode::wire_index(wire, id)->0;
    assert(qs[j].id() == id);
    lemma_answer_kind(qs[k], wire[i].1, checks[i]);
    lemma_answer_kind(qs[j], wire[i].1, checks[i]);
}

/// In a validated response, an ID that no question has has no answer.
pub proof fn law_unasked_ids_are_not_found(
    wire: Seq<(Seq<char>, WireAnswerView)>,
    checks: Seq<NumericChecks>,
    qs: Seq<QuestionView>,
    id: Seq<char>,
)
    requires
        decoding(wire, checks, qs) is Ok,
        forall|k: int| 0 <= k < qs.len() ==> #[trigger] qs[k].id() != id,
    ensures
        answer_for(decoding(wire, checks, qs)->Ok_0, id) is None,
{
    let entries = decoding(wire, checks, qs)->Ok_0;
    assert forall|i: int| 0 <= i < entries.len() implies #[trigger] entries[i].0 != id by {
        assert(qs[i].id() != id);
    }
}


/// A validated answer stays within what its question declares: a choice is one
/// of the question's option keys, and its distribution, when given, has one
/// entry per option, every option among them; a score lies on the question's
/// scale, and its distribution, when given, has
/// one value per level.
pub proof fn law_answers_respect_declarations(q: QuestionView, w: WireAnswerView, c: NumericChecks)
    requires
        answer_outcome(q, w, c) is Ok,
    ensures
        match (q, answer_outcome(q, w, c)->Ok_0) {
            (QuestionView::Choice(cq), AnswerView::Choice(choice, p)) => {
                &&& exists|k: int| 0 <= k < cq.options.len() && #[trigger] cq.options[k].0 == choice
                &&& p.len() == 0 || (p.len() == cq.options.len() && forall|k: int|
                    0 <= k < cq.options.len() ==> crate::decode::has_key(p, #[trigger] cq.options[k].0))
            },
            (QuestionView::Score(sq), AnswerView::Score(_, p)) => {
                &&& c.score_ceiling matches Some(ceiling) && ceiling < sq.levels.len()
                &&& p.len() == 0 || p.len() == sq.levels.len()
            },
            (QuestionView::Bool(_), AnswerView::Bool(_)) => c.probability_in_range,
            _ => false,
        },
{
}


/// Some pair holds a key that the pairs have, with the number `value_at` gives.
proof fn lemma_value_at_found(p: Seq<(Seq<char>, u64)>, key: Seq<char>, k: int)
    requires
        0 <= k < p.len(),
        p[k].0 == key,
    ensures
        sent_under(p, key, value_at(p, key)),
    decreases k,
{
    if exists|j: int| 0 <= j < k && #[trigger] p[j].0 == key {
        let j = choose|j: int| 0 <= j < k && #[trigger] p[j].0 == key;
        lemma_value_at_found(p, key, j);
    } else {
        let i = choose|i: int| 0 <= i < p.len() && p[i].0 == key && forall|j: int| 0 <= j < i ==> #[trigger] p[j].0 != key;
        assert(0 <= k < p.len() && p[k].0 == key && forall|j: int| 0 <= j < k ==> #[trigger] p[j].0 != key);
        if i < k {
            assert(p[i].0 != key);
        } else if i > k {
            assert(p[k].0 != key);
        }
        assert(p[k].1 == value_at(p, key));
    }
}

/// An accepted choice answer is the provider's choice, unchanged, with the
/// provider's distribution, unchanged (empty when none was sent).
pub proof fn law_choice_answer_keeps_the_providers_choice(
    cq: ChoiceQuestionView,
    choice: Seq<char>,
    p: Option<Seq<(Seq<char>, u64)>>,
    c: NumericChecks,
)
    requires
        answer_outcome(QuestionView::Choice(cq), WireAnswerView::Choice(choice, p), c) is Ok,
    ensures
        answer_outcome(QuestionView::Choice(cq), WireAnswerView::Choice(choice, p), c) matches Ok(
            AnswerView::Choice(selected, dist),
        ) && selected == choice && match p {
            Some(pp) => dist == pp,
            None => dist.len() == 0,
        },
{
}

/// A choice answer is accepted exactly when the choice is a declared option and,
/// when a distribution is sent, it names every option once and its numbers pass.
pub proof fn law_choice_acceptance(
    cq: ChoiceQuestionView,
    choice: Seq<char>,
    p: Option<Seq<(Seq<char>, u64)>>,
    c: NumericChecks,
)
    ensures
        answer_outcome(QuestionView::Choice(cq), WireAnswerView::Choice(choice, p), c) is Ok <==> {
            &&& exists|k: int| 0 <= k < cq.options.len() && #[trigger] cq.options[k].0 == choice
            &&& p matches Some(pp) ==> {
                &&& pp.len() == cq.options.len()
                &&& forall|k: int| 0 <= k < cq.options.len() ==> has_key(pp, #[trigger] cq.options[k].0)
                &&& c.distribution == Distribution::Sound
                &&& c.selected_is_top
            }
        },
{
}

/// A score answer is accepted on the whole declared scale: a score whose ceiling
/// is any level index, the lowest included, is accepted when no distribution is
/// sent, and then the answer is that score. Where in the scale the score lies
/// changes nothing else: two in-scale ceilings give the same outcome.
pub proof fn law_in_scale_scores_are_accepted(
    sq: ScoreQuestionView,
    score: u64,
    p: Option<Seq<(Seq<char>, u64)>>,
    c: NumericChecks,
    other: u64,
)
    requires
        c.score_ceiling matches Some(k) && k < sq.levels.len(),
        other < sq.levels.len(),
    ensures
        p is None ==> answer_outcome(QuestionView::Score(sq), WireAnswerView::Score(score, p), c) == Ok::<
            AnswerView,
            Seq<char>,
        >(AnswerView::Score(score, Seq::empty())),
        answer_outcome(QuestionView::Score(sq), WireAnswerView::Score(score, p), c) == answer_outcome(
            QuestionView::Score(sq),
            WireAnswerView::Score(score, p),
            NumericChecks { score_ceiling: Some(other), ..c },
        ),
{
}

/// A score out of the declared scale (not finite, below zero, or above the top
/// level) is refused.
pub proof fn law_out_of_scale_scores_are_refused(
    sq: ScoreQuestionView,
    score: u64,
    p: Option<Seq<(Seq<char>, u64)>>,
    c: NumericChecks,
)
    requires
        !(c.score_ceiling matches Some(k) && k < sq.levels.len()),
    ensures
        answer_outcome(QuestionView::Score(sq), WireAnswerView::Score(score, p), c) is Err,
{
}

/// `dist` has `n` numbers, the `i`-th of them sent in `pairs` under the key
/// that spells `i`.
pub open spec fn in_level_order(pairs: Seq<(Seq<char>, u64)>, dist: Seq<u64>, n: nat) -> bool {
    &&& dist.len() == n
    &&& forall|i: int| 0 <= i < n ==> sent_under(pairs, decimal(i as nat), #[trigger] dist[i])
}

/// Some pair of `pairs` is `(key, v)`.
pub open spec fn sent_under(pairs: Seq<(Seq<char>, u64)>, key: Seq<char>, v: u64) -> bool {
    exists|j: int| 0 <= j < pairs.len() && #[trigger] pairs[j] == (key, v)
}

/// An accepted score answer keeps the provider's score, and its distribution,
/// when sent, has one number per level: the number the provider sent under that
/// level's index.
pub proof fn law_score_answer_in_level_order(
    sq: ScoreQuestionView,
    score: u64,
    p: Option<Seq<(Seq<char>, u64)>>,
    c: NumericChecks,
)
    requires
        answer_outcome(QuestionView::Score(sq), WireAnswerView::Score(score, p), c) is Ok,
    ensures
        answer_outcome(QuestionView::Score(sq), WireAnswerView::Score(score, p), c)->Ok_0 matches AnswerView::Score(s, _)
            && s == score,
        p is None ==> answer_outcome(QuestionView::Score(sq), WireAnswerView::Score(score, p), c)->Ok_0
            ->Score_1.len() == 0,
        p matches Some(pp) ==> in_level_order(
            pp,
            answer_outcome(QuestionView::Score(sq), WireAnswerView::Score(score, p), c)->Ok_0->Score_1,
            sq.levels.len(),
        ),
{
    if let Some(pp) = p {
        let n = sq.levels.len();
        let dist = answer_outcome(QuestionView::Score(sq), WireAnswerView::Score(score, p), c)->Ok_0->Score_1;
        assert(dist == Seq::new(n, |i: int| value_at(pp, decimal(i as nat))));
        assert(!exists|i: int| 0 <= i < n && !has_key(pp, #[trigger] decimal(i as nat)));
        assert forall|i: int| 0 <= i < n implies sent_under(pp, decimal(i as nat), #[trigger] dist[i]) by {
            assert(has_key(pp, decimal(i as nat)));
            assert(dist[i] == value_at(pp, decimal(i as nat)));
            let k = choose|k: int| 0 <= k < pp.len() && #[trigger] pp[k].0 == decimal(i as nat);
            lemma_value_at_found(pp, decimal(i as nat), k);
        }
        assert(dist.len() == n);
        assert(in_level_order(pp, dist, n));
        assert(answer_outcome(QuestionView::Score(sq), WireAnswerView::Score(score, p), c) == Ok::<
            AnswerView,
            Seq<char>,
        >(AnswerView::Score(score, dist)));
    } else {
        assert(answer_outcome(QuestionView::Score(sq), WireAnswerView::Score(score, p), c) == Ok::<
            AnswerView,
            Seq<char>,
        >(AnswerView::Score(score, Seq::empty())));
    }
}

/// A Boolean question whose ID, instructions and given criteria are not blank is
/// accepted. It is sent with its type and instructions, and each criterion that
/// is given goes, under its own key, into the criteria object, whether or not
/// the other is given; with no criterion, nothing else is sent.
pub proof fn law_boolean_criteria_are_sent_independently(b: BoolQuestionView, backend: Backend)
    requires
        !is_blank(b.id),
        !is_blank(b.instructions),
        b.when_true matches Some(d) ==> !is_blank(d),
        b.when_false matches Some(d) ==> !is_blank(d),
    ensures
        encoding(QuestionView::Bool(b), backend) matches Ok(JsonValue::Object(fields)) && {
            &&& fields.contains(("type"@, JsonValue::Str(match backend {
                Backend::Vercel => "boolean"@,
                Backend::TypeSafe => "noul"@,
            })))
            &&& fields.contains(("instructions"@, JsonValue::Str(b.instructions)))
            &&& (b.when_true is None && b.when_false is None) ==> fields.len() == 2
            &&& (b.when_true is Some || b.when_false is Some) ==> exists|cf: Seq<(Seq<char>, JsonValue)>| {
                &&& #[trigger] fields.contains(("criteria"@, JsonValue::Object(cf)))
                &&& b.when_true matches Some(d) ==> cf.contains(("true"@, JsonValue::Str(d)))
                &&& b.when_false matches Some(d) ==> cf.contains(("false"@, JsonValue::Str(d)))
            }
        },
{
    let fields = encoding(QuestionView::Bool(b), backend)->Ok_0->Object_0;
    assert(fields[0] == ("type"@, JsonValue::Str(match backend {
        Backend::Vercel => "boolean"@,
        Backend::TypeSafe => "noul"@,
    })));
    assert(fields[1] == ("instructions"@, JsonValue::Str(b.instructions)));
    if b.when_true is Some || b.when_false is Some {
        let cf = crate::question::bool_criteria(b);
        assert(fields[2] == ("criteria"@, JsonValue::Object(cf)));
        assert(fields.contains(("criteria"@, JsonValue::Object(cf))));
        if let Some(d) = b.when_true {
            assert(cf[0] == ("true"@, JsonValue::Str(d)));
        }
        if let Some(d) = b.when_false {
            if b.when_true is Some {
                assert(cf[1] == ("false"@, JsonValue::Str(d)));
            } else {
                assert(cf[0] == ("false"@, JsonValue::Str(d)));
            }
        }
    }
}

/// A configuration with its timeout replaced.
pub open spec fn with_timeout_view(cfg: ConfigView, t: Timeout) -> ConfigView {
    ConfigView { settings: SettingsView { timeout: t, ..cfg.settings }, ..cfg }
}

/// Only a zero timeout is refused: any two nonzero timeouts lead to the same
/// outcome, the prepared request carrying the timeout it was given, and a zero
/// timeout is refused.
pub proof fn law_only_zero_timeouts_are_refused(
    cfg: ConfigView,
    state: Option<Result<JsonValue, ()>>,
    qs: Seq<QuestionView>,
    t1: Timeout,
    t2: Timeout,
)
    requires
        t1.secs != 0 || t1.nanos != 0,
        t2.secs != 0 || t2.nanos != 0,
    ensures
        match (
            preparation(with_timeout_view(cfg, t1), state, qs),
            preparation(with_timeout_view(cfg, t2), state, qs),
        ) {
            (Ok(a), Ok(b)) => a.timeout == t1 && b.timeout == t2 && a == (crate::request::PreparedView {
                timeout: t1,
                ..b
            }),
            (Err(x), Err(y)) => x == y,
            _ => false,
        },
        preparation(with_timeout_view(cfg, Timeout { secs: 0, nanos: 0 }), state, qs) is Err,
{
}

/// Normalizing a native response keeps every answer under its ID and in its
/// place: a noul becomes the Boolean answer with the same probability, and a
/// choice or a score keeps its value and its whole distribution.
pub proof fn law_normalized_answers_keep_their_distributions(
    r: Result<WireResponse, Error>,
    model: Seq<char>,
    answers: Seq<(Seq<char>, NativeAnswerView)>,
    oks: Seq<bool>,
    usage: NativeUsage,
)
    requires
        normalized_as(r, model, answers, oks, usage),
        r is Ok,
    ensures
        wire_entries(r->Ok_0.answers@).len() == answers.len(),
        forall|j: int| 0 <= j < answers.len() ==> {
            let w = #[trigger] wire_entries(r->Ok_0.answers@)[j];
            &&& w.0 == answers[j].0
            &&& match answers[j].1 {
                NativeAnswerView::Noul(pr) => w.1 == WireAnswerView::Bool(pr),
                NativeAnswerView::Choice(ch, p, _) => w.1 == WireAnswerView::Choice(ch, Some(p)),
                NativeAnswerView::Score(s, p, _, _) => w.1 == WireAnswerView::Score(s, Some(p)),
            }
        },
{
    let w = wire_entries(r->Ok_0.answers@);
    assert forall|j: int| 0 <= j < answers.len() implies {
        let e = #[trigger] w[j];
        &&& e.0 == answers[j].0
        &&& match answers[j].1 {
            NativeAnswerView::Noul(pr) => e.1 == WireAnswerView::Bool(pr),
            NativeAnswerView::Choice(ch, p, _) => e.1 == WireAnswerView::Choice(ch, Some(p)),
            NativeAnswerView::Score(s, p, _, _) => e.1 == WireAnswerView::Score(s, Some(p)),
        }
    } by {
        assert(w[j] == (answers[j].0, crate::native::common_answer(answers[j].1)));
    }
}


/// The confidence that a native answer carries: none for a noul.
pub open spec fn confidence_of(a: NativeAnswerView) -> Option<Seq<char>> {
    match a {
        NativeAnswerView::Noul(_) => None,
        NativeAnswerView::Choice(_, _, c) => Some(c),
        NativeAnswerView::Score(_, _, c, _) => Some(c),
    }
}

/// The confidence of every native answer that carries one is reported under
/// the answer's ID.
pub proof fn law_every_confidence_is_reported(answers: Seq<(Seq<char>, NativeAnswerView)>, j: int)
    requires
        0 <= j < answers.len(),
        confidence_of(answers[j].1) is Some,
    ensures
        confidence_fields(answers).contains((answers[j].0, JsonValue::Number(confidence_of(answers[j].1)->0))),
    decreases answers.len(),
{
    let x = (answers[j].0, JsonValue::Number(confidence_of(answers[j].1)->0));
    let rest = confidence_fields(answers.drop_last());
    let all = confidence_fields(answers);
    if j == answers.len() - 1 {
        assert(all.last() == x);
        assert(all[all.len() - 1] == x);
    } else {
        assert(answers.drop_last()[j] == answers[j]);
        law_every_confidence_is_reported(answers.drop_last(), j);
        let i = choose|i: int| 0 <= i < rest.len() && rest[i] == x;
        assert(all[i] == x);
    }
}

/// No confidence is reported that a native answer did not carry.
pub proof fn law_no_confidence_is_invented(answers: Seq<(Seq<char>, NativeAnswerView)>, f: (Seq<char>, JsonValue))
    requires
        confidence_fields(answers).contains(f),
    ensures
        exists|j: int| 0 <= j < answers.len() && (#[trigger] answers[j]).0 == f.0
            && confidence_of(answers[j].1) is Some && f.1 == JsonValue::Number(confidence_of(answers[j].1)->0),
    decreases answers.len(),
{
    let n = answers.len();
    let rest = confidence_fields(answers.drop_last());
    let all = confidence_fields(answers);
    let i = choose|i: int| 0 <= i < all.len() && all[i] == f;
    if i < rest.len() && rest[i] == f {
        assert(rest.contains(f));
        law_no_confidence_is_invented(answers.drop_last(), f);
        let j = choose|j: int| 0 <= j < answers.drop_last().len() && (#[trigger] answers.drop_last()[j]).0 == f.0
            && confidence_of(answers.drop_last()[j].1) is Some && f.1 == JsonValue::Number(
            confidence_of(answers.drop_last()[j].1)->0);
        assert(answers.drop_last()[j] == answers[j]);
    } else {
        assert(answers[n - 1].0 == f.0);
    }
}

/// The legend of every native score answer is reported under the answer's ID,
/// each level label under its index.
pub proof fn law_every_legend_is_reported(answers: Seq<(Seq<char>, NativeAnswerView)>, j: int)
    requires
        0 <= j < answers.len(),
        answers[j].1 is Score,
    ensures
        exists|labels: Seq<(Seq<char>, JsonValue)>| {
            &&& #[trigger] legend_fields(answers).contains((answers[j].0, JsonValue::Object(labels)))
            &&& labels.len() == answers[j].1->Score_3.len()
            &&& forall|i: int| 0 <= i < labels.len() ==> #[trigger] labels[i] == (
                answers[j].1->Score_3[i].0,
                JsonValue::Str(answers[j].1->Score_3[i].1),
            )
        },
    decreases answers.len(),
{
    let legend = answers[j].1->Score_3;
    let labels = legend.map_values(|l: (Seq<char>, Seq<char>)| (l.0, JsonValue::Str(l.1)));
    let x = (answers[j].0, JsonValue::Object(labels));
    let rest = legend_fields(answers.drop_last());
    let all = legend_fields(answers);
    if j == answers.len() - 1 {
        assert(all[all.len() - 1] == x);
        assert(all.contains(x));
        assert(forall|i: int| 0 <= i < labels.len() ==> #[trigger] labels[i] == (legend[i].0, JsonValue::Str(legend[i].1)));
    } else {
        assert(answers.drop_last()[j] == answers[j]);
        law_every_legend_is_reported(answers.drop_last(), j);
        let ls = choose|ls: Seq<(Seq<char>, JsonValue)>| {
            &&& #[trigger] rest.contains((answers[j].0, JsonValue::Object(ls)))
            &&& ls.len() == legend.len()
            &&& forall|i: int| 0 <= i < ls.len() ==> #[trigger] ls[i] == (legend[i].0, JsonValue::Str(legend[i].1))
        };
        let i = choose|i: int| 0 <= i < rest.len() && rest[i] == (answers[j].0, JsonValue::Object(ls));
        assert(all[i] == (answers[j].0, JsonValue::Object(ls)));
        assert(all.contains((answers[j].0, JsonValue::Object(ls))));
    }
}

/// A normalized native response reports, under `typesafe`, the model that
/// answered, the confidences and the legends; it keeps the token counts, adds
/// no warnings, and declares the numbers rounded to hundredths.
pub proof fn law_normalized_metadata_and_usage(
    r: Result<WireResponse, Error>,
    model: Seq<char>,
    answers: Seq<(Seq<char>, NativeAnswerView)>,
    oks: Seq<bool>,
    usage: NativeUsage,
)
    requires
        normalized_as(r, model, answers, oks, usage),
        r is Ok,
    ensures
        ({
            let m = r->Ok_0.provider_metadata.value();
            &&& m is Object
            &&& m->Object_0.len() == 1
            &&& m->Object_0[0].0 == "typesafe"@
            &&& m->Object_0[0].1 is Object
            &&& m->Object_0[0].1->Object_0.contains(("model"@, JsonValue::Str(model)))
            &&& m->Object_0[0].1->Object_0.contains(("confidence"@, JsonValue::Object(confidence_fields(answers))))
            &&& m->Object_0[0].1->Object_0.contains(("legend"@, JsonValue::Object(legend_fields(answers))))
        }),
        r->Ok_0.usage == Some(Usage { input_tokens: Some(usage.input_tokens), output_tokens: Some(usage.output_tokens) }),
        r->Ok_0.warnings@.len() == 0,
        r->Ok_0.rounding.probability_decimals == Some(2u32),
        r->Ok_0.rounding.score_decimals == Some(2u32),
{
    let top = r->Ok_0.provider_metadata.value()->Object_0;
    let ts = top[0].1->Object_0;
    assert(ts[0] == ("model"@, JsonValue::Str(model)));
    assert(ts[1] == ("confidence"@, JsonValue::Object(confidence_fields(answers))));
    assert(ts[2] == ("legend"@, JsonValue::Object(legend_fields(answers))));
}

/// A Boolean answer is accepted exactly when its probability is in range, and
/// it is then the provider's probability of `true`.
pub proof fn law_boolean_answer_is_the_providers_probability(b: crate::question::BoolQuestionView, p: u64, c: NumericChecks)
    ensures
        answer_outcome(QuestionView::Bool(b), WireAnswerView::Bool(p), c) is Ok <==> c.probability_in_range,
        c.probability_in_range ==> answer_outcome(QuestionView::Bool(b), WireAnswerView::Bool(p), c)
            == Ok::<AnswerView, Seq<char>>(AnswerView::Bool(p)),
{
}

/// An answer of another kind than its question asks for is refused.
pub proof fn law_answers_of_another_kind_are_refused(q: QuestionView, w: WireAnswerView, c: NumericChecks)
    requires
        question_kind(q) != wire_kind(w),
    ensures
        answer_outcome(q, w, c) is Err,
{
    if answer_outcome(q, w, c) is Ok {
        lemma_answer_kind(q, w, c);
    }
}

/// Some wire answer with ID `id`, when there is one.
spec fn k_wire(wire: Seq<(Seq<char>, WireAnswerView)>, id: Seq<char>) -> int {
    choose|i: int| 0 <= i < wire.len() && #[trigger] wire[i].0 == id
}

proof fn lemma_first_wire_exists(wire: Seq<(Seq<char>, WireAnswerView)>, id: Seq<char>, k: int)
    requires
        0 <= k < wire.len(),
        wire[k].0 == id,
    ensures
        exists|i: int| crate::decode::first_wire(wire, id, i),
    decreases k,
{
    if exists|j: int| 0 <= j < k && #[trigger] wire[j].0 == id {
        let j = choose|j: int| 0 <= j < k && #[trigger] wire[j].0 == id;
        lemma_first_wire_exists(wire, id, j);
    } else {
        assert(crate::decode::first_wire(wire, id, k));
    }
}

/// A validated response has exactly one answer per question, in question order,
/// each under its question's ID and taken from a provider answer with that ID.
pub proof fn law_decoded_answers_follow_the_questions(
    wire: Seq<(Seq<char>, WireAnswerView)>,
    checks: Seq<NumericChecks>,
    qs: Seq<QuestionView>,
)
    requires
        decoding(wire, checks, qs) is Ok,
    ensures
        wire.len() == qs.len(),
        decoding(wire, checks, qs)->Ok_0.len() == qs.len(),
        forall|k: int| 0 <= k < qs.len() ==> {
            let e = #[trigger] decoding(wire, checks, qs)->Ok_0[k];
            &&& e.0 == qs[k].id()
            &&& exists|i: int| 0 <= i < wire.len() && wire[i].0 == qs[k].id()
                && #[trigger] answer_outcome(qs[k], wire[i].1, checks[i]) == Ok::<AnswerView, Seq<char>>(e.1)
        },
{
    let entries = decoding(wire, checks, qs)->Ok_0;
    assert forall|k: int| 0 <= k < qs.len() implies {
        let e = #[trigger] entries[k];
        &&& e.0 == qs[k].id()
        &&& exists|i: int| 0 <= i < wire.len() && wire[i].0 == qs[k].id()
            && #[trigger] answer_outcome(qs[k], wire[i].1, checks[i]) == Ok::<AnswerView, Seq<char>>(e.1)
    } by {
        lemma_no_answer_fault(wire, checks, qs, 0, k);
        let i = crate::decode::wire_index(wire, qs[k].id())->0;
        assert(wire[k_wire(wire, qs[k].id())].0 == qs[k].id());
        lemma_first_wire_exists(wire, qs[k].id(), k_wire(wire, qs[k].id()));
        assert(crate::decode::first_wire(wire, qs[k].id(), i));
        assert(answer_outcome(qs[k], wire[i].1, checks[i]) == Ok::<AnswerView, Seq<char>>(entries[k].1));
    }
}


/// A score answer is accepted exactly when its score is on the declared scale
/// and, when a distribution is sent, it has one number per level under each
/// level's index, its numbers pass, and its mean matches the score.
pub proof fn law_score_acceptance(
    sq: ScoreQuestionView,
    score: u64,
    p: Option<Seq<(Seq<char>, u64)>>,
    c: NumericChecks,
)
    ensures
        answer_outcome(QuestionView::Score(sq), WireAnswerView::Score(score, p), c) is Ok <==> {
            &&& c.score_ceiling matches Some(k) && k < sq.levels.len()
            &&& p matches Some(pp) ==> {
                &&& pp.len() == sq.levels.len()
                &&& forall|i: int| 0 <= i < sq.levels.len() ==> has_key(pp, #[trigger] decimal(i as nat))
                &&& c.distribution == Distribution::Sound
                &&& c.mean_matches
            }
        },
{
}

/// Whether a native answer may be normalized: its confidence, if it carries
/// one, is in range, and a score's legend labels exactly the indexes of its
/// distribution, one label per index.
pub open spec fn native_answer_sound(a: NativeAnswerView, confidence_in_range: bool) -> bool {
    &&& confidence_of(a) is Some ==> confidence_in_range
    &&& a matches NativeAnswerView::Score(_, p, _, legend) ==> {
        &&& legend.len() == p.len()
        &&& forall|i: int| 0 <= i < legend.len() ==> has_key(p, #[trigger] legend[i].0)
    }
}

proof fn lemma_native_fault_is_unsoundness(a: NativeAnswerView, ok: bool)
    ensures
        native_fault(a, ok) is None <==> native_answer_sound(a, ok),
{
}

proof fn lemma_native_faults_found(answers: Seq<(Seq<char>, NativeAnswerView)>, oks: Seq<bool>, k: int)
    requires
        0 <= k <= answers.len(),
    ensures
        first_native_fault(answers, oks, k) is None <==> forall|j: int|
            k <= j < answers.len() ==> #[trigger] native_fault(answers[j].1, oks[j]) is None,
    decreases answers.len() - k,
{
    if k < answers.len() {
        lemma_native_faults_found(answers, oks, k + 1);
    }
}

/// A native response is normalized exactly when every answer may be: none is
/// refused that is sound, and none is accepted that is not.
pub proof fn law_native_acceptance(
    r: Result<WireResponse, Error>,
    model: Seq<char>,
    answers: Seq<(Seq<char>, NativeAnswerView)>,
    oks: Seq<bool>,
    usage: NativeUsage,
)
    requires
        normalized_as(r, model, answers, oks, usage),
        oks.len() == answers.len(),
    ensures
        r is Ok <==> forall|j: int| 0 <= j < answers.len() ==> native_answer_sound(#[trigger] answers[j].1, oks[j]),
{
    lemma_native_faults_found(answers, oks, 0);
    assert forall|j: int| 0 <= j < answers.len() implies (native_fault(answers[j].1, oks[j]) is None
        <==> native_answer_sound(#[trigger] answers[j].1, oks[j])) by {
        lemma_native_fault_is_unsoundness(answers[j].1, oks[j]);
    }
}


proof fn lemma_option_faults_found(opts: Seq<(Seq<char>, Seq<char>)>, k: int)
    requires
        0 <= k <= opts.len(),
    ensures
        first_option_fault(opts, k) is None <==> forall|j: int| k <= j < opts.len() ==> #[trigger] option_fault(opts, j) is None,
    decreases opts.len() - k,
{
    if k < opts.len() {
        lemma_option_faults_found(opts, k + 1);
    }
}

/// A choice question is accepted exactly when its ID and instructions are not
/// blank, it has an option, no option key or description is blank, and no two
/// options share a key. It is then sent with its type, its instructions, and a
/// criteria object holding every option's description under its key, in order.
pub proof fn law_choice_question_encoding(cq: ChoiceQuestionView, backend: Backend)
    ensures
        encoding(QuestionView::Choice(cq), backend) is Ok <==> {
            &&& !is_blank(cq.id)
            &&& !is_blank(cq.instructions)
            &&& cq.options.len() > 0
            &&& forall|k: int| 0 <= k < cq.options.len() ==> !is_blank(#[trigger] cq.options[k].0)
                && !is_blank(cq.options[k].1)
            &&& forall|i: int, j: int| 0 <= i < j < cq.options.len() ==> #[trigger] cq.options[i].0
                != #[trigger] cq.options[j].0
        },
        encoding(QuestionView::Choice(cq), backend) is Ok ==> ({
            let fields = encoding(QuestionView::Choice(cq), backend)->Ok_0->Object_0;
            &&& encoding(QuestionView::Choice(cq), backend)->Ok_0 is Object
            &&& fields.contains(("type"@, JsonValue::Str("choice"@)))
            &&& fields.contains(("instructions"@, JsonValue::Str(cq.instructions)))
            &&& exists|cf: Seq<(Seq<char>, JsonValue)>| {
                &&& #[trigger] fields.contains(("criteria"@, JsonValue::Object(cf)))
                &&& cf.len() == cq.options.len()
                &&& forall|k: int| 0 <= k < cf.len() ==> #[trigger] cf[k] == (cq.options[k].0, JsonValue::Str(cq.options[k].1))
            }
        }),
{
    let opts = cq.options;
    lemma_option_faults_found(opts, 0);
    let valid = {
        &&& forall|k: int| 0 <= k < opts.len() ==> !is_blank(#[trigger] opts[k].0) && !is_blank(opts[k].1)
        &&& forall|i: int, j: int| 0 <= i < j < opts.len() ==> #[trigger] opts[i].0 != #[trigger] opts[j].0
    };
    if valid {
        assert forall|k: int| 0 <= k < opts.len() implies #[trigger] option_fault(opts, k) is None by {
            assert(!is_blank(opts[k].0));
            if exists|j: int| 0 <= j < k && #[trigger] opts[j].0 == opts[k].0 {
                let j = choose|j: int| 0 <= j < k && #[trigger] opts[j].0 == opts[k].0;
                assert(opts[j].0 != opts[k].0);
            }
        }
    }
    if forall|k: int| 0 <= k < opts.len() ==> #[trigger] option_fault(opts, k) is None {
        assert forall|k: int| 0 <= k < opts.len() implies !is_blank(#[trigger] opts[k].0) && !is_blank(opts[k].1) by {
            assert(option_fault(opts, k) is None);
        }
        assert forall|i: int, j: int| 0 <= i < j < opts.len() implies #[trigger] opts[i].0 != #[trigger] opts[j].0 by {
            assert(option_fault(opts, j) is None);
        }
    }
    if encoding(QuestionView::Choice(cq), backend) is Ok {
        let fields = encoding(QuestionView::Choice(cq), backend)->Ok_0->Object_0;
        let cf = opts.map_values(|o: (Seq<char>, Seq<char>)| (o.0, JsonValue::Str(o.1)));
        assert(fields[0] == ("type"@, JsonValue::Str("choice"@)));
        assert(fields[1] == ("instructions"@, JsonValue::Str(cq.instructions)));
        assert(fields[2] == ("criteria"@, JsonValue::Object(cf)));
        assert(fields.contains(("criteria"@, JsonValue::Object(cf))));
    }
}

/// A score question is accepted exactly when its ID and instructions are not
/// blank and it has at least two levels, none blank. It is then sent with its
/// type, its instructions, and its level descriptions as an array, lowest first.
pub proof fn law_score_question_encoding(sq: ScoreQuestionView, backend: Backend)
    ensures
        encoding(QuestionView::Score(sq), backend) is Ok <==> {
            &&& !is_blank(sq.id)
            &&& !is_blank(sq.instructions)
            &&& sq.levels.len() >= 2
            &&& forall|i: int| 0 <= i < sq.levels.len() ==> !is_blank(#[trigger] sq.levels[i])
        },
        encoding(QuestionView::Score(sq), backend) is Ok ==> ({
            let fields = encoding(QuestionView::Score(sq), backend)->Ok_0->Object_0;
            &&& encoding(QuestionView::Score(sq), backend)->Ok_0 is Object
            &&& fields.contains(("type"@, JsonValue::Str("score"@)))
            &&& fields.contains(("instructions"@, JsonValue::Str(sq.instructions)))
            &&& exists|items: Seq<JsonValue>| {
                &&& #[trigger] fields.contains(("criteria"@, JsonValue::Array(items)))
                &&& items.len() == sq.levels.len()
                &&& forall|i: int| 0 <= i < items.len() ==> #[trigger] items[i] == JsonValue::Str(sq.levels[i])
            }
        }),
{
    if encoding(QuestionView::Score(sq), backend) is Ok {
        let fields = encoding(QuestionView::Score(sq), backend)->Ok_0->Object_0;
        let items = sq.levels.map_values(|l: Seq<char>| JsonValue::Str(l));
        assert(fields[0] == ("type"@, JsonValue::Str("score"@)));
        assert(fields[1] == ("instructions"@, JsonValue::Str(sq.instructions)));
        assert(fields[2] == ("criteria"@, JsonValue::Array(items)));
        assert(fields.contains(("criteria"@, JsonValue::Array(items))));
    }
}

/// A Boolean question is refused exactly when its ID, its instructions, or a
/// criterion that is given is blank.
pub proof fn law_boolean_question_acceptance(b: BoolQuestionView, backend: Backend)
    ensures
        encoding(QuestionView::Bool(b), backend) is Ok <==> {
            &&& !is_blank(b.id)
            &&& !is_blank(b.instructions)
            &&& b.when_true matches Some(d) ==> !is_blank(d)
            &&& b.when_false matches Some(d) ==> !is_blank(d)
        },
{
}


proof fn lemma_question_faults_found(qs: Seq<QuestionView>, backend: Backend, k: int)
    requires
        0 <= k <= qs.len(),
    ensures
        first_question_fault(qs, backend, k) is None <==> forall|j: int|
            k <= j < qs.len() ==> #[trigger] question_fault(qs, backend, j) is None,
    decreases qs.len() - k,
{
    if k < qs.len() {
        lemma_question_faults_found(qs, backend, k + 1);
    }
}

/// A request is accepted exactly when: its state is a nonempty string, object
/// or array; it has a question, every question is valid and no two share an ID;
/// a key is given that is not blank and fits an HTTP header as a bearer
/// credential; the model is not blank (and, for the gateway, fits a header);
/// the endpoint is an HTTP(S) URL with a host and no user credentials; and the
/// timeout is not zero. An accepted request to the native protocol names its
/// model in the body and sends only the credential header; one to the gateway
/// sends the protocol headers and the model as `ai-model-id`.
pub proof fn law_request_acceptance(cfg: ConfigView, state: Option<Result<JsonValue, ()>>, qs: Seq<QuestionView>)
    ensures
        preparation(cfg, state, qs) is Ok <==> {
            &&& state matches Some(Ok(v)) && match v {
                JsonValue::Str(text) => !is_blank(text),
                JsonValue::Object(fields) => fields.len() > 0,
                JsonValue::Array(items) => items.len() > 0,
                _ => false,
            }
            &&& qs.len() > 0
            &&& distinct_ids(qs)
            &&& forall|k: int| 0 <= k < qs.len() ==> #[trigger] encoding(qs[k], cfg.backend) is Ok
            &&& cfg.settings.api_key matches Some(key) && !is_blank(key) && crate::text::is_header_value(bearer(key))
            &&& !is_blank(cfg.settings.model)
            &&& cfg.backend == Backend::Vercel ==> crate::text::is_header_value(cfg.settings.model)
            &&& crate::endpoint::parsed_endpoint(cfg.settings.endpoint) matches Some(parts) && {
                &&& parts.0 == "http"@ || parts.0 == "https"@
                &&& parts.1 is Some
                &&& parts.2.len() == 0
                &&& parts.3 is None
            }
            &&& cfg.settings.timeout.secs != 0 || cfg.settings.timeout.nanos != 0
        },
        preparation(cfg, state, qs) is Ok ==> ({
            let p = preparation(cfg, state, qs)->Ok_0;
            match cfg.backend {
                Backend::TypeSafe => {
                    &&& p.headers == seq![("authorization"@, bearer(cfg.settings.api_key->0))]
                    &&& p.body matches JsonValue::Object(fields) && fields.contains(
                        ("model"@, JsonValue::Str(cfg.settings.model)),
                    )
                },
                Backend::Vercel => {
                    &&& p.headers.len() == 5
                    &&& p.headers[0] == ("authorization"@, bearer(cfg.settings.api_key->0))
                    &&& p.headers.contains(("ai-model-id"@, cfg.settings.model))
                    &&& p.headers.contains(("ai-gateway-auth-method"@, "api-key"@))
                    &&& p.headers.contains(("ai-gateway-protocol-version"@, "0.0.1"@))
                    &&& p.headers.contains(("ai-evaluation-model-specification-version"@, "4"@))
                },
            }
        }),
{
    let b = cfg.backend;
    lemma_question_faults_found(qs, b, 0);
    if qs.len() > 0 && distinct_ids(qs) && forall|k: int| 0 <= k < qs.len() ==> #[trigger] encoding(qs[k], b) is Ok {
        assert forall|k: int| 0 <= k < qs.len() implies #[trigger] question_fault(qs, b, k) is None by {
            assert(encoding(qs[k], b) is Ok);
            if exists|j: int| 0 <= j < k && #[trigger] qs[j].id() == qs[k].id() {
                let j = choose|j: int| 0 <= j < k && #[trigger] qs[j].id() == qs[k].id();
                assert(qs[j].id() != qs[k].id());
            }
        }
    }
    if preparation(cfg, state, qs) is Ok {
        law_accepted_questions_are_valid_and_distinct(cfg, state, qs);
        let p = preparation(cfg, state, qs)->Ok_0;
        match b {
            Backend::TypeSafe => {
                let fields = p.body->Object_0;
                assert(fields[0] == ("model"@, JsonValue::Str(cfg.settings.model)));
            },
            Backend::Vercel => {
                assert(p.headers[1] == ("ai-gateway-auth-method"@, "api-key"@));
                assert(p.headers[2] == ("ai-gateway-protocol-version"@, "0.0.1"@));
                assert(p.headers[3] == ("ai-evaluation-model-specification-version"@, "4"@));
                assert(p.headers[4] == ("ai-model-id"@, cfg.settings.model));
            },
        }
    }
}


/// Decoding a response refuses it exactly when validation refuses it, with an
/// invalid-response error; an accepted response keeps the provider's metadata,
/// usage and warnings unchanged, never made up.
pub proof fn law_decoding_passes_provider_data_through(
    r: Result<crate::answer::Answers, Error>,
    wire: Seq<(Seq<char>, WireAnswerView)>,
    checks: Seq<NumericChecks>,
    qs: Seq<QuestionView>,
    metadata: JsonValue,
    usage: Option<Usage>,
    warnings: Seq<JsonValue>,
)
    requires
        crate::decode::decoded_as(r, decoding(wire, checks, qs), metadata, usage, warnings),
    ensures
        r is Ok <==> decoding(wire, checks, qs) is Ok,
        r is Err ==> r->Err_0 is InvalidResponse,
        r is Ok ==> {
            &&& r->Ok_0@.entries == decoding(wire, checks, qs)->Ok_0
            &&& r->Ok_0@.metadata == metadata
            &&& r->Ok_0@.usage == usage
            &&& r->Ok_0@.warnings == warnings
        },
{
}

} // verus!
