use vstd::prelude::*;

use crate::answer::{
    entry_views, pair_texts, real_bits, Answer, AnswerView, Answers, BoolAnswer, ChoiceAnswer,
    Real, ScoreAnswer, Usage,
};
use crate::error::Error;
use crate::json::{Json, JsonValue};
use crate::question::{Question, QuestionView};
use crate::text::{decimal, same_text, spells_decimal};

verus! {

/// One answer as the provider sent it.
#[derive(Debug)]
pub enum WireAnswer {
    Bool { probability: Real },
    Choice { choice: String, probabilities: Option<Vec<(String, Real)>> },
    Score { score: Real, probabilities: Option<Vec<(String, Real)>> },
}

/// The rounding that the provider declares for its numbers.
#[derive(Clone, Copy, Debug, PartialEq, Eq, Structural)]
pub struct Rounding {
    pub probability_decimals: Option<u32>,
    pub score_decimals: Option<u32>,
}

/// An evaluation response as the provider sent it: answers by question ID.
#[derive(Debug)]
pub struct WireResponse {
    pub answers: Vec<(String, WireAnswer)>,
    pub provider_metadata: Json,
    pub usage: Option<Usage>,
    pub warnings: Vec<Json>,
    pub rounding: Rounding,
}

/// The verdict on a distribution: whether each probability is finite and in
/// `[0, 1]`, and whether they sum to one within the declared rounding.
#[derive(Clone, Copy, Debug, PartialEq, Eq, Structural)]
pub enum Distribution {
    Sound,
    ProbabilityOutOfRange,
    SumMismatch,
}

/// What the numbers of one wire answer are found to be. These are decisions on
/// floating-point values, made by the caller; the order in which they are
/// consulted, and what each leads to, is decided here.
#[derive(Clone, Copy, Debug, PartialEq, Eq, Structural)]
pub struct NumericChecks {
    /// A Boolean answer's probability is finite and in `[0, 1]`.
    pub probability_in_range: bool,
    /// The verdict on the answer's distribution (for a score, taken in level order).
    pub distribution: Distribution,
    /// No probability of a choice exceeds that of the selected key by more than the tolerance.
    pub selected_is_top: bool,
    /// `None` when a score is not finite or below zero; otherwise the least
    /// integer at or above it (saturated).
    pub score_ceiling: Option<u64>,
    /// A score is within the tolerance of its distribution's mean.
    pub mean_matches: bool,
}

/// What a wire answer holds, numbers by their bit patterns.
pub enum WireAnswerView {
    Bool(u64),
    Choice(Seq<char>, Option<Seq<(Seq<char>, u64)>>),
    Score(u64, Option<Seq<(Seq<char>, u64)>>),
}

pub open spec fn optional_pairs(p: Option<Vec<(String, Real)>>) -> Option<Seq<(Seq<char>, u64)>> {
    match p {
        Some(v) => Some(pair_texts(v@)),
        None => None,
    }
}

impl View for WireAnswer {
    type V = WireAnswerView;

    open spec fn view(&self) -> WireAnswerView {
        match self {
            WireAnswer::Bool { probability } => WireAnswerView::Bool(probability.bits),
            WireAnswer::Choice { choice, probabilities } => WireAnswerView::Choice(choice@, optional_pairs(*probabilities)),
            WireAnswer::Score { score, probabilities } => WireAnswerView::Score(score.bits, optional_pairs(*probabilities)),
        }
    }
}

/// The views of the wire answers, by ID.
pub open spec fn wire_entries(answers: Seq<(String, WireAnswer)>) -> Seq<(Seq<char>, WireAnswerView)> {
    answers.map_values(|a: (String, WireAnswer)| (a.0@, a.1@))
}

/// Whether `i` is the first wire answer with ID `id`.
pub open spec fn first_wire(entries: Seq<(Seq<char>, WireAnswerView)>, id: Seq<char>, i: int) -> bool {
    &&& 0 <= i < entries.len()
    &&& entries[i].0 == id
    &&& forall|j: int| 0 <= j < i ==> #[trigger] entries[j].0 != id
}

/// The index of the wire answer to the question with ID `id`.
pub open spec fn wire_index(entries: Seq<(Seq<char>, WireAnswerView)>, id: Seq<char>) -> Option<int> {
    if exists|i: int| 0 <= i < entries.len() && #[trigger] entries[i].0 == id {
        Some(choose|i: int| first_wire(entries, id, i))
    } else {
        None
    }
}

/// Whether some pair has key `key`.
pub open spec fn has_key(pairs: Seq<(Seq<char>, u64)>, key: Seq<char>) -> bool {
    exists|i: int| 0 <= i < pairs.len() && #[trigger] pairs[i].0 == key
}

/// The number of the first pair with key `key`.
pub open spec fn value_at(pairs: Seq<(Seq<char>, u64)>, key: Seq<char>) -> u64 {
    pairs[choose|i: int| 0 <= i < pairs.len() && pairs[i].0 == key && forall|j: int| 0 <= j < i ==> #[trigger] pairs[j].0 != key].1
}

/// The message for a distribution verdict other than `Sound`.
pub open spec fn distribution_message(d: Distribution) -> Seq<char> {
    match d {
        Distribution::ProbabilityOutOfRange => "probability must be finite and between 0 and 1"@,
        _ => "distribution does not sum to 1 within declared rounding"@,
    }
}

/// The answer to question `q` given the wire answer `w` and the verdicts `c` on
/// its numbers, or the message that refuses it, in the order checked.
pub open spec fn answer_outcome(q: QuestionView, w: WireAnswerView, c: NumericChecks) -> Result<AnswerView, Seq<char>> {
    match (q, w) {
        (QuestionView::Bool(_), WireAnswerView::Bool(p)) => {
            if !c.probability_in_range {
                Err("probability must be finite and between 0 and 1"@)
            } else {
                Ok(AnswerView::Bool(p))
            }
        },
        (QuestionView::Choice(cq), WireAnswerView::Choice(choice, probabilities)) => {
            if !(exists|k: int| 0 <= k < cq.options.len() && #[trigger] cq.options[k].0 == choice) {
                Err("choice is not a declared option"@)
            } else {
                match probabilities {
                    None => Ok(AnswerView::Choice(choice, Seq::empty())),
                    Some(p) => if p.len() != cq.options.len() || exists|k: int|
                        0 <= k < cq.options.len() && !has_key(p, #[trigger] cq.options[k].0) {
                        Err("choice distribution keys do not match options"@)
                    } else if c.distribution != Distribution::Sound {
                        Err(distribution_message(c.distribution))
                    } else if !c.selected_is_top {
                        Err("selected choice is not a most probable option"@)
                    } else {
                        Ok(AnswerView::Choice(choice, p))
                    },
                }
            }
        },
        (QuestionView::Score(sq), WireAnswerView::Score(score, probabilities)) => {
            let n = sq.levels.len();
            if c.score_ceiling is None || c.score_ceiling->0 >= n {
                Err("score is outside the declared scale"@)
            } else {
                match probabilities {
                    None => Ok(AnswerView::Score(score, Seq::empty())),
                    Some(p) => if p.len() != n {
                        Err("score distribution has wrong length"@)
                    } else if exists|i: int| 0 <= i < n && !has_key(p, #[trigger] decimal(i as nat)) {
                        Err("invalid score distribution index"@)
                    } else if c.distribution != Distribution::Sound {
                        Err(distribution_message(c.distribution))
                    } else if !c.mean_matches {
                        Err("score differs from distribution mean"@)
                    } else {
                        Ok(AnswerView::Score(score, Seq::new(n, |i: int| value_at(p, decimal(i as nat)))))
                    },
                }
            }
        },
        _ => Err("answer type does not match question type"@),
    }
}

/// The answer to question `k`, or the message that refuses it.
pub open spec fn question_answer(
    entries: Seq<(Seq<char>, WireAnswerView)>,
    checks: Seq<NumericChecks>,
    qs: Seq<QuestionView>,
    k: int,
) -> Result<AnswerView, Seq<char>> {
    match wire_index(entries, qs[k].id()) {
        None => Err("missing requested answer"@),
        Some(i) => answer_outcome(qs[k], entries[i].1, checks[i]),
    }
}

/// The message for the first question, from `k` on, whose answer is refused.
pub open spec fn first_answer_fault(
    entries: Seq<(Seq<char>, WireAnswerView)>,
    checks: Seq<NumericChecks>,
    qs: Seq<QuestionView>,
    k: int,
) -> Option<Seq<char>>
    decreases qs.len() - k,
{
    if k < 0 || k >= qs.len() {
        None
    } else {
        match question_answer(entries, checks, qs, k) {
            Err(m) => Some(m),
            Ok(_) => first_answer_fault(entries, checks, qs, k + 1),
        }
    }
}

/// The validated answers, each under its question's ID in question order, or the
/// message that refuses the response.
pub open spec fn decoding(
    entries: Seq<(Seq<char>, WireAnswerView)>,
    checks: Seq<NumericChecks>,
    qs: Seq<QuestionView>,
) -> Result<Seq<(Seq<char>, AnswerView)>, Seq<char>> {
    if entries.len() != qs.len() {
        Err("answer IDs do not match question IDs"@)
    } else if first_answer_fault(entries, checks, qs, 0) is Some {
        Err(first_answer_fault(entries, checks, qs, 0)->0)
    } else {
        Ok(Seq::new(qs.len(), |k: int| (qs[k].id(), question_answer(entries, checks, qs, k)->Ok_0)))
    }
}

/// Score questions of a request have at least one level.
pub open spec fn levels_present(qs: Seq<QuestionView>) -> bool {
    forall|k: int| 0 <= k < qs.len() ==> (#[trigger] qs[k] matches QuestionView::Score(s) ==> s.levels.len() > 0)
}

proof fn lemma_first_answer_fault_skips(
    entries: Seq<(Seq<char>, WireAnswerView)>,
    checks: Seq<NumericChecks>,
    qs: Seq<QuestionView>,
    from: int,
    k: int,
)
    requires
        0 <= from <= k <= qs.len(),
        forall|j: int| from <= j < k ==> question_answer(entries, checks, qs, j) is Ok,
    ensures
        first_answer_fault(entries, checks, qs, from) == first_answer_fault(entries, checks, qs, k),
    decreases k - from,
{
    if from < k {
        lemma_first_answer_fault_skips(entries, checks, qs, from + 1, k);
    }
}

proof fn lemma_first_wire_unique(entries: Seq<(Seq<char>, WireAnswerView)>, id: Seq<char>, i: int)
    requires
        first_wire(entries, id, i),
    ensures
        wire_index(entries, id) == Some(i),
{
    assert(entries[i].0 == id);
    let k = choose|k: int| first_wire(entries, id, k);
    assert(first_wire(entries, id, k));
    if k < i {
        assert(entries[k].0 != id);
    } else if k > i {
        assert(entries[i].0 != id);
    }
}

/// The index of the first pair with key `key`, if any.
pub(crate) fn find_key(pairs: &Vec<(String, Real)>, key: &str) -> (r: Option<usize>)
    ensures
        match r {
            Some(i) => i < pairs@.len() && pair_texts(pairs@)[i as int].0 == key@
                && forall|j: int| 0 <= j < i ==> #[trigger] pair_texts(pairs@)[j].0 != key@,
            None => !has_key(pair_texts(pairs@), key@),
        },
{
    let ghost p = pair_texts(pairs@);
    let n = pairs.len();
    let mut i: usize = 0;
    while i < n
        invariant
            n == pairs@.len(),
            p == pair_texts(pairs@),
            i <= n,
            forall|j: int| 0 <= j < i ==> #[trigger] p[j].0 != key@,
        decreases n - i,
    {
        if same_text(pairs[i].0.as_str(), key) {
            return Some(i);
        }
        i = i + 1;
    }
    None
}

/// The index of the first pair whose key spells `n` in decimal, if any.
fn find_index_key(pairs: &Vec<(String, Real)>, n: usize) -> (r: Option<usize>)
    ensures
        match r {
            Some(i) => i < pairs@.len() && pair_texts(pairs@)[i as int].0 == decimal(n as nat)
                && forall|j: int| 0 <= j < i ==> #[trigger] pair_texts(pairs@)[j].0 != decimal(n as nat),
            None => !has_key(pair_texts(pairs@), decimal(n as nat)),
        },
{
    let ghost p = pair_texts(pairs@);
    let len = pairs.len();
    let mut i: usize = 0;
    while i < len
        invariant
            len == pairs@.len(),
            p == pair_texts(pairs@),
            i <= len,
            forall|j: int| 0 <= j < i ==> #[trigger] p[j].0 != decimal(n as nat),
        decreases len - i,
    {
        if spells_decimal(pairs[i].0.as_str(), n) {
            return Some(i);
        }
        i = i + 1;
    }
    None
}

/// The first pair with a key is the one `value_at` names.
proof fn lemma_value_at(p: Seq<(Seq<char>, u64)>, key: Seq<char>, i: int)
    requires
        0 <= i < p.len(),
        p[i].0 == key,
        forall|j: int| 0 <= j < i ==> #[trigger] p[j].0 != key,
    ensures
        value_at(p, key) == p[i].1,
{
    let k = choose|k: int| 0 <= k < p.len() && p[k].0 == key && forall|j: int| 0 <= j < k ==> #[trigger] p[j].0 != key;
    assert(0 <= k < p.len() && p[k].0 == key && forall|j: int| 0 <= j < k ==> #[trigger] p[j].0 != key);
    if k < i {
        assert(p[k].0 != key);
    } else if k > i {
        assert(p[i].0 != key);
    }
}

/// A copy of (key, number) pairs.
pub(crate) fn copy_pairs(pairs: &Vec<(String, Real)>) -> (r: Vec<(String, Real)>)
    ensures
        pair_texts(r@) == pair_texts(pairs@),
{
    let n = pairs.len();
    let mut out: Vec<(String, Real)> = Vec::new();
    let mut i: usize = 0;
    while i < n
        invariant
            n == pairs@.len(),
            i <= n,
            out@.len() == i,
            forall|j: int| 0 <= j < i ==> (#[trigger] out@[j]).0@ == pairs@[j].0@ && out@[j].1 == pairs@[j].1,
        decreases n - i,
    {
        out.push((pairs[i].0.clone(), pairs[i].1));
        i = i + 1;
    }
    assert(pair_texts(out@) =~= pair_texts(pairs@));
    out
}


/// The error for a refused response.
pub fn invalid(message: &str) -> (r: Error)
    ensures
        r matches Error::InvalidResponse(m) && m@ == message@,
{
    Error::InvalidResponse(message.to_owned())
}

/// Whether the outcome of decoding one answer agrees with `answer_outcome`.
pub open spec fn answered_as(r: Result<Answer, Error>, expected: Result<AnswerView, Seq<char>>) -> bool {
    match (r, expected) {
        (Ok(a), Ok(v)) => a@ == v,
        (Err(e), Err(m)) => e matches Error::InvalidResponse(t) && t@ == m,
        _ => false,
    }
}

fn distribution_error(d: Distribution) -> (r: Error)
    requires
        d != Distribution::Sound,
    ensures
        r matches Error::InvalidResponse(m) && m@ == distribution_message(d),
{
    match d {
        Distribution::ProbabilityOutOfRange => invalid("probability must be finite and between 0 and 1"),
        _ => invalid("distribution does not sum to 1 within declared rounding"),
    }
}

/// Validate the wire answer `w` to question `q`, given the verdicts `c` on its numbers.
pub fn decode_answer(q: &Question, w: &WireAnswer, c: NumericChecks) -> (r: Result<Answer, Error>)
    requires
        q@ matches QuestionView::Score(s) ==> s.levels.len() > 0,
    ensures
        answered_as(r, answer_outcome(q@, w@, c)),
{
    match (q, w) {
        (Question::Bool(_), WireAnswer::Bool { probability }) => {
            if !c.probability_in_range {
                Err(invalid("probability must be finite and between 0 and 1"))
            } else {
                Ok(Answer::Bool(BoolAnswer { probability_true: *probability }))
            }
        },
        (Question::Choice(cq), WireAnswer::Choice { choice, probabilities }) => {
            decode_choice(cq, choice, probabilities, c)
        },
        (Question::Score(sq), WireAnswer::Score { score, probabilities }) => {
            decode_score(sq, *score, probabilities, c)
        },
        _ => Err(invalid("answer type does not match question type")),
    }
}

fn decode_choice(
    cq: &crate::question::ChoiceQuestion,
    choice: &String,
    probabilities: &Option<Vec<(String, Real)>>,
    c: NumericChecks,
) -> (r: Result<Answer, Error>)
    ensures
        answered_as(
            r,
            answer_outcome(
                QuestionView::Choice(cq@),
                WireAnswerView::Choice(choice@, optional_pairs(*probabilities)),
                c,
            ),
        ),
{
    let options = cq.options();
    let ghost opts = cq@.options;
    let n = options.len();
    let mut declared = false;
    let mut k: usize = 0;
    while k < n
        invariant
            n == options@.len(),
            opts == options@.map_values(|o: (String, String)| (o.0@, o.1@)),
            k <= n,
            declared == exists|j: int| 0 <= j < k && #[trigger] opts[j].0 == choice@,
        decreases n - k,
    {
        assert(opts[k as int].0 == options@[k as int].0@);
        if same_text(options[k].0.as_str(), choice.as_str()) {
            declared = true;
        }
        k = k + 1;
    }
    if !declared {
        return Err(invalid("choice is not a declared option"));
    }
    match probabilities {
        None => {
            let none: Vec<(String, Real)> = Vec::new();
            assert(pair_texts(none@) =~= Seq::empty());
            Ok(Answer::Choice(ChoiceAnswer { choice: choice.clone(), probabilities: none }))
        },
        Some(p) => {
            let ghost pv = pair_texts(p@);
            assert(optional_pairs(*probabilities) == Some(pv));
            if p.len() != n {
                assert(pv.len() != opts.len());
                assert(exists|j: int| 0 <= j < opts.len() && #[trigger] opts[j].0 == choice@);
                let ghost qv = QuestionView::Choice(cq@);
                let ghost wv = WireAnswerView::Choice(choice@, optional_pairs(*probabilities));
                assert(qv matches QuestionView::Choice(x) && x.options == opts);
                assert(wv matches WireAnswerView::Choice(ch, Some(pp)) && pp == pv && ch == choice@);

                return Err(invalid("choice distribution keys do not match options"));
            }
            let mut k: usize = 0;
            while k < n
                invariant
                    n == options@.len(),
                    opts == options@.map_values(|o: (String, String)| (o.0@, o.1@)),
                    pv == pair_texts(p@),
                    optional_pairs(*probabilities) == Some(pv),
                    pv.len() == n,
                    exists|j: int| 0 <= j < n && #[trigger] opts[j].0 == choice@,
                    opts == cq@.options,
                    k <= n,
                    forall|j: int| 0 <= j < k ==> has_key(pv, #[trigger] opts[j].0),
                decreases n - k,
            {
                assert(opts[k as int].0 == options@[k as int].0@);
                match find_key(p, options[k].0.as_str()) {
                    None => {
                        assert(!has_key(pv, opts[k as int].0));
                        let ghost qv = QuestionView::Choice(cq@);
                        let ghost wv = WireAnswerView::Choice(choice@, optional_pairs(*probabilities));
                        assert(qv matches QuestionView::Choice(x) && x.options == opts);
                        assert(wv matches WireAnswerView::Choice(ch, Some(pp)) && pp == pv && ch == choice@);
                        return Err(invalid("choice distribution keys do not match options"));
                    },
                    Some(i) => {
                        assert(pv[i as int].0 == opts[k as int].0);
                    },
                }
                k = k + 1;
            }
            if c.distribution != Distribution::Sound {
                return Err(distribution_error(c.distribution));
            }
            if !c.selected_is_top {
                return Err(invalid("selected choice is not a most probable option"));
            }
            Ok(Answer::Choice(ChoiceAnswer { choice: choice.clone(), probabilities: copy_pairs(p) }))
        },
    }
}

fn decode_score(
    sq: &crate::question::ScoreQuestion,
    score: Real,
    probabilities: &Option<Vec<(String, Real)>>,
    c: NumericChecks,
) -> (r: Result<Answer, Error>)
    requires
        sq@.levels.len() > 0,
    ensures
        answered_as(
            r,
            answer_outcome(
                QuestionView::Score(sq@),
                WireAnswerView::Score(score.bits, optional_pairs(*probabilities)),
                c,
            ),
        ),
{
    let n = sq.levels().len();
    let in_scale = match c.score_ceiling {
        None => false,
        Some(ceiling) => ceiling < n as u64,
    };
    if !in_scale {
        return Err(invalid("score is outside the declared scale"));
    }
    match probabilities {
        None => {
            let none: Vec<Real> = Vec::new();
            assert(real_bits(none@) =~= Seq::empty());
            Ok(Answer::Score(ScoreAnswer { score, probabilities: none }))
        },
        Some(p) => {
            let ghost pv = pair_texts(p@);
            if p.len() != n {
                return Err(invalid("score distribution has wrong length"));
            }
            let mut ordered: Vec<Real> = Vec::new();
            let mut i: usize = 0;
            while i < n
                invariant
                    n == sq@.levels.len(),
                    pv == pair_texts(p@),
                    optional_pairs(*probabilities) == Some(pv),
                    pv.len() == n,
                    c.score_ceiling matches Some(ceiling) && ceiling < n,
                    p@.len() == n,
                    i <= n,
                    ordered@.len() == i,
                    forall|j: int| 0 <= j < i ==> has_key(pv, #[trigger] decimal(j as nat)),
                    forall|j: int| 0 <= j < i ==> (#[trigger] ordered@[j]).bits == value_at(pv, decimal(j as nat)),
                decreases n - i,
            {
                match find_index_key(p, i) {
                    None => {
                        assert(!has_key(pv, decimal(i as nat)));
                        let ghost qv = QuestionView::Score(sq@);
                        let ghost wv = WireAnswerView::Score(score.bits, optional_pairs(*probabilities));
                        assert(qv matches QuestionView::Score(x) && x.levels.len() == n);
                        assert(wv matches WireAnswerView::Score(_, Some(pp)) && pp == pv);
                        let ghost w = i as int;
                        assert(w as nat == i as nat);
                        assert(0 <= w < n && !has_key(pv, decimal(w as nat)));
                        return Err(invalid("invalid score distribution index"));
                    },
                    Some(k) => {
                        proof { lemma_value_at(pv, decimal(i as nat), k as int); }
                        ordered.push(p[k].1);
                    },
                }
                i = i + 1;
            }
            if c.distribution != Distribution::Sound {
                return Err(distribution_error(c.distribution));
            }
            if !c.mean_matches {
                return Err(invalid("score differs from distribution mean"));
            }
            let ghost values = ordered@;
            let r = Answer::Score(ScoreAnswer { score, probabilities: ordered });
            assert(real_bits(values) =~= Seq::new(n as nat, |i: int| value_at(pv, decimal(i as nat))));
            Ok(r)
        },
    }
}


/// Whether the outcome of `decode` agrees with `decoding`.
pub open spec fn decoded_as(
    r: Result<Answers, Error>,
    expected: Result<Seq<(Seq<char>, AnswerView)>, Seq<char>>,
    metadata: JsonValue,
    usage: Option<Usage>,
    warnings: Seq<JsonValue>,
) -> bool {
    match (r, expected) {
        (Ok(a), Ok(entries)) => a@.entries == entries && a@.metadata == metadata && a@.usage == usage
            && a@.warnings == warnings,
        (Err(e), Err(m)) => e matches Error::InvalidResponse(t) && t@ == m,
        _ => false,
    }
}

/// The index of the first wire answer with ID `id`, if any.
fn find_wire(answers: &Vec<(String, WireAnswer)>, id: &str) -> (r: Option<usize>)
    ensures
        match r {
            Some(i) => first_wire(wire_entries(answers@), id@, i as int),
            None => wire_index(wire_entries(answers@), id@) is None,
        },
{
    let ghost entries = wire_entries(answers@);
    let n = answers.len();
    let mut i: usize = 0;
    while i < n
        invariant
            n == answers@.len(),
            entries == wire_entries(answers@),
            i <= n,
            forall|j: int| 0 <= j < i ==> #[trigger] entries[j].0 != id@,
        decreases n - i,
    {
        assert(entries[i as int].0 == answers@[i as int].0@);
        if same_text(answers[i].0.as_str(), id) {
            return Some(i);
        }
        i = i + 1;
    }
    None
}

impl WireResponse {
    /// Validate the response against the questions asked: one answer per
    /// question ID, each of its question's type and within its declared options
    /// or scale. `checks[i]` are the verdicts on the numbers of `answers[i]`.
    pub fn decode(self, questions: &Vec<Question>, checks: &Vec<NumericChecks>) -> (r: Result<Answers, Error>)
        requires
            checks@.len() == self.answers@.len(),
            levels_present(questions@.map_values(|q: Question| q@)),
        ensures
            decoded_as(
                r,
                decoding(wire_entries(self.answers@), checks@, questions@.map_values(|q: Question| q@)),
                self.provider_metadata.value(),
                self.usage,
                self.warnings@.map_values(|j: Json| j.value()),
            ),
    {
        let ghost entries = wire_entries(self.answers@);
        let ghost qs = questions@.map_values(|q: Question| q@);
        let WireResponse { answers: wire, provider_metadata, usage, warnings, rounding: _ } = self;
        let n = questions.len();
        if wire.len() != n {
            return Err(invalid("answer IDs do not match question IDs"));
        }
        let mut answers: Vec<(String, Answer)> = Vec::new();
        let mut k: usize = 0;
        while k < n
            invariant
                n == questions@.len(),
                qs == questions@.map_values(|q: Question| q@),
                qs.len() == n,
                entries == wire_entries(wire@),
                entries == wire_entries(self.answers@),
                entries.len() == n,
                checks@.len() == n,
                levels_present(qs),
                k <= n,
                answers@.len() == k,
                forall|j: int| 0 <= j < k ==> question_answer(entries, checks@, qs, j) is Ok,
                forall|j: int| 0 <= j < k ==> (#[trigger] entry_views(answers@)[j]) == (qs[j].id(),
                    question_answer(entries, checks@, qs, j)->Ok_0),
            decreases n - k,
        {
            let q = &questions[k];
            assert(q@ == qs[k as int]);
            match find_wire(&wire, q.id()) {
                None => {
                    proof { lemma_first_answer_fault_skips(entries, checks@, qs, 0, k as int); }
                    return Err(invalid("missing requested answer"));
                },
                Some(i) => {
                    proof { lemma_first_wire_unique(entries, qs[k as int].id(), i as int); }
                    assert(entries[i as int].1 == wire@[i as int].1@);
                    assert(q@ matches QuestionView::Score(s) ==> s.levels.len() > 0);
                    match decode_answer(q, &wire[i].1, checks[i]) {
                        Err(e) => {
                            proof { lemma_first_answer_fault_skips(entries, checks@, qs, 0, k as int); }
                            return Err(e);
                        },
                        Ok(a) => {
                            let ghost before = answers@;
                            answers.push((q.id().to_owned(), a));
                            assert(entry_views(answers@) =~= entry_views(before).push(
                                (qs[k as int].id(), question_answer(entries, checks@, qs, k as int)->Ok_0),
                            ));
                        },
                    }
                },
            }
            k = k + 1;
        }
        proof {
            lemma_first_answer_fault_skips(entries, checks@, qs, 0, n as int);
            assert(entry_views(answers@) =~= Seq::new(qs.len(), |j: int| (qs[j].id(), question_answer(entries, checks@, qs, j)->Ok_0)));
        }
        Ok(Answers::from_parts(answers, provider_metadata, usage, warnings))
    }
}

} // verus!
