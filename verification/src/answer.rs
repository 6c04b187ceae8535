use vstd::prelude::*;

use crate::error::Error;
use crate::json::{Json, JsonValue};
use crate::text::same_text;

verus! {

/// A binary64 floating-point number, carried by its IEEE-754 bit pattern.
/// Nothing here reads its value: numeric checks are made by the caller.
#[derive(Clone, Copy, Debug, PartialEq, Eq, Structural)]
pub struct Real {
    pub bits: u64,
}

/// Token counts reported by the provider.
#[derive(Clone, Copy, Debug, PartialEq, Eq, Structural)]
pub struct Usage {
    pub input_tokens: Option<u64>,
    pub output_tokens: Option<u64>,
}

/// The model-estimated P(true) of a Boolean question.
#[derive(Clone, Copy, Debug, PartialEq, Eq, Structural)]
pub struct BoolAnswer {
    /// Model-estimated P(true), not confidence in whichever outcome was selected.
    pub probability_true: Real,
}

/// The selected option of a choice question and its distribution.
#[derive(Debug)]
pub struct ChoiceAnswer {
    pub choice: String,
    /// Probability of each option key; empty if the provider omitted the distribution.
    pub probabilities: Vec<(String, Real)>,
}

/// The score of a score question and its distribution over levels.
#[derive(Debug)]
pub struct ScoreAnswer {
    pub score: Real,
    /// In level order; empty if the provider omitted the distribution.
    pub probabilities: Vec<Real>,
}

/// One validated answer.
#[derive(Debug)]
pub enum Answer {
    Bool(BoolAnswer),
    Choice(ChoiceAnswer),
    Score(ScoreAnswer),
}

/// What an answer holds, numbers by their bit patterns.
pub enum AnswerView {
    Bool(u64),
    Choice(Seq<char>, Seq<(Seq<char>, u64)>),
    Score(u64, Seq<u64>),
}

/// The views of (key, number) pairs.
pub open spec fn pair_texts(pairs: Seq<(String, Real)>) -> Seq<(Seq<char>, u64)> {
    pairs.map_values(|p: (String, Real)| (p.0@, p.1.bits))
}

/// The bit patterns of numbers.
pub open spec fn real_bits(values: Seq<Real>) -> Seq<u64> {
    values.map_values(|v: Real| v.bits)
}

impl View for ChoiceAnswer {
    type V = (Seq<char>, Seq<(Seq<char>, u64)>);

    open spec fn view(&self) -> (Seq<char>, Seq<(Seq<char>, u64)>) {
        (self.choice@, pair_texts(self.probabilities@))
    }
}

impl View for ScoreAnswer {
    type V = (u64, Seq<u64>);

    open spec fn view(&self) -> (u64, Seq<u64>) {
        (self.score.bits, real_bits(self.probabilities@))
    }
}

impl View for Answer {
    type V = AnswerView;

    open spec fn view(&self) -> AnswerView {
        match self {
            Answer::Bool(a) => AnswerView::Bool(a.probability_true.bits),
            Answer::Choice(a) => AnswerView::Choice(a@.0, a@.1),
            Answer::Score(a) => AnswerView::Score(a@.0, a@.1),
        }
    }
}

/// The kind of an answer, as errors name it.
pub open spec fn kind_name(a: AnswerView) -> Seq<char> {
    match a {
        AnswerView::Bool(_) => "boolean"@,
        AnswerView::Choice(..) => "choice"@,
        AnswerView::Score(..) => "score"@,
    }
}

impl Answer {
    /// The kind of this answer.
    pub fn kind(&self) -> (r: &'static str)
        ensures
            r@ == kind_name(self@),
    {
        match self {
            Answer::Bool(_) => "boolean",
            Answer::Choice(_) => "choice",
            Answer::Score(_) => "score",
        }
    }
}

/// All answers to one request, indexed by the original question IDs.
#[derive(Debug)]
pub struct Answers {
    answers: Vec<(String, Answer)>,
    /// Provider metadata, including optional TypeSafe confidence. Never synthesized.
    pub metadata: Json,
    pub usage: Option<Usage>,
    pub warnings: Vec<Json>,
}

/// What a collection of answers holds.
pub struct AnswersView {
    pub entries: Seq<(Seq<char>, AnswerView)>,
    pub metadata: JsonValue,
    pub usage: Option<Usage>,
    pub warnings: Seq<JsonValue>,
}

/// The views of (ID, answer) entries.
pub open spec fn entry_views(entries: Seq<(String, Answer)>) -> Seq<(Seq<char>, AnswerView)> {
    entries.map_values(|e: (String, Answer)| (e.0@, e.1@))
}

impl View for Answers {
    type V = AnswersView;

    closed spec fn view(&self) -> AnswersView {
        AnswersView {
            entries: entry_views(self.answers@),
            metadata: self.metadata.value(),
            usage: self.usage,
            warnings: self.warnings@.map_values(|j: Json| j.value()),
        }
    }
}

/// Whether `i` is the first entry with ID `id`.
pub open spec fn first_with_id(entries: Seq<(Seq<char>, AnswerView)>, id: Seq<char>, i: int) -> bool {
    &&& 0 <= i < entries.len()
    &&& entries[i].0 == id
    &&& forall|j: int| 0 <= j < i ==> #[trigger] entries[j].0 != id
}

/// The answer to the question with ID `id`: that of the first entry with it.
pub open spec fn answer_for(entries: Seq<(Seq<char>, AnswerView)>, id: Seq<char>) -> Option<AnswerView> {
    if exists|i: int| 0 <= i < entries.len() && #[trigger] entries[i].0 == id {
        Some(entries[choose|i: int| first_with_id(entries, id, i)].1)
    } else {
        None
    }
}

/// The error for an answer of another kind than asked for.
pub open spec fn is_mismatch(e: Error, id: Seq<char>, expected: Seq<char>, actual: AnswerView) -> bool {
    e matches Error::TypeMismatch { id: i, expected: x, actual: a } && i@ == id && x@ == expected && a@
        == kind_name(actual)
}

/// The first index holding a question's ID is the unique one that `first_with_id` describes.
pub proof fn lemma_first_with_id_unique(entries: Seq<(Seq<char>, AnswerView)>, id: Seq<char>, i: int)
    requires
        first_with_id(entries, id, i),
    ensures
        answer_for(entries, id) == Some(entries[i].1),
{
    assert(entries[i].0 == id);
    let k = choose|k: int| first_with_id(entries, id, k);
    assert(first_with_id(entries, id, k));
    if k < i {
        assert(entries[k].0 != id);
    } else if k > i {
        assert(entries[i].0 != id);
    }
}

impl Answers {
    /// Answers from validated entries and the response's pass-through data.
    pub fn from_parts(answers: Vec<(String, Answer)>, metadata: Json, usage: Option<Usage>, warnings: Vec<Json>) -> (r: Answers)
        ensures
            r@.entries == entry_views(answers@),
            r@.metadata == metadata.value(),
            r@.usage == usage,
            r@.warnings == warnings@.map_values(|j: Json| j.value()),
    {
        Answers { answers, metadata, usage, warnings }
    }

    /// The number of answers.
    pub fn len(&self) -> (r: usize)
        ensures
            r == self@.entries.len(),
    {
        self.answers.len()
    }

    fn get(&self, id: &str) -> (r: Result<&Answer, Error>)
        ensures
            match answer_for(self@.entries, id@) {
                None => r matches Err(Error::NotFound(m)) && m@ == id@,
                Some(a) => r matches Ok(x) && x@ == a,
            },
    {
        let ghost entries = self@.entries;
        let n = self.answers.len();
        let mut i: usize = 0;
        while i < n
            invariant
                n == self.answers@.len(),
                entries == entry_views(self.answers@),
                i <= n,
                forall|j: int| 0 <= j < i ==> #[trigger] entries[j].0 != id@,
            decreases n - i,
        {
            assert(entries[i as int].0 == self.answers@[i as int].0@);
            if same_text(self.answers[i].0.as_str(), id) {
                proof { lemma_first_with_id_unique(entries, id@, i as int); }
                return Ok(&self.answers[i].1);
            }
            i = i + 1;
        }
        assert(!exists|i: int| 0 <= i < entries.len() && #[trigger] entries[i].0 == id@);
        Err(Error::NotFound(id.to_owned()))
    }

    /// The answer to Boolean question `id`.
    pub fn bool_answer(&self, id: &str) -> (r: Result<&BoolAnswer, Error>)
        ensures
            match answer_for(self@.entries, id@) {
                None => r matches Err(Error::NotFound(m)) && m@ == id@,
                Some(AnswerView::Bool(p)) => r matches Ok(a) && a.probability_true.bits == p,
                Some(other) => r matches Err(e) && is_mismatch(e, id@, "boolean"@, other),
            },
    {
        match self.get(id)? {
            Answer::Bool(a) => Ok(a),
            other => Err(mismatch(id, "boolean", other)),
        }
    }

    /// The answer to choice question `id`.
    pub fn choice_answer(&self, id: &str) -> (r: Result<&ChoiceAnswer, Error>)
        ensures
            match answer_for(self@.entries, id@) {
                None => r matches Err(Error::NotFound(m)) && m@ == id@,
                Some(AnswerView::Choice(choice, p)) => r matches Ok(a) && a@ == (choice, p),
                Some(other) => r matches Err(e) && is_mismatch(e, id@, "choice"@, other),
            },
    {
        match self.get(id)? {
            Answer::Choice(a) => Ok(a),
            other => Err(mismatch(id, "choice", other)),
        }
    }

    /// The answer to score question `id`.
    pub fn score_answer(&self, id: &str) -> (r: Result<&ScoreAnswer, Error>)
        ensures
            match answer_for(self@.entries, id@) {
                None => r matches Err(Error::NotFound(m)) && m@ == id@,
                Some(AnswerView::Score(score, p)) => r matches Ok(a) && a@ == (score, p),
                Some(other) => r matches Err(e) && is_mismatch(e, id@, "score"@, other),
            },
    {
        match self.get(id)? {
            Answer::Score(a) => Ok(a),
            other => Err(mismatch(id, "score", other)),
        }
    }
}

/// The error for answer `answer` to `id` when a `expected` answer was asked for.
pub fn mismatch(id: &str, expected: &'static str, answer: &Answer) -> (r: Error)
    ensures
        is_mismatch(r, id@, expected@, answer@),
{
    Error::TypeMismatch { id: id.to_owned(), expected, actual: answer.kind() }
}

} // verus!
