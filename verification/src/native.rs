use vstd::prelude::*;

use crate::answer::{pair_texts, Real, Usage};
use crate::decode::{
    copy_pairs, find_key, has_key, invalid, wire_entries, Rounding, WireAnswer, WireAnswerView,
    WireResponse,
};
use crate::error::Error;
use crate::json::{field_values, lemma_object_value, Json, JsonValue};
use crate::text::same_text;

verus! {

/// One answer of the native TypeSafe protocol.
#[derive(Debug)]
pub enum NativeAnswer {
    /// A Boolean answer: the probability of `true`.
    Noul { noul: Real },
    /// A choice, its distribution, and the provider's confidence (its JSON spelling).
    Choice { choice: String, probabilities: Vec<(String, Real)>, confidence: String },
    /// A score, its distribution by level index, the confidence, and the label of each index.
    Score {
        score: Real,
        probabilities: Vec<(String, Real)>,
        confidence: String,
        legend: Vec<(String, String)>,
    },
}

/// Token counts of the native protocol.
#[derive(Clone, Copy, Debug, PartialEq, Eq, Structural)]
pub struct NativeUsage {
    pub input_tokens: u64,
    pub output_tokens: u64,
}

/// A response of the native TypeSafe protocol.
#[derive(Debug)]
pub struct NativeResponse {
    pub model: String,
    pub answers: Vec<(String, NativeAnswer)>,
    pub usage: NativeUsage,
}

/// What a native answer holds.
pub enum NativeAnswerView {
    Noul(u64),
    Choice(Seq<char>, Seq<(Seq<char>, u64)>, Seq<char>),
    Score(u64, Seq<(Seq<char>, u64)>, Seq<char>, Seq<(Seq<char>, Seq<char>)>),
}

pub open spec fn label_texts(legend: Seq<(String, String)>) -> Seq<(Seq<char>, Seq<char>)> {
    legend.map_values(|l: (String, String)| (l.0@, l.1@))
}

impl View for NativeAnswer {
    type V = NativeAnswerView;

    open spec fn view(&self) -> NativeAnswerView {
        match self {
            NativeAnswer::Noul { noul } => NativeAnswerView::Noul(noul.bits),
            NativeAnswer::Choice { choice, probabilities, confidence } => NativeAnswerView::Choice(
                choice@,
                pair_texts(probabilities@),
                confidence@,
            ),
            NativeAnswer::Score { score, probabilities, confidence, legend } => NativeAnswerView::Score(
                score.bits,
                pair_texts(probabilities@),
                confidence@,
                label_texts(legend@),
            ),
        }
    }
}

pub open spec fn native_entries(answers: Seq<(String, NativeAnswer)>) -> Seq<(Seq<char>, NativeAnswerView)> {
    answers.map_values(|a: (String, NativeAnswer)| (a.0@, a.1@))
}

/// Each label of a legend must name an index of the distribution, one for one.
pub open spec fn legend_matches(legend: Seq<(Seq<char>, Seq<char>)>, p: Seq<(Seq<char>, u64)>) -> bool {
    legend.len() == p.len() && forall|i: int| 0 <= i < legend.len() ==> has_key(p, #[trigger] legend[i].0)
}

/// What is wrong with a native answer, in the order checked, given whether its
/// confidence is finite and in `[0, 1]`.
pub open spec fn native_fault(a: NativeAnswerView, confidence_in_range: bool) -> Option<Seq<char>> {
    match a {
        NativeAnswerView::Noul(_) => None,
        NativeAnswerView::Choice(..) => if !confidence_in_range {
            Some("TypeSafe confidence must be between 0 and 1"@)
        } else {
            None
        },
        NativeAnswerView::Score(_, p, _, legend) => if !legend_matches(legend, p) {
            Some("TypeSafe legend and probability indexes differ"@)
        } else if !confidence_in_range {
            Some("TypeSafe confidence must be between 0 and 1"@)
        } else {
            None
        },
    }
}

/// The fault of the first native answer, from `k` on, that has one.
pub open spec fn first_native_fault(answers: Seq<(Seq<char>, NativeAnswerView)>, oks: Seq<bool>, k: int) -> Option<Seq<char>>
    decreases answers.len() - k,
{
    if k < 0 || k >= answers.len() {
        None
    } else {
        match native_fault(answers[k].1, oks[k]) {
            Some(m) => Some(m),
            None => first_native_fault(answers, oks, k + 1),
        }
    }
}

/// The common form of a native answer: a noul is a Boolean answer.
pub open spec fn common_answer(a: NativeAnswerView) -> WireAnswerView {
    match a {
        NativeAnswerView::Noul(p) => WireAnswerView::Bool(p),
        NativeAnswerView::Choice(choice, p, _) => WireAnswerView::Choice(choice, Some(p)),
        NativeAnswerView::Score(score, p, _, _) => WireAnswerView::Score(score, Some(p)),
    }
}

/// The confidences, by answer ID, of the answers that carry one.
pub open spec fn confidence_fields(answers: Seq<(Seq<char>, NativeAnswerView)>) -> Seq<(Seq<char>, JsonValue)>
    decreases answers.len(),
{
    if answers.len() == 0 {
        Seq::empty()
    } else {
        let rest = confidence_fields(answers.drop_last());
        let (id, a) = answers.last();
        match a {
            NativeAnswerView::Noul(_) => rest,
            NativeAnswerView::Choice(_, _, c) => rest.push((id, JsonValue::Number(c))),
            NativeAnswerView::Score(_, _, c, _) => rest.push((id, JsonValue::Number(c))),
        }
    }
}

/// The legends of the score answers, by answer ID.
pub open spec fn legend_fields(answers: Seq<(Seq<char>, NativeAnswerView)>) -> Seq<(Seq<char>, JsonValue)>
    decreases answers.len(),
{
    if answers.len() == 0 {
        Seq::empty()
    } else {
        let rest = legend_fields(answers.drop_last());
        let (id, a) = answers.last();
        match a {
            NativeAnswerView::Score(_, _, _, legend) => rest.push(
                (id, JsonValue::Object(legend.map_values(|l: (Seq<char>, Seq<char>)| (l.0, JsonValue::Str(l.1))))),
            ),
            _ => rest,
        }
    }
}

/// The provider metadata of a native response.
pub open spec fn native_metadata(model: Seq<char>, answers: Seq<(Seq<char>, NativeAnswerView)>) -> JsonValue {
    JsonValue::Object(seq![
        ("typesafe"@, JsonValue::Object(seq![
            ("model"@, JsonValue::Str(model)),
            ("confidence"@, JsonValue::Object(confidence_fields(answers))),
            ("legend"@, JsonValue::Object(legend_fields(answers))),
        ])),
    ])
}

/// The rounding assumed of native numbers, which are given to hundredths.
pub open spec fn native_rounding() -> Rounding {
    Rounding { probability_decimals: Some(2), score_decimals: Some(2) }
}


proof fn lemma_first_native_fault_skips(answers: Seq<(Seq<char>, NativeAnswerView)>, oks: Seq<bool>, from: int, k: int)
    requires
        0 <= from <= k <= answers.len(),
        forall|j: int| from <= j < k ==> native_fault(answers[j].1, oks[j]) is None,
    ensures
        first_native_fault(answers, oks, from) == first_native_fault(answers, oks, k),
    decreases k - from,
{
    if from < k {
        lemma_first_native_fault_skips(answers, oks, from + 1, k);
    }
}

/// Whether every label of `legend` names an index of `p`, one for one.
fn legend_is_consistent(legend: &Vec<(String, String)>, p: &Vec<(String, Real)>) -> (r: bool)
    ensures
        r == legend_matches(label_texts(legend@), pair_texts(p@)),
{
    let ghost lv = label_texts(legend@);
    let ghost pv = pair_texts(p@);
    if legend.len() != p.len() {
        return false;
    }
    let n = legend.len();
    let mut i: usize = 0;
    while i < n
        invariant
            n == legend@.len(),
            lv == label_texts(legend@),
            pv == pair_texts(p@),
            lv.len() == pv.len(),
            i <= n,
            forall|j: int| 0 <= j < i ==> has_key(pv, #[trigger] lv[j].0),
        decreases n - i,
    {
        assert(lv[i as int].0 == legend@[i as int].0@);
        if find_key(p, legend[i].0.as_str()).is_none() {
            assert(!has_key(pv, lv[i as int].0));
            return false;
        }
        i = i + 1;
    }
    true
}

/// The legend as a JSON object of labels.
fn legend_object(legend: &Vec<(String, String)>) -> (r: Json)
    ensures
        r.value() == JsonValue::Object(label_texts(legend@).map_values(|l: (Seq<char>, Seq<char>)| (l.0, JsonValue::Str(l.1)))),
{
    let ghost expected = label_texts(legend@).map_values(|l: (Seq<char>, Seq<char>)| (l.0, JsonValue::Str(l.1)));
    let n = legend.len();
    let mut fields: Vec<(String, Json)> = Vec::new();
    let mut i: usize = 0;
    while i < n
        invariant
            n == legend@.len(),
            expected == label_texts(legend@).map_values(|l: (Seq<char>, Seq<char>)| (l.0, JsonValue::Str(l.1))),
            i <= n,
            fields@.len() == i,
            forall|j: int| 0 <= j < i ==> (#[trigger] fields@[j]).0@ == legend@[j].0@
                && fields@[j].1.value() == JsonValue::Str(legend@[j].1@),
        decreases n - i,
    {
        fields.push((legend[i].0.clone(), Json::Str(legend[i].1.clone())));
        i = i + 1;
    }
    let ghost all = fields;
    proof {
        lemma_object_value(all);
        assert(field_values(all@) =~= expected);
    }
    Json::Object(fields)
}

/// The common form of a native answer, copied.
fn common_form(a: &NativeAnswer) -> (r: WireAnswer)
    ensures
        r@ == common_answer(a@),
{
    match a {
        NativeAnswer::Noul { noul } => WireAnswer::Bool { probability: *noul },
        NativeAnswer::Choice { choice, probabilities, .. } => WireAnswer::Choice {
            choice: choice.clone(),
            probabilities: Some(copy_pairs(probabilities)),
        },
        NativeAnswer::Score { score, probabilities, .. } => WireAnswer::Score {
            score: *score,
            probabilities: Some(copy_pairs(probabilities)),
        },
    }
}

/// Whether the outcome of `normalize` agrees with the native response.
pub open spec fn normalized_as(
    r: Result<WireResponse, Error>,
    model: Seq<char>,
    answers: Seq<(Seq<char>, NativeAnswerView)>,
    oks: Seq<bool>,
    usage: NativeUsage,
) -> bool {
    match r {
        Ok(w) => {
            &&& first_native_fault(answers, oks, 0) is None
            &&& wire_entries(w.answers@) == answers.map_values(
                |e: (Seq<char>, NativeAnswerView)| (e.0, common_answer(e.1)),
            )
            &&& w.provider_metadata.value() == native_metadata(model, answers)
            &&& w.usage == Some(Usage { input_tokens: Some(usage.input_tokens), output_tokens: Some(usage.output_tokens) })
            &&& w.warnings@.len() == 0
            &&& w.rounding == native_rounding()
        },
        Err(e) => e matches Error::InvalidResponse(m) && first_native_fault(answers, oks, 0) == Some(m@),
    }
}

impl NativeResponse {
    /// Bring a native response to the common form: nouls become Boolean answers;
    /// the model, confidences and legends go to the provider metadata under
    /// `typesafe`; numbers are taken as rounded to hundredths. A legend must
    /// label exactly the indexes of its distribution; `confidence_in_range[i]` is
    /// the verdict on the confidence of `answers[i]`.
    pub fn normalize(self, confidence_in_range: &Vec<bool>) -> (r: Result<WireResponse, Error>)
        requires
            confidence_in_range@.len() == self.answers@.len(),
        ensures
            normalized_as(r, self.model@, native_entries(self.answers@), confidence_in_range@, self.usage),
    {
        let ghost entries = native_entries(self.answers@);
        let ghost oks = confidence_in_range@;
        let NativeResponse { model, answers, usage } = self;
        let n = answers.len();
        let mut wire: Vec<(String, WireAnswer)> = Vec::new();
        let mut confidences: Vec<(String, Json)> = Vec::new();
        let mut legends: Vec<(String, Json)> = Vec::new();
        let mut i: usize = 0;
        while i < n
            invariant
                n == answers@.len(),
                entries == native_entries(answers@),
                entries == native_entries(self.answers@),
                oks == confidence_in_range@,
                oks.len() == n,
                i <= n,
                forall|j: int| 0 <= j < i ==> native_fault(entries[j].1, oks[j]) is None,
                wire@.len() == i,
                forall|j: int| 0 <= j < i ==> (#[trigger] wire@[j]).0@ == entries[j].0
                    && wire@[j].1@ == common_answer(entries[j].1),
                field_values(confidences@) == confidence_fields(entries.take(i as int)),
                field_values(legends@) == legend_fields(entries.take(i as int)),
            decreases n - i,
        {
            let id = &answers[i].0;
            let a = &answers[i].1;
            assert(entries[i as int] == (id@, a@));
            let ghost before_conf = confidences@;
            let ghost before_legend = legends@;
            match a {
                NativeAnswer::Noul { .. } => {},
                NativeAnswer::Choice { confidence, .. } => {
                    if !confidence_in_range[i] {
                        proof { lemma_first_native_fault_skips(entries, oks, 0, i as int); }
                        return Err(invalid("TypeSafe confidence must be between 0 and 1"));
                    }
                    confidences.push((id.clone(), Json::Number(confidence.clone())));
                },
                NativeAnswer::Score { probabilities, confidence, legend, .. } => {
                    if !legend_is_consistent(legend, probabilities) {
                        proof { lemma_first_native_fault_skips(entries, oks, 0, i as int); }
                        return Err(invalid("TypeSafe legend and probability indexes differ"));
                    }
                    if !confidence_in_range[i] {
                        proof { lemma_first_native_fault_skips(entries, oks, 0, i as int); }
                        return Err(invalid("TypeSafe confidence must be between 0 and 1"));
                    }
                    legends.push((id.clone(), legend_object(legend)));
                    confidences.push((id.clone(), Json::Number(confidence.clone())));
                },
            }
            proof {
                assert(entries.take(i + 1).drop_last() =~= entries.take(i as int));
                assert(entries.take(i + 1).last() == entries[i as int]);
                assert(field_values(confidences@) =~= confidence_fields(entries.take(i + 1)));
                assert(field_values(legends@) =~= legend_fields(entries.take(i + 1)));
            }
            wire.push((id.clone(), common_form(a)));
            i = i + 1;
        }
        proof {
            lemma_first_native_fault_skips(entries, oks, 0, n as int);
            assert(entries.take(n as int) =~= entries);
            assert(wire_entries(wire@) =~= entries.map_values(
                |e: (Seq<char>, NativeAnswerView)| (e.0, common_answer(e.1)),
            ));
        }
        let ghost conf_fields = confidences;
        let ghost legend_fields_json = legends;
        let mut inner: Vec<(String, Json)> = Vec::new();
        inner.push(("model".to_owned(), Json::Str(model)));
        inner.push(("confidence".to_owned(), Json::Object(confidences)));
        inner.push(("legend".to_owned(), Json::Object(legends)));
        let ghost inner_fields = inner;
        let mut outer: Vec<(String, Json)> = Vec::new();
        outer.push(("typesafe".to_owned(), Json::Object(inner)));
        let ghost outer_fields = outer;
        let metadata = Json::Object(outer);
        proof {
            lemma_object_value(conf_fields);
            lemma_object_value(legend_fields_json);
            lemma_object_value(inner_fields);
            lemma_object_value(outer_fields);
            assert(field_values(inner_fields@) =~= seq![
                ("model"@, JsonValue::Str(self.model@)),
                ("confidence"@, JsonValue::Object(confidence_fields(entries))),
                ("legend"@, JsonValue::Object(legend_fields(entries))),
            ]);
            assert(field_values(outer_fields@) =~= seq![
                ("typesafe"@, JsonValue::Object(field_values(inner_fields@))),
            ]);
        }
        Ok(WireResponse {
            answers: wire,
            provider_metadata: metadata,
            usage: Some(Usage { input_tokens: Some(usage.input_tokens), output_tokens: Some(usage.output_tokens) }),
            warnings: Vec::new(),
            rounding: Rounding { probability_decimals: Some(2), score_decimals: Some(2) },
        })
    }
}

} // verus!
