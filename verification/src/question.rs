use vstd::prelude::*;

use crate::config::Backend;
use crate::error::Error;
use crate::json::{field_values, item_values, lemma_array_value, lemma_object_value, Json, JsonValue};
use crate::text::{blank, blank_message, is_blank, nonempty};

verus! {

/// A question estimating P(true). Criteria are optional.
#[derive(Clone, Debug)]
pub struct BoolQuestion {
    id: String,
    instructions: String,
    when_true: Option<String>,
    when_false: Option<String>,
}

/// A single choice among named options. Keys must be unique and nonempty.
#[derive(Clone, Debug)]
pub struct ChoiceQuestion {
    id: String,
    instructions: String,
    options: Vec<(String, String)>,
}

/// A fractional score on ordered levels, from 0 to `levels.len() - 1`.
#[derive(Clone, Debug)]
pub struct ScoreQuestion {
    id: String,
    instructions: String,
    levels: Vec<String>,
}

/// What a Boolean question holds.
pub struct BoolQuestionView {
    pub id: Seq<char>,
    pub instructions: Seq<char>,
    pub when_true: Option<Seq<char>>,
    pub when_false: Option<Seq<char>>,
}

/// What a choice question holds: its options as (key, description) in order.
pub struct ChoiceQuestionView {
    pub id: Seq<char>,
    pub instructions: Seq<char>,
    pub options: Seq<(Seq<char>, Seq<char>)>,
}

/// What a score question holds: its level descriptions from lowest to highest.
pub struct ScoreQuestionView {
    pub id: Seq<char>,
    pub instructions: Seq<char>,
    pub levels: Seq<Seq<char>>,
}

pub open spec fn option_text(o: Option<String>) -> Option<Seq<char>> {
    match o {
        Some(s) => Some(s@),
        None => None,
    }
}

impl View for BoolQuestion {
    type V = BoolQuestionView;

    closed spec fn view(&self) -> BoolQuestionView {
        BoolQuestionView {
            id: self.id@,
            instructions: self.instructions@,
            when_true: option_text(self.when_true),
            when_false: option_text(self.when_false),
        }
    }
}

impl View for ChoiceQuestion {
    type V = ChoiceQuestionView;

    closed spec fn view(&self) -> ChoiceQuestionView {
        ChoiceQuestionView {
            id: self.id@,
            instructions: self.instructions@,
            options: self.options@.map_values(|o: (String, String)| (o.0@, o.1@)),
        }
    }
}

impl View for ScoreQuestion {
    type V = ScoreQuestionView;

    closed spec fn view(&self) -> ScoreQuestionView {
        ScoreQuestionView {
            id: self.id@,
            instructions: self.instructions@,
            levels: self.levels@.map_values(|l: String| l@),
        }
    }
}

impl BoolQuestion {
    /// Create a Boolean question with a stable ID and instructions.
    /// Validation is deferred until the request is prepared.
    pub fn new(id: &str, instructions: &str) -> (r: Self)
        ensures
            r@.id == id@,
            r@.instructions == instructions@,
            r@.when_true is None,
            r@.when_false is None,
    {
        BoolQuestion {
            id: id.to_owned(),
            instructions: instructions.to_owned(),
            when_true: None,
            when_false: None,
        }
    }

    /// Describe what counts as true. Calling again replaces the previous criterion.
    pub fn when_true(self, description: &str) -> (r: Self)
        ensures
            r@.when_true == Some(description@),
            r@.id == self@.id,
            r@.instructions == self@.instructions,
            r@.when_false == self@.when_false,
    {
        BoolQuestion { when_true: Some(description.to_owned()), ..self }
    }

    /// Describe what counts as false. Calling again replaces the previous criterion.
    pub fn when_false(self, description: &str) -> (r: Self)
        ensures
            r@.when_false == Some(description@),
            r@.id == self@.id,
            r@.instructions == self@.instructions,
            r@.when_true == self@.when_true,
    {
        BoolQuestion { when_false: Some(description.to_owned()), ..self }
    }
}

impl ChoiceQuestion {
    /// Create a choice question with no options yet.
    pub fn new(id: &str, instructions: &str) -> (r: Self)
        ensures
            r@.id == id@,
            r@.instructions == instructions@,
            r@.options == Seq::<(Seq<char>, Seq<char>)>::empty(),
    {
        let r = ChoiceQuestion {
            id: id.to_owned(),
            instructions: instructions.to_owned(),
            options: Vec::new(),
        };
        assert(r@.options =~= Seq::<(Seq<char>, Seq<char>)>::empty());
        r
    }

    /// Append an option with a stable key and its meaning. An option with a key
    /// that is already present is kept too; it is refused when the request is prepared.
    pub fn option(self, key: &str, description: &str) -> (r: Self)
        ensures
            r@.options == self@.options.push((key@, description@)),
            r@.id == self@.id,
            r@.instructions == self@.instructions,
    {
        let ChoiceQuestion { id, instructions, options } = self;
        let mut options = options;
        let ghost before = options@;
        options.push((key.to_owned(), description.to_owned()));
        let r = ChoiceQuestion { id, instructions, options };
        assert(r@.options =~= before.map_values(|o: (String, String)| (o.0@, o.1@)).push(
            (key@, description@),
        ));
        r
    }
}

impl ChoiceQuestion {
    /// The options, as (key, description) in order.
    pub fn options(&self) -> (r: &Vec<(String, String)>)
        ensures
            r@.map_values(|o: (String, String)| (o.0@, o.1@)) == self@.options,
    {
        &self.options
    }
}

impl ScoreQuestion {
    /// The level descriptions, from lowest to highest.
    pub fn levels(&self) -> (r: &Vec<String>)
        ensures
            r@.map_values(|l: String| l@) == self@.levels,
    {
        &self.levels
    }
}

impl ScoreQuestion {
    /// Create a score question with no levels yet.
    pub fn new(id: &str, instructions: &str) -> (r: Self)
        ensures
            r@.id == id@,
            r@.instructions == instructions@,
            r@.levels == Seq::<Seq<char>>::empty(),
    {
        let r = ScoreQuestion {
            id: id.to_owned(),
            instructions: instructions.to_owned(),
            levels: Vec::new(),
        };
        assert(r@.levels =~= Seq::<Seq<char>>::empty());
        r
    }

    /// Append a level, ordered from lowest to highest.
    pub fn level(self, description: &str) -> (r: Self)
        ensures
            r@.levels == self@.levels.push(description@),
            r@.id == self@.id,
            r@.instructions == self@.instructions,
    {
        let ScoreQuestion { id, instructions, levels } = self;
        let mut levels = levels;
        let ghost before = levels@;
        levels.push(description.to_owned());
        let r = ScoreQuestion { id, instructions, levels };
        assert(r@.levels =~= before.map_values(|l: String| l@).push(description@));
        r
    }
}


/// One question of a request.
#[derive(Clone, Debug)]
pub enum Question {
    Bool(BoolQuestion),
    Choice(ChoiceQuestion),
    Score(ScoreQuestion),
}

/// What a question of a request holds.
pub enum QuestionView {
    Bool(BoolQuestionView),
    Choice(ChoiceQuestionView),
    Score(ScoreQuestionView),
}

impl QuestionView {
    /// The question's ID.
    pub open spec fn id(self) -> Seq<char> {
        match self {
            QuestionView::Bool(q) => q.id,
            QuestionView::Choice(q) => q.id,
            QuestionView::Score(q) => q.id,
        }
    }

    /// The question's instructions.
    pub open spec fn instructions(self) -> Seq<char> {
        match self {
            QuestionView::Bool(q) => q.instructions,
            QuestionView::Choice(q) => q.instructions,
            QuestionView::Score(q) => q.instructions,
        }
    }
}

impl View for Question {
    type V = QuestionView;

    open spec fn view(&self) -> QuestionView {
        match self {
            Question::Bool(q) => QuestionView::Bool(q@),
            Question::Choice(q) => QuestionView::Choice(q@),
            Question::Score(q) => QuestionView::Score(q@),
        }
    }
}

/// The `type` that a Boolean question is sent with: the native protocol calls it `noul`.
pub open spec fn bool_type_name(backend: Backend) -> Seq<char> {
    match backend {
        Backend::Vercel => "boolean"@,
        Backend::TypeSafe => "noul"@,
    }
}

/// The criteria object of a Boolean question: its `true` and `false` descriptions, those given.
pub open spec fn bool_criteria(q: BoolQuestionView) -> Seq<(Seq<char>, JsonValue)> {
    (match q.when_true {
        Some(d) => seq![("true"@, JsonValue::Str(d))],
        None => Seq::empty(),
    }) + (match q.when_false {
        Some(d) => seq![("false"@, JsonValue::Str(d))],
        None => Seq::empty(),
    })
}

/// What is wrong with option `k` of a choice, in the order checked: a blank key,
/// a blank description, or a key that an earlier option already has.
pub open spec fn option_fault(options: Seq<(Seq<char>, Seq<char>)>, k: int) -> Option<Seq<char>> {
    if is_blank(options[k].0) {
        Some(blank_message("option key"@))
    } else if is_blank(options[k].1) {
        Some(blank_message("option description"@))
    } else if exists|j: int| 0 <= j < k && #[trigger] options[j].0 == options[k].0 {
        Some("duplicate choice option key"@)
    } else {
        None
    }
}

/// The fault of the first option, from index `k` on, that has one.
pub open spec fn first_option_fault(options: Seq<(Seq<char>, Seq<char>)>, k: int) -> Option<Seq<char>>
    decreases options.len() - k,
{
    if k < 0 || k >= options.len() {
        None
    } else {
        match option_fault(options, k) {
            Some(m) => Some(m),
            None => first_option_fault(options, k + 1),
        }
    }
}

/// What a question is sent as, or the configuration message that refuses it.
pub open spec fn encoding(q: QuestionView, backend: Backend) -> Result<JsonValue, Seq<char>> {
    if is_blank(q.id()) {
        Err(blank_message("question ID"@))
    } else if is_blank(q.instructions()) {
        Err(blank_message("question instructions"@))
    } else {
        match q {
            QuestionView::Bool(b) => {
                if b.when_true matches Some(d) && is_blank(d) {
                    Err(blank_message("boolean criterion"@))
                } else if b.when_false matches Some(d) && is_blank(d) {
                    Err(blank_message("boolean criterion"@))
                } else {
                    let head = seq![
                        ("type"@, JsonValue::Str(bool_type_name(backend))),
                        ("instructions"@, JsonValue::Str(b.instructions)),
                    ];
                    let criteria = bool_criteria(b);
                    if criteria.len() == 0 {
                        Ok(JsonValue::Object(head))
                    } else {
                        Ok(JsonValue::Object(head.push(("criteria"@, JsonValue::Object(criteria)))))
                    }
                }
            },
            QuestionView::Choice(c) => {
                if c.options.len() == 0 {
                    Err("choice requires at least one option"@)
                } else if first_option_fault(c.options, 0) is Some {
                    Err(first_option_fault(c.options, 0)->0)
                } else {
                    Ok(JsonValue::Object(seq![
                        ("type"@, JsonValue::Str("choice"@)),
                        ("instructions"@, JsonValue::Str(c.instructions)),
                        ("criteria"@, JsonValue::Object(
                            c.options.map_values(|o: (Seq<char>, Seq<char>)| (o.0, JsonValue::Str(o.1))),
                        )),
                    ]))
                }
            },
            QuestionView::Score(s) => {
                if s.levels.len() < 2 {
                    Err("score requires at least two levels"@)
                } else if exists|i: int| 0 <= i < s.levels.len() && is_blank(#[trigger] s.levels[i]) {
                    Err(blank_message("score level"@))
                } else {
                    Ok(JsonValue::Object(seq![
                        ("type"@, JsonValue::Str("score"@)),
                        ("instructions"@, JsonValue::Str(s.instructions)),
                        ("criteria"@, JsonValue::Array(s.levels.map_values(|l: Seq<char>| JsonValue::Str(l)))),
                    ]))
                }
            },
        }
    }
}

/// Whether the outcome of `encode` agrees with `encoding`.
pub open spec fn encoded_as(r: Result<Json, Error>, expected: Result<JsonValue, Seq<char>>) -> bool {
    match r {
        Ok(j) => expected == Ok::<JsonValue, Seq<char>>(j.value()),
        Err(e) => e matches Error::Configuration(m) && expected == Err::<JsonValue, Seq<char>>(m@),
    }
}

/// Beyond `k`, the first fault is the first fault from `k` when no option in `[from, k)` has one.
proof fn lemma_first_fault_skips(options: Seq<(Seq<char>, Seq<char>)>, from: int, k: int)
    requires
        0 <= from <= k <= options.len(),
        forall|j: int| from <= j < k ==> option_fault(options, j) is None,
    ensures
        first_option_fault(options, from) == first_option_fault(options, k),
    decreases k - from,
{
    if from < k {
        lemma_first_fault_skips(options, from + 1, k);
    }
}

impl Question {
    /// The ID of the question.
    pub fn id(&self) -> (r: &str)
        ensures
            r@ == self@.id(),
    {
        match self {
            Question::Bool(q) => q.id.as_str(),
            Question::Choice(q) => q.id.as_str(),
            Question::Score(q) => q.id.as_str(),
        }
    }

    fn instructions(&self) -> (r: &str)
        ensures
            r@ == self@.instructions(),
    {
        match self {
            Question::Bool(q) => q.instructions.as_str(),
            Question::Choice(q) => q.instructions.as_str(),
            Question::Score(q) => q.instructions.as_str(),
        }
    }

    /// Validate the question and give the JSON it is sent as to `backend`.
    pub fn encode(&self, backend: Backend) -> (r: Result<Json, Error>)
        ensures
            encoded_as(r, encoding(self@, backend)),
    {
        nonempty(self.id(), "question ID")?;
        nonempty(self.instructions(), "question instructions")?;
        match self {
            Question::Bool(q) => Self::encode_bool(q, backend),
            Question::Choice(q) => Self::encode_choice(q),
            Question::Score(q) => Self::encode_score(q),
        }
    }

    fn encode_bool(q: &BoolQuestion, backend: Backend) -> (r: Result<Json, Error>)
        requires
            !is_blank(q@.id),
            !is_blank(q@.instructions),
        ensures
            encoded_as(r, encoding(QuestionView::Bool(q@), backend)),
    {
        let mut criteria: Vec<(String, Json)> = Vec::new();
        if let Some(d) = &q.when_true {
            nonempty(d.as_str(), "boolean criterion")?;
            criteria.push(("true".to_owned(), Json::Str(d.clone())));
        }
        if let Some(d) = &q.when_false {
            nonempty(d.as_str(), "boolean criterion")?;
            criteria.push(("false".to_owned(), Json::Str(d.clone())));
        }
        let kind = match backend {
            Backend::Vercel => "boolean",
            Backend::TypeSafe => "noul",
        };
        let ghost b = q@;
        assert(field_values(criteria@) =~= bool_criteria(b));
        let mut fields: Vec<(String, Json)> = Vec::new();
        fields.push(("type".to_owned(), Json::Str(kind.to_owned())));
        fields.push(("instructions".to_owned(), Json::Str(q.instructions.clone())));
        let has_criteria = criteria.len() > 0;
        let ghost criteria_fields = criteria;
        let ghost head = fields@;
        if has_criteria {
            fields.push(("criteria".to_owned(), Json::Object(criteria)));
        }
        let ghost all = fields;
        let r = Json::Object(fields);
        proof {
            lemma_object_value(criteria_fields);
            lemma_object_value(all);
            let expected_head = seq![
                ("type"@, JsonValue::Str(bool_type_name(backend))),
                ("instructions"@, JsonValue::Str(b.instructions)),
            ];
            assert(field_values(head) =~= expected_head);
            if has_criteria {
                assert(field_values(all@) =~= expected_head.push(("criteria"@, JsonValue::Object(bool_criteria(b)))));
            } else {
                assert(field_values(all@) =~= expected_head);
            }
        }
        Ok(r)
    }

    fn encode_choice(q: &ChoiceQuestion) -> (r: Result<Json, Error>)
        requires
            !is_blank(q@.id),
            !is_blank(q@.instructions),
        ensures
            encoded_as(r, encoding(QuestionView::Choice(q@), Backend::Vercel)),
    {
        let n = q.options.len();
        if n == 0 {
            return Err(Error::Configuration("choice requires at least one option".to_owned()));
        }
        let ghost opts = q@.options;
        let mut criteria: Vec<(String, Json)> = Vec::new();
        let mut i: usize = 0;
        while i < n
            invariant
                !is_blank(q@.id),
                !is_blank(q@.instructions),
                n == q.options@.len(),
                opts == q@.options,
                opts.len() == n,
                i <= n,
                forall|j: int| 0 <= j < i ==> option_fault(opts, j) is None,
                criteria@.len() == i,
                forall|j: int| 0 <= j < i ==> (#[trigger] criteria@[j]).0@ == opts[j].0
                    && criteria@[j].1.value() == JsonValue::Str(opts[j].1),
            decreases n - i,
        {
            let key = &q.options[i].0;
            let description = &q.options[i].1;
            assert(key@ == opts[i as int].0 && description@ == opts[i as int].1);
            if let Err(e) = nonempty(key.as_str(), "option key") {
                proof {
                    lemma_first_fault_skips(opts, 0, i as int);
                    assert(option_fault(opts, i as int) == Some(blank_message("option key"@)));
                }
                return Err(e);
            }
            if let Err(e) = nonempty(description.as_str(), "option description") {
                proof { lemma_first_fault_skips(opts, 0, i as int); }
                return Err(e);
            }
            let mut j: usize = 0;
            while j < i
                invariant
                    !is_blank(q@.id),
                    !is_blank(q@.instructions),
                    i < n,
                    n == q.options@.len(),
                    forall|k: int| 0 <= k < i ==> option_fault(opts, k) is None,
                    opts == q@.options,
                    j <= i,
                    key@ == opts[i as int].0,
                    !is_blank(opts[i as int].0),
                    !is_blank(opts[i as int].1),
                    forall|k: int| 0 <= k < j ==> opts[k].0 != opts[i as int].0,
                decreases i - j,
            {
                if q.options[j].0 == *key {
                    assert(opts[j as int].0 == opts[i as int].0);
                    proof { lemma_first_fault_skips(opts, 0, i as int); }
                    return Err(Error::Configuration("duplicate choice option key".to_owned()));
                }
                j = j + 1;
            }
            assert(option_fault(opts, i as int) is None);
            criteria.push((key.clone(), Json::Str(description.clone())));
            i = i + 1;
        }
        proof { lemma_first_fault_skips(opts, 0, n as int); }
        let mut fields: Vec<(String, Json)> = Vec::new();
        fields.push(("type".to_owned(), Json::Str("choice".to_owned())));
        fields.push(("instructions".to_owned(), Json::Str(q.instructions.clone())));
        let ghost criteria_fields = criteria;
        fields.push(("criteria".to_owned(), Json::Object(criteria)));
        let ghost all = fields;
        let r = Json::Object(fields);
        proof {
            lemma_object_value(criteria_fields);
            lemma_object_value(all);
            let expected = opts.map_values(|o: (Seq<char>, Seq<char>)| (o.0, JsonValue::Str(o.1)));
            assert(field_values(criteria_fields@) =~= expected);
            assert(field_values(all@) =~= seq![
                ("type"@, JsonValue::Str("choice"@)),
                ("instructions"@, JsonValue::Str(q@.instructions)),
                ("criteria"@, JsonValue::Object(expected)),
            ]);
        }
        Ok(r)
    }

    fn encode_score(q: &ScoreQuestion) -> (r: Result<Json, Error>)
        requires
            !is_blank(q@.id),
            !is_blank(q@.instructions),
        ensures
            encoded_as(r, encoding(QuestionView::Score(q@), Backend::Vercel)),
    {
        let n = q.levels.len();
        if n < 2 {
            return Err(Error::Configuration("score requires at least two levels".to_owned()));
        }
        let ghost levels = q@.levels;
        let mut criteria: Vec<Json> = Vec::new();
        let mut i: usize = 0;
        while i < n
            invariant
                !is_blank(q@.id),
                !is_blank(q@.instructions),
                n == q.levels@.len(),
                n >= 2,
                levels == q@.levels,
                levels.len() == n,
                i <= n,
                forall|j: int| 0 <= j < i ==> !is_blank(#[trigger] levels[j]),
                criteria@.len() == i,
                forall|j: int| 0 <= j < i ==> (#[trigger] criteria@[j]).value() == JsonValue::Str(levels[j]),
            decreases n - i,
        {
            let level = &q.levels[i];
            assert(level@ == levels[i as int]);
            if blank(level.as_str()) {
                assert(is_blank(levels[i as int]));
                return Err(Error::Configuration(crate::text::join("score level", " must not be empty")));
            }
            criteria.push(Json::Str(level.clone()));
            i = i + 1;
        }
        let mut fields: Vec<(String, Json)> = Vec::new();
        fields.push(("type".to_owned(), Json::Str("score".to_owned())));
        fields.push(("instructions".to_owned(), Json::Str(q.instructions.clone())));
        let ghost criteria_items = criteria;
        fields.push(("criteria".to_owned(), Json::Array(criteria)));
        let ghost all = fields;
        let r = Json::Object(fields);
        proof {
            lemma_array_value(criteria_items);
            lemma_object_value(all);
            let expected = levels.map_values(|l: Seq<char>| JsonValue::Str(l));
            assert(item_values(criteria_items@) =~= expected);
            assert(field_values(all@) =~= seq![
                ("type"@, JsonValue::Str("score"@)),
                ("instructions"@, JsonValue::Str(q@.instructions)),
                ("criteria"@, JsonValue::Array(expected)),
            ]);
        }
        Ok(r)
    }
}

} // verus!
