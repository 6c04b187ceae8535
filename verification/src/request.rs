use vstd::prelude::*;

use serde_json::Error as JsonFailure;

use crate::config::{key_env_name, Backend, Config, ConfigView, Settings, SettingsView, Timeout};
use crate::endpoint::{endpoint_fault, parsed_endpoint, validate_endpoint};
use crate::error::Error;
use crate::json::{field_values, lemma_object_value, Json, JsonValue};
use crate::question::{encoded_as, encoding, Question, QuestionView};
use crate::text::{
    blank, blank_message, header_value_accepts, is_blank, is_header_value, join, nonempty,
    same_text,
};

verus! {

/// Why a request is refused before anything is sent.
pub enum Refusal {
    /// A configuration error with this message.
    Configuration(Seq<char>),
    /// The state could not be serialized.
    Serialization,
}

/// The state of a request, as far as preparation reads it: absent, not
/// serializable, or a JSON value.
pub open spec fn state_view(state: Option<Result<Json, JsonFailure>>) -> Option<Result<JsonValue, ()>> {
    match state {
        None => None,
        Some(Err(_)) => Some(Err(())),
        Some(Ok(j)) => Some(Ok(j.value())),
    }
}

/// A state must be a nonempty string, object, or array (not null, a Boolean or a number).
pub open spec fn state_acceptable(v: JsonValue) -> bool {
    match v {
        JsonValue::Str(s) => !is_blank(s),
        JsonValue::Object(fields) => fields.len() > 0,
        JsonValue::Array(items) => items.len() > 0,
        _ => false,
    }
}

/// The state that is sent, or why the request is refused on account of it.
pub open spec fn state_outcome(state: Option<Result<JsonValue, ()>>) -> Result<JsonValue, Refusal> {
    match state {
        None => Err(Refusal::Configuration("state is required"@)),
        Some(Err(_)) => Err(Refusal::Serialization),
        Some(Ok(v)) => if state_acceptable(v) {
            Ok(v)
        } else {
            Err(Refusal::Configuration("state must be a nonempty string, object, or array"@))
        },
    }
}

/// What is wrong with question `k`, in the order checked: its own encoding, then
/// an ID that an earlier question already has.
pub open spec fn question_fault(qs: Seq<QuestionView>, backend: Backend, k: int) -> Option<Seq<char>> {
    match encoding(qs[k], backend) {
        Err(m) => Some(m),
        Ok(_) => if exists|j: int| 0 <= j < k && #[trigger] qs[j].id() == qs[k].id() {
            Some("duplicate question ID"@)
        } else {
            None
        },
    }
}

/// The fault of the first question, from index `k` on, that has one.
pub open spec fn first_question_fault(qs: Seq<QuestionView>, backend: Backend, k: int) -> Option<Seq<char>>
    decreases qs.len() - k,
{
    if k < 0 || k >= qs.len() {
        None
    } else {
        match question_fault(qs, backend, k) {
            Some(m) => Some(m),
            None => first_question_fault(qs, backend, k + 1),
        }
    }
}

/// The questions object that is sent: each question's ID with its encoding.
pub open spec fn questions_fields(qs: Seq<QuestionView>, backend: Backend) -> Seq<(Seq<char>, JsonValue)> {
    qs.map_values(|q: QuestionView| (q.id(), encoding(q, backend)->Ok_0))
}

/// The questions object, or the configuration message that refuses the questions.
pub open spec fn questions_outcome(qs: Seq<QuestionView>, backend: Backend) -> Result<Seq<(Seq<char>, JsonValue)>, Seq<char>> {
    if qs.len() == 0 {
        Err("at least one question is required"@)
    } else if first_question_fault(qs, backend, 0) is Some {
        Err(first_question_fault(qs, backend, 0)->0)
    } else {
        Ok(questions_fields(qs, backend))
    }
}

/// The value of the `authorization` header for an API key.
pub open spec fn bearer(key: Seq<char>) -> Seq<char> {
    "Bearer "@ + key
}

/// The headers that a backend is sent, for an API key and a model.
pub open spec fn protocol_headers(backend: Backend, key: Seq<char>, model: Seq<char>) -> Seq<(Seq<char>, Seq<char>)> {
    match backend {
        Backend::Vercel => seq![
            ("authorization"@, bearer(key)),
            ("ai-gateway-auth-method"@, "api-key"@),
            ("ai-gateway-protocol-version"@, "0.0.1"@),
            ("ai-evaluation-model-specification-version"@, "4"@),
            ("ai-model-id"@, model),
        ],
        Backend::TypeSafe => seq![("authorization"@, bearer(key))],
    }
}

/// The headers, or the configuration message that refuses the credentials or the model.
pub open spec fn headers_outcome(backend: Backend, s: SettingsView) -> Result<Seq<(Seq<char>, Seq<char>)>, Seq<char>> {
    match s.api_key {
        None => Err(key_env_name(backend) + " or with_api_key is required"@),
        Some(key) => if is_blank(key) {
            Err(blank_message("API key"@))
        } else if !is_header_value(bearer(key)) {
            Err("API key is not a valid HTTP header value"@)
        } else if is_blank(s.model) {
            Err(blank_message("model"@))
        } else if backend == Backend::Vercel && !is_header_value(s.model) {
            Err("model is not a valid HTTP header value"@)
        } else {
            Ok(protocol_headers(backend, key, s.model))
        },
    }
}

/// The body that is sent: the native protocol also names the model.
pub open spec fn body_value(backend: Backend, model: Seq<char>, state: JsonValue, questions: Seq<(Seq<char>, JsonValue)>) -> JsonValue {
    match backend {
        Backend::Vercel => JsonValue::Object(seq![
            ("state"@, state),
            ("questions"@, JsonValue::Object(questions)),
        ]),
        Backend::TypeSafe => JsonValue::Object(seq![
            ("model"@, JsonValue::Str(model)),
            ("state"@, state),
            ("questions"@, JsonValue::Object(questions)),
        ]),
    }
}

/// What a prepared request holds.
pub struct PreparedView {
    pub backend: Backend,
    pub endpoint: Seq<char>,
    pub headers: Seq<(Seq<char>, Seq<char>)>,
    pub body: JsonValue,
    pub timeout: Timeout,
    pub client: Option<reqwest::Client>,
    pub questions: Seq<QuestionView>,
}

/// The outcome of preparing a request, in the order the checks are made: the
/// state, the questions, the credentials and model, the endpoint, the timeout.
pub open spec fn preparation(
    cfg: ConfigView,
    state: Option<Result<JsonValue, ()>>,
    qs: Seq<QuestionView>,
) -> Result<PreparedView, Refusal> {
    let s = cfg.settings;
    match state_outcome(state) {
        Err(refusal) => Err(refusal),
        Ok(state_value) => match questions_outcome(qs, cfg.backend) {
            Err(m) => Err(Refusal::Configuration(m)),
            Ok(questions) => match headers_outcome(cfg.backend, s) {
                Err(m) => Err(Refusal::Configuration(m)),
                Ok(headers) => if endpoint_fault(parsed_endpoint(s.endpoint)) is Some {
                    Err(Refusal::Configuration(endpoint_fault(parsed_endpoint(s.endpoint))->0))
                } else if s.timeout.secs == 0 && s.timeout.nanos == 0 {
                    Err(Refusal::Configuration("timeout must be greater than zero"@))
                } else {
                    Ok(PreparedView {
                        backend: cfg.backend,
                        endpoint: s.endpoint,
                        headers,
                        body: body_value(cfg.backend, s.model, state_value, questions),
                        timeout: s.timeout,
                        client: s.client,
                        questions: qs,
                    })
                },
            },
        },
    }
}

/// A validated request, ready to be sent.
pub struct PreparedRequest {
    /// The protocol of the endpoint.
    pub backend: Backend,
    /// The full evaluation URL.
    pub endpoint: String,
    /// Header names and values; the `authorization` value is a credential.
    pub headers: Vec<(String, String)>,
    /// The JSON body.
    pub body: Json,
    /// The total request timeout.
    pub timeout: Timeout,
    /// The HTTP client to use; the shared default when `None`.
    pub client: Option<reqwest::Client>,
    /// The questions, to check the response against.
    pub questions: Vec<Question>,
}

impl View for PreparedRequest {
    type V = PreparedView;

    open spec fn view(&self) -> PreparedView {
        PreparedView {
            backend: self.backend,
            endpoint: self.endpoint@,
            headers: self.headers@.map_values(|h: (String, String)| (h.0@, h.1@)),
            body: self.body.value(),
            timeout: self.timeout,
            client: self.client,
            questions: self.questions@.map_values(|q: Question| q@),
        }
    }
}

/// Whether the outcome of `prepare` agrees with `preparation`.
pub open spec fn prepared_as(
    r: Result<PreparedRequest, Error>,
    state: Option<Result<Json, JsonFailure>>,
    expected: Result<PreparedView, Refusal>,
) -> bool {
    match r {
        Ok(p) => expected == Ok::<PreparedView, Refusal>(p@),
        Err(Error::Configuration(m)) => expected == Err::<PreparedView, Refusal>(Refusal::Configuration(m@)),
        Err(Error::StateSerialization(e)) => expected == Err::<PreparedView, Refusal>(Refusal::Serialization)
            && state == Some(Err::<Json, JsonFailure>(e)),
        Err(_) => false,
    }
}

/// Whether the state may be sent.
pub fn state_is_acceptable(state: &Json) -> (r: bool)
    ensures
        r == state_acceptable(state.value()),
{
    match state {
        Json::Str(s) => !blank(s.as_str()),
        Json::Object(fields) => {
            proof { lemma_object_value(*fields); }
            fields.len() > 0
        },
        Json::Array(items) => {
            proof { crate::json::lemma_array_value(*items); }
            items.len() > 0
        },
        _ => false,
    }
}

/// Beyond `k`, the first fault is the first fault from `k` when no question in `[from, k)` has one.
proof fn lemma_first_question_fault_skips(qs: Seq<QuestionView>, backend: Backend, from: int, k: int)
    requires
        0 <= from <= k <= qs.len(),
        forall|j: int| from <= j < k ==> question_fault(qs, backend, j) is None,
    ensures
        first_question_fault(qs, backend, from) == first_question_fault(qs, backend, k),
    decreases k - from,
{
    if from < k {
        lemma_first_question_fault_skips(qs, backend, from + 1, k);
    }
}

/// Encode every question, in order, refusing the first that is invalid or repeats an ID.
fn encode_questions(questions: &Vec<Question>, backend: Backend) -> (r: Result<Vec<(String, Json)>, Error>)
    ensures
        match (r, questions_outcome(questions@.map_values(|q: Question| q@), backend)) {
            (Ok(fields), Ok(expected)) => field_values(fields@) == expected,
            (Err(e), Err(m)) => e matches Error::Configuration(t) && t@ == m,
            _ => false,
        },
{
    let ghost qs = questions@.map_values(|q: Question| q@);
    let n = questions.len();
    if n == 0 {
        return Err(Error::Configuration("at least one question is required".to_owned()));
    }
    let mut fields: Vec<(String, Json)> = Vec::new();
    let mut i: usize = 0;
    while i < n
        invariant
            n == questions@.len(),
            qs == questions@.map_values(|q: Question| q@),
            qs.len() == n,
            n > 0,
            i <= n,
            forall|j: int| 0 <= j < i ==> question_fault(qs, backend, j) is None,
            fields@.len() == i,
            forall|j: int| 0 <= j < i ==> (#[trigger] fields@[j]).0@ == qs[j].id()
                && encoding(qs[j], backend) == Ok::<JsonValue, Seq<char>>(fields@[j].1.value()),
        decreases n - i,
    {
        let q = &questions[i];
        assert(q@ == qs[i as int]);
        let encoded = q.encode(backend);
        match encoded {
            Err(e) => {
                proof { lemma_first_question_fault_skips(qs, backend, 0, i as int); }
                return Err(e);
            },
            Ok(value) => {
                let mut j: usize = 0;
                while j < i
                    invariant
                        i < n,
                        n == questions@.len(),
                        qs == questions@.map_values(|q: Question| q@),
                        n > 0,
                        j <= i,
                        q@ == qs[i as int],
                        encoding(qs[i as int], backend) == Ok::<JsonValue, Seq<char>>(value.value()),
                        forall|k: int| 0 <= k < i ==> question_fault(qs, backend, k) is None,
                        forall|k: int| 0 <= k < j ==> qs[k].id() != qs[i as int].id(),
                    decreases i - j,
                {
                    assert(questions@[j as int]@ == qs[j as int]);
                    if same_text(questions[j].id(), q.id()) {
                        assert(qs[j as int].id() == qs[i as int].id());
                        proof { lemma_first_question_fault_skips(qs, backend, 0, i as int); }
                        return Err(Error::Configuration("duplicate question ID".to_owned()));
                    }
                    j = j + 1;
                }
                assert(question_fault(qs, backend, i as int) is None);
                fields.push((q.id().to_owned(), value));
                i = i + 1;
            },
        }
    }
    proof {
        lemma_first_question_fault_skips(qs, backend, 0, n as int);
        assert(field_values(fields@) =~= questions_fields(qs, backend));
    }
    Ok(fields)
}


/// The views of a list of headers.
pub open spec fn header_texts(headers: Seq<(String, String)>) -> Seq<(Seq<char>, Seq<char>)> {
    headers.map_values(|h: (String, String)| (h.0@, h.1@))
}

fn header(name: &str, value: &str) -> (r: (String, String))
    ensures
        r.0@ == name@,
        r.1@ == value@,
{
    (name.to_owned(), value.to_owned())
}

/// Check the API key and the model and give the headers that the backend is sent.
fn credential_headers(backend: Backend, settings: &Settings) -> (r: Result<Vec<(String, String)>, Error>)
    ensures
        match (r, headers_outcome(backend, settings@)) {
            (Ok(h), Ok(expected)) => header_texts(h@) == expected,
            (Err(e), Err(m)) => e matches Error::Configuration(t) && t@ == m,
            _ => false,
        },
{
    let key = match settings.api_key() {
        None => return Err(Error::Configuration(join(backend.key_env(), " or with_api_key is required"))),
        Some(k) => k,
    };
    nonempty(key, "API key")?;
    let auth = join("Bearer ", key);
    if !header_value_accepts(auth.as_str()) {
        return Err(Error::Configuration("API key is not a valid HTTP header value".to_owned()));
    }
    let model = settings.model();
    nonempty(model, "model")?;
    let mut headers: Vec<(String, String)> = Vec::new();
    headers.push(("authorization".to_owned(), auth));
    match backend {
        Backend::Vercel => {
            if !header_value_accepts(model) {
                return Err(Error::Configuration("model is not a valid HTTP header value".to_owned()));
            }
            headers.push(header("ai-gateway-auth-method", "api-key"));
            headers.push(header("ai-gateway-protocol-version", "0.0.1"));
            headers.push(header("ai-evaluation-model-specification-version", "4"));
            headers.push(header("ai-model-id", model));
        },
        Backend::TypeSafe => {},
    }
    proof {
        let expected = protocol_headers(backend, settings@.api_key->0, settings@.model);
        assert(header_texts(headers@) =~= expected);
    }
    Ok(headers)
}

/// Validate a request and put together what is sent. Every refusal is decided
/// here, before any networking: `preparation` states which comes first.
pub fn prepare(config: Config, state: Option<Result<Json, JsonFailure>>, questions: Vec<Question>) -> (r: Result<PreparedRequest, Error>)
    ensures
        prepared_as(r, state, preparation(config@, state_view(state), questions@.map_values(|q: Question| q@))),
{
    let backend = config.backend();
    let state_value = match state {
        None => return Err(Error::Configuration("state is required".to_owned())),
        Some(Err(e)) => return Err(Error::StateSerialization(e)),
        Some(Ok(j)) => j,
    };
    if !state_is_acceptable(&state_value) {
        return Err(Error::Configuration("state must be a nonempty string, object, or array".to_owned()));
    }
    let question_fields = encode_questions(&questions, backend)?;
    let settings = config.settings();
    let headers = credential_headers(backend, settings)?;
    validate_endpoint(settings.endpoint())?;
    let timeout = settings.timeout();
    if timeout.is_zero() {
        return Err(Error::Configuration("timeout must be greater than zero".to_owned()));
    }
    let ghost state_json = state_value;
    let ghost questions_json = question_fields;
    let mut body_fields: Vec<(String, Json)> = Vec::new();
    match backend {
        Backend::TypeSafe => {
            body_fields.push(("model".to_owned(), Json::Str(settings.model().to_owned())));
        },
        Backend::Vercel => {},
    }
    body_fields.push(("state".to_owned(), state_value));
    body_fields.push(("questions".to_owned(), Json::Object(question_fields)));
    let ghost body_json = body_fields;
    let prepared = PreparedRequest {
        backend,
        endpoint: settings.endpoint().to_owned(),
        headers,
        body: Json::Object(body_fields),
        timeout,
        client: settings.client(),
        questions,
    };
    proof {
        lemma_object_value(questions_json);
        lemma_object_value(body_json);
        let qs = questions@.map_values(|q: Question| q@);
        let expected = body_value(backend, settings@.model, state_json.value(), field_values(questions_json@));
        assert(JsonValue::Object(field_values(body_json@)) == expected) by {
            match backend {
                Backend::Vercel => {
                    assert(field_values(body_json@) =~= seq![
                        ("state"@, state_json.value()),
                        ("questions"@, JsonValue::Object(field_values(questions_json@))),
                    ]);
                },
                Backend::TypeSafe => {
                    assert(field_values(body_json@) =~= seq![
                        ("model"@, JsonValue::Str(settings@.model)),
                        ("state"@, state_json.value()),
                        ("questions"@, JsonValue::Object(field_values(questions_json@))),
                    ]);
                },
            }
        }
    }
    Ok(prepared)
}

} // verus!
