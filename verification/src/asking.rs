use vstd::prelude::*;

use std::time::Duration;

use serde_json::Error as JsonFailure;

use crate::config::{timeout_of, Config, ConfigView, SettingsView};
use crate::error::Error;
use crate::json::Json;
use crate::question::{BoolQuestion, ChoiceQuestion, Question, QuestionView, ScoreQuestion};
use crate::request::{prepare, prepared_as, preparation, state_view, PreparedRequest};

verus! {

/// What a request under construction holds.
struct Draft {
    config: Config,
    state: Option<Result<Json, JsonFailure>>,
    questions: Vec<Question>,
}

enum Execution {
    Building(Draft),
    Running,
    Done,
}

/// A single lazy evaluation request: configure it, then drive it with `start`
/// and `complete`. It is validated when first started; it sends at most once.
pub struct Asking {
    execution: Execution,
}

/// Where a request stands.
pub enum Phase {
    /// Still being configured: the provider configuration, the state (absent,
    /// unserializable, or JSON) and the questions so far.
    Building { config: ConfigView, state: Option<Result<Json, JsonFailure>>, questions: Seq<QuestionView> },
    /// Sent; the reply is awaited.
    Running,
    /// Finished, successfully or not.
    Done,
}

/// What the caller is to do after starting a request.
pub enum Step {
    /// Send this request and await its reply, then call `complete`.
    Send(PreparedRequest),
    /// The request is in flight: keep awaiting its reply.
    Wait,
    /// The request is over with this error.
    Finished(Error),
}

impl View for Asking {
    type V = Phase;

    closed spec fn view(&self) -> Phase {
        match self.execution {
            Execution::Building(d) => Phase::Building {
                config: d.config@,
                state: d.state,
                questions: d.questions@.map_values(|q: Question| q@),
            },
            Execution::Running => Phase::Running,
            Execution::Done => Phase::Done,
        }
    }
}

/// The phase a request is in after it is started from `ph`.
pub open spec fn phase_after_start(ph: Phase) -> Phase {
    match ph {
        Phase::Building { config, state, questions } => {
            if preparation(config, state_view(state), questions) is Ok {
                Phase::Running
            } else {
                Phase::Done
            }
        },
        Phase::Running => Phase::Running,
        Phase::Done => Phase::Done,
    }
}

/// Whether `step` is what starting a request in phase `ph` gives.
pub open spec fn started_as(ph: Phase, step: Step) -> bool {
    match ph {
        Phase::Building { config, state, questions } => match step {
            Step::Send(p) => preparation(config, state_view(state), questions) == Ok::<_, crate::request::Refusal>(p@),
            Step::Finished(e) => prepared_as(Err(e), state, preparation(config, state_view(state), questions)),
            Step::Wait => false,
        },
        Phase::Running => step is Wait,
        Phase::Done => step matches Step::Finished(Error::AlreadyCompleted),
    }
}

impl Asking {
    /// A request to the provider of `config`, with no state and no questions yet.
    pub fn new(config: Config) -> (r: Asking)
        ensures
            r@ == (Phase::Building { config: config@, state: None, questions: Seq::empty() }),
    {
        let questions: Vec<Question> = Vec::new();
        assert(questions@.map_values(|q: Question| q@) =~= Seq::<QuestionView>::empty());
        Asking { execution: Execution::Building(Draft { config, state: None, questions }) }
    }

    /// Whether the request can still be configured.
    pub fn is_building(&self) -> (r: bool)
        ensures
            r == (self@ is Building),
    {
        match self.execution {
            Execution::Building(_) => true,
            _ => false,
        }
    }

    fn into_draft(self) -> (r: Draft)
        requires
            self@ is Building,
        ensures
            self@ == (Phase::Building {
                config: r.config@,
                state: r.state,
                questions: r.questions@.map_values(|q: Question| q@),
            }),
    {
        match self.execution {
            Execution::Building(d) => d,
            _ => {
                assert(false);
                Draft { config: Config::Vercel(crate::config::VercelConfig::new(None)), state: None, questions: Vec::new() }
            },
        }
    }

    /// Override the API key of the configuration.
    pub fn with_api_key(self, key: &str) -> (r: Asking)
        requires
            self@ is Building,
        ensures
            self@ matches Phase::Building { config, state, questions } && r@ == (Phase::Building {
                config: ConfigView { settings: SettingsView { api_key: Some(key@), ..config.settings }, ..config },
                state,
                questions,
            }),
    {
        let Draft { config, state, questions } = self.into_draft();
        Asking::from_draft(Draft { config: config.with_api_key(key), state, questions })
    }

    /// Set the full evaluation endpoint of the configuration.
    pub fn with_endpoint(self, endpoint: &str) -> (r: Asking)
        requires
            self@ is Building,
        ensures
            self@ matches Phase::Building { config, state, questions } && r@ == (Phase::Building {
                config: ConfigView { settings: SettingsView { endpoint: endpoint@, ..config.settings }, ..config },
                state,
                questions,
            }),
    {
        let Draft { config, state, questions } = self.into_draft();
        Asking::from_draft(Draft { config: config.with_endpoint(endpoint), state, questions })
    }

    /// Set the total HTTP request timeout of the configuration.
    pub fn with_timeout(self, timeout: Duration) -> (r: Asking)
        requires
            self@ is Building,
        ensures
            self@ matches Phase::Building { config, state, questions } && r@ == (Phase::Building {
                config: ConfigView { settings: SettingsView { timeout: timeout_of(timeout), ..config.settings }, ..config },
                state,
                questions,
            }),
    {
        let Draft { config, state, questions } = self.into_draft();
        Asking::from_draft(Draft { config: config.with_timeout(timeout), state, questions })
    }

    /// Reuse an explicitly configured HTTP connection pool.
    pub fn with_http_client(self, client: reqwest::Client) -> (r: Asking)
        requires
            self@ is Building,
        ensures
            self@ matches Phase::Building { config, state, questions } && r@ == (Phase::Building {
                config: ConfigView { settings: SettingsView { client: Some(client), ..config.settings }, ..config },
                state,
                questions,
            }),
    {
        let Draft { config, state, questions } = self.into_draft();
        Asking::from_draft(Draft { config: config.with_http_client(client), state, questions })
    }

    /// Own a snapshot of the state (its JSON form). A later call replaces it.
    pub fn state(self, state: Json) -> (r: Asking)
        requires
            self@ is Building,
        ensures
            self@ matches Phase::Building { config, questions, .. } && r@ == (Phase::Building {
                config,
                state: Some(Ok::<Json, JsonFailure>(state)),
                questions,
            }),
    {
        let Draft { config, questions, .. } = self.into_draft();
        Asking::from_draft(Draft { config, state: Some(Ok(state)), questions })
    }

    /// Record that serializing the state failed; the error surfaces when the
    /// request is started. A later call of `state` replaces it.
    pub fn state_unserializable(self, error: JsonFailure) -> (r: Asking)
        requires
            self@ is Building,
        ensures
            self@ matches Phase::Building { config, questions, .. } && r@ == (Phase::Building {
                config,
                state: Some(Err::<Json, JsonFailure>(error)),
                questions,
            }),
    {
        let Draft { config, questions, .. } = self.into_draft();
        Asking::from_draft(Draft { config, state: Some(Err(error)), questions })
    }

    fn question(self, question: Question) -> (r: Asking)
        requires
            self@ is Building,
        ensures
            self@ matches Phase::Building { config, state, questions } && r@ == (Phase::Building {
                config,
                state,
                questions: questions.push(question@),
            }),
    {
        let Draft { config, state, questions } = self.into_draft();
        let mut questions = questions;
        let ghost before = questions@;
        questions.push(question);
        assert(questions@.map_values(|q: Question| q@) =~= before.map_values(|q: Question| q@).push(question@));
        Asking::from_draft(Draft { config, state, questions })
    }

    /// Add a Boolean question.
    pub fn bool_question(self, question: BoolQuestion) -> (r: Asking)
        requires
            self@ is Building,
        ensures
            self@ matches Phase::Building { config, state, questions } && r@ == (Phase::Building {
                config,
                state,
                questions: questions.push(QuestionView::Bool(question@)),
            }),
    {
        self.question(Question::Bool(question))
    }

    /// Add a choice question.
    pub fn choice_question(self, question: ChoiceQuestion) -> (r: Asking)
        requires
            self@ is Building,
        ensures
            self@ matches Phase::Building { config, state, questions } && r@ == (Phase::Building {
                config,
                state,
                questions: questions.push(QuestionView::Choice(question@)),
            }),
    {
        self.question(Question::Choice(question))
    }

    /// Add a score question.
    pub fn score_question(self, question: ScoreQuestion) -> (r: Asking)
        requires
            self@ is Building,
        ensures
            self@ matches Phase::Building { config, state, questions } && r@ == (Phase::Building {
                config,
                state,
                questions: questions.push(QuestionView::Score(question@)),
            }),
    {
        self.question(Question::Score(question))
    }

    /// Start the request, or learn where it stands: a request still being built
    /// is validated now, before any networking, and is either to be sent or
    /// finished with its configuration error; one in flight is awaited; one that
    /// is over answers `AlreadyCompleted`.
    pub fn start(&mut self) -> (r: Step)
        ensures
            started_as(old(self)@, r),
            final(self)@ == phase_after_start(old(self)@),
    {
        let mut execution = Execution::Done;
        std::mem::swap(&mut execution, &mut self.execution);
        match execution {
            Execution::Building(d) => {
                let Draft { config, state, questions } = d;
                match prepare(config, state, questions) {
                    Ok(p) => {
                        self.execution = Execution::Running;
                        Step::Send(p)
                    },
                    Err(e) => Step::Finished(e),
                }
            },
            Execution::Running => {
                self.execution = Execution::Running;
                Step::Wait
            },
            Execution::Done => Step::Finished(Error::AlreadyCompleted),
        }
    }

    /// Record that the reply of a request in flight has arrived.
    pub fn complete(&mut self)
        requires
            old(self)@ is Running,
        ensures
            final(self)@ is Done,
    {
        self.execution = Execution::Done;
    }

    fn from_draft(d: Draft) -> (r: Asking)
        ensures
            r@ == (Phase::Building {
                config: d.config@,
                state: d.state,
                questions: d.questions@.map_values(|q: Question| q@),
            }),
    {
        Asking { execution: Execution::Building(d) }
    }
}

} // verus!
