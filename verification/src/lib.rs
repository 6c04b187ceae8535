//! Typed evaluation requests to TypeSafe or Vercel AI Gateway: questions,
//! request validation and encoding, response validation, and typed answer
//! access. Sending the request and parsing the reply's JSON are left to the
//! caller, which hands the parsed values over and takes validated answers back.

pub mod answer;
pub mod asking;
pub mod config;
pub mod decode;
pub mod endpoint;
pub mod error;
pub mod json;
pub mod laws;
pub mod native;
pub mod question;
pub mod request;
pub mod text;

pub use answer::{Answers, BoolAnswer, ChoiceAnswer, Real, ScoreAnswer, Usage};
pub use asking::{Asking, Phase, Step};
pub use config::{Backend, Config, TypeSafeConfig, VercelConfig};
pub use error::Error;
pub use json::Json;
pub use question::{BoolQuestion, ChoiceQuestion, ScoreQuestion};
