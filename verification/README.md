# openasking

Typed evaluation requests to TypeSafe or Vercel AI Gateway, with the request
validation, the request encoding, the response validation and the typed answer
access proved correct with Verus.

## Layout

- `src/` — the verified library.
  - `config.rs`: provider configurations (`VercelConfig`, `TypeSafeConfig`,
    `Config`) and their defaults.
  - `question.rs`: Boolean, choice and score questions and their JSON encoding
    for each protocol.
  - `request.rs`: `prepare`, which decides every refusal of a request before
    anything is sent and assembles the headers and the body.
  - `endpoint.rs`: which endpoint URLs are accepted.
  - `asking.rs`: the request's life cycle (`start` / `complete`): validated on
    first start, sent at most once.
  - `decode.rs`, `native.rs`: validation of a reply of either protocol against
    the questions asked, given the verdicts on its floating-point numbers.
  - `answer.rs`: validated answers and typed access by question ID.
  - `laws.rs`: properties that span several functions.
  - `json.rs`, `text.rs`, `error.rs`: JSON documents, text helpers, errors.
- `app/` — the asynchronous client around the library: environment variables,
  serialization of the caller's state, HTTP, JSON parsing of replies, and the
  floating-point checks whose verdicts the library consumes.
- `tests/` — tests of the library's public functions.
