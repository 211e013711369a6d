# workshop

Extraction of data from web pages, verified with Verus.

A value is the finite sequence of results it yields (`Vec<Result<T, E>>`).
Stages read a value and yield a new one; each wraps the errors it reads in
`Upstream`, so an error reaches the end of the chain it entered.

- `src/stages.rs`: the stages (`http_get`, `html`, `element`, `content_of`,
  `attr`, `json`, `js`, `jsonp`, `index`, `indices`, `json_string`,
  `relative_to`, `either`), each with a model-level specification.
- `src/errors.rs`: the error of each stage and its model.
- `src/text.rs`: trimming, quote swapping and the recognition of a JSONP call.
- `src/json.rs`, `src/html.rs`, `src/links.rs`, `src/http.rs`: JSON values,
  HTML documents and elements, link resolution and the page client; the calls
  into `serde_json`, `scraper`, `url` and `regex-syntax` are wrappers whose
  contracts name what those crates compute.
- `src/workshop.rs`: `Workshop` (holds the client) and `WorkshopValue`
  (chains stages).
- `src/run.rs`: the extraction `run`, whose contract is the composition of
  the stages' specifications, whatever the client answers.
- `src/laws.rs`: properties of the stages proved for all inputs.
- `app/`: asynchronous clients, `std::error::Error` for the client error,
  and items as streams.
