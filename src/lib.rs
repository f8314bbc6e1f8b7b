//! Translation of a build tool's diagnostics: which lines to translate, how
//! to ask for a translation and read the answer, a cache of answers, and a
//! gate that spaces requests in time.
pub mod cache;
pub mod classify;
pub mod json_path;
pub mod line;
pub mod rate_limit;
pub mod request;
pub mod text;

pub use cache::{build_prompt, failure_string, Lookup, TranslationCache};
pub use classify::{should_translate, should_translate_folded};
pub use json_path::{extract_json_path, JsonValue};
pub use line::{annotate, prepare_line, LineAction};
pub use rate_limit::RateLimiter;
pub use request::{
    build_request_body, default_body_around, default_language, default_response_path, effective_rate,
    translation_from_response, RequestShape,
};
