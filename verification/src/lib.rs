//! A sandboxed code-runner core: a language catalog that resolves an option
//! string into a concrete build-and-run recipe, a parser for that option
//! string, an output accumulator with a codepoint budget, a session state
//! machine that guarantees container teardown, and a display-safe encoder
//! for captured output.

pub mod lang;
pub mod logging;
pub mod options_parser;
pub mod output;
pub mod runner;
