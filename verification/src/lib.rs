//! Filters for Bun's output: test results, install logs, build summaries and the
//! output of scripts, each cut down to what matters.
//!
//! A filter strips the terminal's escape sequences, reads the lines, asks the patterns
//! what each line is, and renders a report. Its contract is one function of the output
//! and the exit code; the `law_` functions say what that function promises.
pub mod ansi;
pub mod bun_build;
pub mod bun_install;
pub mod bun_run;
pub mod bun_test;
pub mod command;
pub mod kinds;
pub mod limits;
pub mod lines;
pub mod listing;
pub mod patterns;
pub mod report;
pub mod test_laws;
pub mod text;
