//! Runs named, multi-step shell test scripts declared in a project manifest and
//! renders the outcomes as a JUnit-style XML test-suite report.
//!
//! The library holds every decision of that process: how the manifest's test
//! table is located and decoded, how one step's process outcome is classified,
//! when a test stops, how the suite report is assembled and counted, and the
//! exact text of the XML report. Spawning processes, reading clocks and files,
//! and writing output are left to the caller.
mod text;
pub mod report;
pub mod runner;
pub mod config;
pub mod xml;
pub mod laws;

pub use config::{ConfigValue, Field, LoadError};
pub use report::{Error, TestReport, TestSuiteContent, TestSuiteReport};
pub use runner::{Poll, ProcessEnd, StepAction, TestSpec, TestSuite, step_action, step_outcome};
pub use text::{is_whitespace_char, same_text, split_words, trim_end};
pub use xml::{render, render_with};
