//! Deterministic rule engine: compile a rule set, enumerate candidate
//! entities, resolve facts, apply operators and emit findings.

pub mod compile;
pub mod condition;
pub mod context;
pub mod engine;
pub mod error;
pub mod facts;
pub mod finding;
pub mod operator;
pub mod path;
pub mod regex_support;
pub mod target;
pub mod template;

pub use compile::{compile, CompiledRule, CompiledRuleSet};
pub use context::{EvalContext, EvalTarget};
pub use engine::{evaluate, evaluate_with_source, EvaluationResult};
pub use error::{CompileIssue, EngineError};
pub use finding::build as build_finding;
