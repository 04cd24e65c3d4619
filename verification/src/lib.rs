//! Core of a rule-based static-analysis tool: rule categories and identity
//! codes, violations with optional positions, a rule-dispatch contract,
//! ordered diagnostics, and a diagnostic renderer.
pub mod code;
pub mod diagnostic;
pub mod error;
pub mod render;
pub mod rules;
pub mod text;
pub mod violation;

pub use code::Category;
pub use code::Code;
pub use diagnostic::Diagnostic;
pub use error::LintError;
pub use rules::apply;
pub use rules::apply_parsed;
pub use rules::Method;
pub use rules::Rule;
pub use rules::Settings;
pub use rules::Tree;
pub use violation::Node;
pub use violation::Violation;
pub use violation::ViolationPosition;
