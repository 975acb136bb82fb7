//! Triage of bounty issues: lead selection and ranking, requirement
//! extraction, complexity classification and the submission quality gate.

pub mod analyzer;
pub mod quality;
pub mod scanner;
pub mod submitter;
pub mod text;
