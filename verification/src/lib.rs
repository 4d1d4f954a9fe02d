//! Static analysis of Soroban smart contracts.
pub mod analysis;
pub mod config;
pub mod error;
pub mod parser;
pub mod report;
pub mod scoring;
pub mod sorted;
pub mod text;

pub use analysis::AnalysisEngine;
pub use config::{Config, OutputFormat, SeverityLevel};
pub use error::{Result, SorobanGuardError};
pub use parser::ContractParser;
pub use report::{finding::Finding, severity::Severity, Report};
pub use scoring::ScoringEngine;
