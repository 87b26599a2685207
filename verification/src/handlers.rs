//! What is handed to a caller that asks for a report.

pub mod provider;
