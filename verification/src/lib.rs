//! Label and job-sheet logic of the AVC label printing service.

pub mod decimal;
pub mod form;
pub mod job;
pub mod label;
pub mod machine;
pub mod paths;
