pub mod text;
pub mod casing;
pub mod manifest;
pub mod scheduled_template;
pub mod matrix_template;
pub mod dashboard;
pub mod grouping;
pub mod log_stream;
pub mod patterns;
pub mod extraction;
pub mod report_line;
pub mod listing;
pub mod runtime;
pub mod laws;
