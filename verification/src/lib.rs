pub mod text;
pub mod porcelain;
pub mod branch;
pub mod cleanup;
pub mod gitout;
pub mod json;
pub mod analyze;
pub mod audit;
pub mod order;
pub mod report;
pub mod watch;
