pub mod fn_pipeline;
pub mod manager;
pub mod pipeline;
pub mod stat;
pub mod tui;
