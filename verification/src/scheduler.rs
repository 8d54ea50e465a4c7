pub mod scheduler;
pub mod stat;
pub mod tui;
