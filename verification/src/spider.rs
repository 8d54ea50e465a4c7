pub mod manager;
pub mod spider;
pub mod stat;
pub mod tui;
