pub mod monitor;
