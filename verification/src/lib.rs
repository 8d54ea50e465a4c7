pub mod config;
pub mod downloader;
pub mod errors;
pub mod monitor;
pub mod pipeline;
pub mod request;
pub mod response;
pub mod scheduler;
pub mod spider;
pub mod utils;
