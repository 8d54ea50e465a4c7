pub mod downloader;
pub mod stat;
