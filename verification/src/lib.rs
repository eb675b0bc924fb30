//! Planning and bookkeeping logic of a Hugging Face repository downloader.

pub mod text;
pub mod cli;
pub mod download;
pub mod config;
pub mod types;
pub mod downloader;
