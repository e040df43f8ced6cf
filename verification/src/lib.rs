pub mod text;
pub mod security;
pub mod types;
pub mod config;
pub mod json;
pub mod processor;
pub mod obsidian;
pub mod youtube;
pub mod sp_api;
pub mod downloader;
pub mod transcript;
pub mod pipeline;
