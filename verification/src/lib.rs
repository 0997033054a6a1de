//! Verified core of the diaspor virtual filesystem desktop application.

pub mod audit;
pub mod blobstore;
pub mod bytes;
pub mod clipboard;
pub mod commands;
pub mod domain;
pub mod factories;
pub mod gpu;
pub mod installers;
pub mod keyed;
pub mod listing;
pub mod local;
pub mod logs;
pub mod media;
pub mod migrate;
pub mod models;
pub mod ollama;
pub mod order;
pub mod paths;
pub mod recency;
pub mod s3;
pub mod s3_transfer;
pub mod settings;
pub mod sources;
pub mod store;
pub mod system;
pub mod text;
pub mod tiering;
pub mod tokens;
pub mod transcription;
