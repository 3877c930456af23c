//! Verified core of a file synchronisation service.
pub mod access;
pub mod cancel;
pub mod command;
pub mod config;
pub mod digest;
pub mod discovery;
pub mod download;
pub mod dropped;
pub mod encoding;
pub mod history;
pub mod ip_filter;
pub mod listing;
pub mod local;
pub mod monitor;
pub mod notify;
pub mod paths;
pub mod progress;
pub mod proto;
pub mod server;
pub mod sorting;
pub mod status;
pub mod table;
pub mod text;
pub mod times;
pub mod transfer;
pub mod upload;
