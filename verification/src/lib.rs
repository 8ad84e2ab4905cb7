//! Picking episodes of Mikan Project feeds and exporting them: as torrent files,
//! as a list of URLs, or to qBittorrent.
//!
//! Nothing here reads or writes files, asks the user or uses the network. What
//! is to be done next is said by values with a `step`, and what came of it is
//! told to them.
pub mod batch;
pub mod cli;
pub mod commands;
pub mod config;
pub mod display;
pub mod download;
pub mod export;
pub mod feed;
pub mod flow;
pub mod headless;
pub mod mikan;
pub mod page;
pub mod profiles;
pub mod prompts;
pub mod proxy;
pub mod qbt;
pub mod sanitize;
pub mod search;
pub mod select;
pub mod setup;
pub mod text;
pub mod xml;
