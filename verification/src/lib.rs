//! The decisions of a scriptable crawler and downloader: how a term is
//! named, cached and resolved by plugins, how requests are decorated, and
//! in which steps a book is downloaded to a staging tree and promoted.
//!
//! Nothing here touches the network or the file system. The functions
//! say what is to be done and are told what happened; what they say is
//! verified.

pub mod cli;
pub mod collections;
pub mod downloader;
pub mod http;
pub mod outside;
pub mod plugins;
pub mod schemas;
pub mod text;
pub mod utils;
