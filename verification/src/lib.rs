//! A lightweight exporter proxy: metrics received from applications (or
//! polled from other exporters) are kept per application in a stash and
//! served together on one scrape endpoint.

pub mod args;
pub mod json;
pub mod metrics;
pub mod poll;
pub mod stash;
pub mod table;
pub mod text;
pub mod timestamp;
