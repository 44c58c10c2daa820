//! Watches RSS and Atom feeds: decodes a document into a feed and its items,
//! gives each a content hash that stays the same across fetches, and decides
//! which items are announced and recorded.

pub mod atom;
pub mod command;
pub mod config;
pub mod cycle;
pub mod digest;
pub mod discord;
pub mod error;
pub mod feed;
pub mod feedconfig;
pub mod feedtype;
pub mod feedurl;
pub mod gate;
pub mod rss;
pub mod settings;
pub mod trigger;
pub mod twitter;
pub mod xml;
