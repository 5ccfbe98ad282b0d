//! Injects an auto-generated table of contents into a markdown document.
//!
//! A document is parsed into a sequence of structural events.  A raw-markup
//! event whose text is exactly `<!-- toc -->` followed by a newline is the
//! marker: the headings of level 1 and 2 that follow it are collected, turned
//! into a nested markdown list of links, and that list's own events replace
//! every marker event before the stream is serialized back to markdown text.

pub mod boundary;
pub mod builder;
pub mod events;
pub mod inject;
pub mod scan;
pub mod splice;
