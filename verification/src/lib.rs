//! Extraction of structured records from municipal-law HTML pages.
//!
//! The pipeline decodes Windows-1252 bytes to text, locates four anchored
//! fragments (title, summary, body, optional document link), strips the HTML
//! markup from the mandatory fragments, and assembles the resulting record.

pub mod cleaner;
pub mod encoding;
pub mod error;
pub mod parser;
pub mod search;
pub mod strutil;
