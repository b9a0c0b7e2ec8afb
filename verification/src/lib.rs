//! Link validation for trees of markdown documents.
//!
//! A [`document::Document`] turns the text of one markdown file into the
//! links and broken references that it holds, each with the line it stands
//! on. The other modules decide what has to be checked for each link and
//! turn the outcome of every check into a report.

pub mod check;
pub mod document;
pub mod error;
pub mod groups;
pub mod lines;
pub mod link;
pub mod path;
pub mod report;
pub mod sort;
pub mod target;
pub mod text;
pub mod token;
