//! The decisions and page contents behind the web pages.
pub mod dashboard;
pub mod project;
pub mod task;
