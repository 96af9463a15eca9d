//! Generates Java solution and test stubs for coding-exercise problems.
//!
//! The library scrapes four attributes (question id, slug, title, code
//! snippet) out of a problem page's raw markup, derives a Java package name
//! from them, and renders two fixed templates. Fetching the page and writing
//! the rendered files to disk are left to the surrounding application.

pub mod attrs;
pub mod extract;
pub mod generate;
pub mod text;
