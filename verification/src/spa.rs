//! The state behind the two parts of the page that shows the thanks in a
//! browser. What is drawn, and how a fetch is made, is left to the page.

pub mod detail;
pub mod list;
