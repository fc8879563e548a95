//! Terminal output of the `reckon` command line: styling, the wordmark
//! and the text of each screen.

pub mod doctor;
pub mod init;
pub mod install;
pub mod memoir;
pub mod style;
pub mod check;
pub mod trace;
pub mod why;
pub mod wordmark;
