//! State and decisions of the interactive front end of the `rv-vectorize`
//! loop vectorizer: the editable path fields, the option selectors, the
//! session transcript with its scrolling rules, the command line that a run
//! invokes, and the side-by-side diff rows shown after a run.

pub mod text;
pub mod text_field;
pub mod app;
pub mod diff;
pub mod scroll;
pub mod form;
pub mod history;
pub mod command;
pub mod run;
pub mod keys;
pub mod path;
pub mod wrap;
pub mod laws;
pub mod display;
