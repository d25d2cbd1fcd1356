//! Short conversation titles, written by a model.
pub mod flow;
pub mod flow_laws;
pub mod run;
pub mod title;
pub mod title_laws;
