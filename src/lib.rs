//! A compiler for a small API-description language and its companion
//! data-model language.
//!
//! An API document declares argument catalogs, groups of arguments, status
//! codes and endpoints; [`project::Project::new_from_source`] turns it into a
//! resolved [`project::Project`], resolving group references against the
//! groups declared above them. A model document declares entities and enums;
//! [`model_builder::get_models`] turns it into a [`models::ProjectModel`].
//! Both builds are all-or-nothing: a line that breaks the grammar yields a
//! [`builder::SyntaxError`] naming it, and no partial result.
pub mod api_grammar;
pub mod api_spec;
pub mod builder;
pub mod laws;
pub mod model_builder;
pub mod model_summary;
pub mod models;
pub mod open_api;
pub mod project;
pub mod tables;
pub mod text;

pub use tables::get_mime_types;
