//! Watching courses on a Moodle site for changes.
//!
//! Two versions of a course's content units are matched by identity and their
//! entries and files compared (`comparable`, `embed`); each tenant's registry
//! of accounts and subscribed channels decides, scan by scan, which course to
//! look at next (`accounts`).
pub mod accounts;
pub mod comparable;
pub mod embed;
pub mod entry_map;
pub mod gen_module;
pub mod modules;
pub mod moodle;
pub mod other_content;
pub mod text;
pub mod fairness;
