//! The kinds of course modules, as the remote site describes them, and how each
//! becomes a content unit.
pub mod assignment;
pub mod bigbluebutton;
pub mod chat;
pub mod choice;
pub mod feedback;
pub mod folder;
pub mod forum;
pub mod generate;
pub mod glossary;
pub mod label;
pub mod page;
pub mod quiz;
pub mod resource;
pub mod unknown;
pub mod url;
