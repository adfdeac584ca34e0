//! The logic of a terminal client for a remote, tree-structured news feed:
//! collecting a batch of items fetched in any order into a list ordered as it was
//! requested, caching one such list per view, and moving a selection over the
//! display rows that the list is rendered to.
//!
//! Nothing here performs I/O. The program around this library fetches, draws and
//! reads keys; it hands plain values in and takes plain values back.

pub mod age;
pub mod browse;
pub mod collect;
pub mod config;
pub mod cursor;
pub mod ini;
pub mod input;
pub mod keys;
pub mod menu;
pub mod parse;
pub mod record;
pub mod render;
pub mod text;
pub mod url;
pub mod view;
