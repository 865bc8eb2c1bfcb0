//! Verified core of a small hierarchical task manager.
//!
//! The heart of the crate is the display engine in [`display_container`]: it
//! flattens a tree-shaped task collection into a linear, foldable, addressable
//! display list and keeps focus and the input buffer consistent with it.
//! Around it stand the task store model ([`tasks`]) and the command layer
//! ([`commands`]).

pub mod commands;
pub mod display_container;
pub mod genius_api;
pub mod genius_api_bridge;
pub mod genius_feed;
pub mod rendering;
pub mod strutil;
pub mod tasks;
