//! A terminal chat client's state and rules: the data model of the chat
//! service, read and notification state, channel ordering, slash commands,
//! media selection, message markup, the message pane's and channel list's
//! lines, what key presses do, and the gateway protocol's decisions.
pub mod store;
pub mod text;
pub mod types;
pub mod permissions;
pub mod slash_commands;
pub mod config;
pub mod media;
pub mod seqs;
pub mod names;
pub mod app;
pub mod settings;
pub mod order;
pub mod channels;
pub mod reads;
pub mod incoming;
pub mod lifecycle;
pub mod caches;
pub mod members;
pub mod messages;
pub mod typing;
pub mod navigation;
pub mod mentions;
pub mod autocomplete;
pub mod events;
pub mod server_settings;
pub mod selection;
pub mod picker;
pub mod preview;
pub mod roster;
pub mod input;
pub mod gateway;
pub mod display;
pub mod markdown;
pub mod markup_lines;
pub mod requests;
pub mod keys;
pub mod pane;
pub mod laws;
pub mod sidebar;
pub mod auth;
pub mod outcomes;
