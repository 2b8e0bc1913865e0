//! Verified core of the WhatsTauri desktop wrapper: title parsing, labels,
//! configuration defaults, link policy and the small state machines that guard
//! side effects.
pub mod text;
pub mod unread;
pub mod last_message;
pub mod notifications;
pub mod tray;
pub mod badge;
pub mod config;
pub mod links;
pub mod window;
pub mod wipe;
