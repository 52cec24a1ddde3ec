//! Per-tab navigation logic of a small-internet browser: bookmarks, the
//! `eva:` pseudo-scheme, server input prompts, uploads and the bookmark form.

pub mod bookmarks;
pub mod tab;
pub mod text;
pub mod web;
