//! Curation of fan-made videos and picture posts.
//!
//! The feeds of the tracked topics are polled, what has not been seen
//! before is put before human moderators as cards in a chat, their
//! decisions are recorded, and the decisions of a day are summed up for the
//! daily article.
//!
//! This library holds the rules of that pipeline, each with its contract:
//! merging and deduplicating the feeds ([`biz::bilibili`]), rendering and
//! merging cards ([`biz::cards`]), the store with its invariant that no
//! item is recorded twice ([`db`]), what a moderator's tap does
//! ([`biz::callback`]), the creation of a chat group exactly once
//! ([`biz::group`]), and the summary of a day ([`biz::summary`]). The
//! network, the database and the clock are left to the caller. Calendar
//! arithmetic, regular expressions and JSON are delegated to `chrono`,
//! `chrono-tz`, `regex` and `serde_json` ([`localtime`], [`pattern`],
//! [`json`]); what is taken on trust of them is stated where they are
//! called.
pub mod article;
pub mod bilibili;
pub mod biz;
pub mod config;
pub mod db;
pub mod feishu;
pub mod http;
pub mod json;
pub mod keyed;
pub mod localtime;
pub mod order;
pub mod pattern;
pub mod text;
pub mod zhuanlan;
