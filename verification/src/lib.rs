//! Verified display logic for an RF survey console: text formatting,
//! label and colour classification, event and dispatch filtering, the
//! talkgroup directory and watch groups, and the small state machines behind
//! the waterfall, live tail, event queries, operation lifecycle, target form
//! and sweep timer.

mod strbuf;
pub mod text;
pub mod labels;
pub mod palette;
pub mod heartbeat;
pub mod waterfall;
pub mod watchdog;
pub mod parsing;
pub mod filters;
pub mod feed;
pub mod operations;
pub mod dispatch;
pub mod tuning;
pub mod iq;
pub mod talkgroups;
pub mod tg_groups;
pub mod grants;
pub mod sweep;
pub mod suggest;
pub mod recording;
pub mod targets;
pub mod weather;
pub mod rules;
