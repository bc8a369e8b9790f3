//! Scouting records for a robotics event: a durable store that merges what
//! several servers collect, and the statistics derived from it.

pub mod analysis;
pub mod averages;
pub mod codec;
pub mod config;
pub mod csv;
pub mod data;
pub mod database;
pub mod ingest;
pub mod keys;
pub mod match_info;
pub mod matches;
pub mod matchups;
pub mod merging;
pub mod ranking;
pub mod scoring;
pub mod server_sync;
pub mod tba;
pub mod team_info;
pub mod text;
