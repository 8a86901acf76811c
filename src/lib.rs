//! Tracking of leaderboard players: roster pagination, de-duplicated stat
//! snapshots, identity reconciliation across renames and the leaderboard cache.
pub mod text;
pub mod osrs;
pub mod scrape;
pub mod index;
pub mod db_types;
pub mod snapshots;
pub mod reconcile;
pub mod roster;
pub mod leaderboard;
pub mod cycle;
