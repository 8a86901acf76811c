//! Records of the four stored collections.
use crate::osrs::{Hiscore, StatsView};
use vstd::prelude::*;

verus! {

/// A player whose stats are polled.
#[derive(Clone, Debug)]
pub struct UsernameEntry {
    pub display_name: String,
}

/// The display name an account goes by.
#[derive(Clone, Debug)]
pub struct AccountEntry {
    pub account_hash: String,
    pub display_name: String,
}

/// One stored stat snapshot; `timestamp` counts milliseconds since the Unix epoch.
#[derive(Clone, Debug)]
pub struct StatEntry {
    pub timestamp: i64,
    pub display_name: String,
    pub stats: Hiscore,
}

/// One row of the leaderboard cache.
#[derive(Clone, Debug)]
pub struct TopPlayerEntry {
    pub display_name: String,
    pub league_points: u32,
}

pub struct StatEntryView {
    pub timestamp: i64,
    pub display_name: Seq<char>,
    pub stats: StatsView,
}

impl View for StatEntry {
    type V = StatEntryView;

    open spec fn view(&self) -> StatEntryView {
        StatEntryView {
            timestamp: self.timestamp,
            display_name: self.display_name@,
            stats: self.stats@,
        }
    }
}

impl View for AccountEntry {
    type V = (Seq<char>, Seq<char>);

    open spec fn view(&self) -> (Seq<char>, Seq<char>) {
        (self.account_hash@, self.display_name@)
    }
}

impl View for TopPlayerEntry {
    type V = (Seq<char>, u32);

    open spec fn view(&self) -> (Seq<char>, u32) {
        (self.display_name@, self.league_points)
    }
}

} // verus!
