use osrs_tracker::cycle::{next_stage, Stage};
use osrs_tracker::db_types::{AccountEntry, StatEntry};
use osrs_tracker::index::{hiscores_index, HiscoresIndex, HiscoresUser, IndexError};
use osrs_tracker::leaderboard::{CacheOp, LeaderboardRefresh, RefreshAction};
use osrs_tracker::osrs::{
    extract_activity_entry, extract_skill_entry, user_hiscore, Hiscore, HiscoreActivities,
    HiscoreActivityEntry, HiscoreError, HiscoreSkillEntry, HiscoreSkills,
};
use osrs_tracker::reconcile::{commit_verdict, reconcile_ops, CommitVerdict, UsernameOp};
use osrs_tracker::roster::RosterIngestor;
use osrs_tracker::snapshots::{snapshot_to_store, stats_changed, SnapshotOutcome, SnapshotPhase};
use std::collections::{BTreeMap, BTreeSet};

fn sample_hiscore(xp: u32) -> Hiscore {
    let mut skills = Vec::new();
    for i in 0..24u32 {
        skills.push(HiscoreSkillEntry { xp: xp + i, level: 50, rank: 1000 + i });
    }
    let mut activities = Vec::new();
    for j in 0..68u32 {
        if j % 2 == 0 {
            activities.push(Some(HiscoreActivityEntry { score: j, rank: 7 }));
        } else {
            activities.push(None);
        }
    }
    Hiscore {
        skills: HiscoreSkills { entries: skills },
        activities: HiscoreActivities { entries: activities },
    }
}

fn listing(lines: usize) -> String {
    let mut out = String::new();
    for i in 0..lines {
        if i < 24 {
            out.push_str(&format!("{},{},{}\n", i + 1, 99, 1000 * (i + 1)));
        } else {
            out.push_str(&format!("{},{}\n", i + 100, i));
        }
    }
    out
}

#[test]
fn skill_line_reads_rank_level_xp() {
    let e = extract_skill_entry("1,99,13034431").unwrap();
    assert_eq!(e, HiscoreSkillEntry { rank: 1, level: 99, xp: 13034431 });
}

#[test]
fn skill_line_with_negative_rank_is_rejected() {
    assert_eq!(extract_skill_entry("-1,1,0"), Err(HiscoreError::BadSkillLine));
}

#[test]
fn skill_line_with_two_fields_is_rejected() {
    assert_eq!(extract_skill_entry("1,2"), Err(HiscoreError::BadSkillLine));
}

#[test]
fn skill_line_beyond_u32_is_rejected() {
    assert_eq!(extract_skill_entry("4294967296,1,1"), Err(HiscoreError::BadSkillLine));
    assert_eq!(
        extract_skill_entry("4294967295,1,1"),
        Ok(HiscoreSkillEntry { rank: 4294967295, level: 1, xp: 1 })
    );
}

#[test]
fn activity_lines_read_or_are_absent() {
    assert_eq!(extract_activity_entry("5,10"), Some(HiscoreActivityEntry { rank: 5, score: 10 }));
    assert_eq!(extract_activity_entry("+7,8"), Some(HiscoreActivityEntry { rank: 7, score: 8 }));
    assert_eq!(extract_activity_entry("-1,-1"), None);
    assert_eq!(extract_activity_entry(""), None);
}

#[test]
fn unknown_player_has_no_record() {
    assert!(matches!(user_hiscore(false, "whatever"), Ok(None)));
}

#[test]
fn short_listing_is_rejected() {
    assert!(matches!(user_hiscore(true, &listing(50)), Err(HiscoreError::MissingLines)));
}

#[test]
fn full_listing_maps_lines_to_entries() {
    let h = user_hiscore(true, &listing(99)).unwrap().unwrap();
    assert_eq!(h.skills.entries.len(), 24);
    assert_eq!(h.skills.entries[0], HiscoreSkillEntry { rank: 1, level: 99, xp: 1000 });
    assert_eq!(h.skills.entries[23], HiscoreSkillEntry { rank: 24, level: 99, xp: 24000 });
    assert_eq!(h.activities.entries.len(), 68);
    assert_eq!(h.activities.entries[0], Some(HiscoreActivityEntry { rank: 124, score: 24 }));
    assert_eq!(h.activities.entries[1], Some(HiscoreActivityEntry { rank: 130, score: 30 }));
    assert_eq!(h.activities.entries[7], Some(HiscoreActivityEntry { rank: 136, score: 36 }));
    assert_eq!(h.activities.entries[8], Some(HiscoreActivityEntry { rank: 139, score: 39 }));
    assert_eq!(h.activities.entries[67], Some(HiscoreActivityEntry { rank: 198, score: 98 }));
}

#[test]
fn bad_skill_in_listing_is_rejected() {
    let body = listing(99).replacen("1,99,1000", "x,99,1000", 1);
    assert!(matches!(user_hiscore(true, &body), Err(HiscoreError::BadSkillLine)));
}

fn ranking_page(next_href: Option<&str>, rows: &[(&str, &str)]) -> String {
    let mut html = String::from("<html><body><table>");
    for (name, score) in rows {
        html.push_str(&format!(
            "<tr class=\"personal-hiscores__row\"><td class=\"right\">1</td>\
             <td><a href=\"#\">{}</a></td><td class=\"right\">{}</td></tr>",
            name, score
        ));
    }
    html.push_str("</table>");
    if let Some(h) = next_href {
        html.push_str(&format!(
            "<a class=\"personal-hiscores__pagination-arrow--down\" href=\"{}\">next</a>",
            h
        ));
    }
    html.push_str("</body></html>");
    html
}

const PREFIX: &str = "overall?category_type=1&table=0&page=";

#[test]
fn ranking_page_lists_players_and_next_page() {
    let html = ranking_page(Some(&format!("{}3", PREFIX)), &[("Some&nbsp;Body", " 1,234 "), ("Zed", "7")]);
    let page = hiscores_index(2, &html).unwrap();
    assert!(page.has_next);
    assert_eq!(page.users.len(), 2);
    assert_eq!(page.users[0].name, "Some Body");
    assert_eq!(page.users[0].score, 1234);
    assert_eq!(page.users[1].name, "Zed");
    assert_eq!(page.users[1].score, 7);
}

#[test]
fn next_link_not_past_the_page_ends_the_ranking() {
    let html = ranking_page(Some(&format!("{}3", PREFIX)), &[("A", "1")]);
    let same = hiscores_index(3, &html).unwrap();
    assert!(!same.has_next);
    assert_eq!(same.users.len(), 1);
    let back = hiscores_index(5, &html).unwrap();
    assert!(!back.has_next);
}

#[test]
fn missing_next_link_ends_the_ranking() {
    let html = ranking_page(None, &[("A", "1")]);
    let page = hiscores_index(0, &html).unwrap();
    assert!(!page.has_next);
    assert_eq!(page.users[0].name, "A");
}

#[test]
fn malformed_ranking_pages_are_errors() {
    let short = ranking_page(Some("page=3"), &[("A", "1")]);
    assert!(matches!(hiscores_index(0, &short), Err(IndexError::BadNextPage)));
    let no_href = "<a class=\"personal-hiscores__pagination-arrow--down\">next</a>";
    assert!(matches!(hiscores_index(0, no_href), Err(IndexError::MissingHref)));
    let bad_score = ranking_page(None, &[("A", "lots")]);
    assert!(matches!(hiscores_index(0, &bad_score), Err(IndexError::BadScore)));
}

#[test]
fn identical_fetch_is_stored_once() {
    let first = snapshot_to_store("p".to_string(), sample_hiscore(10), &None, 100).unwrap();
    assert_eq!(first.timestamp, 100);
    assert_eq!(first.display_name, "p");
    let again = snapshot_to_store("p".to_string(), sample_hiscore(10), &Some(first), 200);
    assert!(again.is_none());
}

#[test]
fn changed_field_appends_one_snapshot() {
    let base = snapshot_to_store("p".to_string(), sample_hiscore(10), &None, 100).unwrap();
    let mut changed = sample_hiscore(10);
    changed.activities.entries[1] = Some(HiscoreActivityEntry { score: 1, rank: 1 });
    let next = snapshot_to_store("p".to_string(), changed.clone(), &Some(base.clone()), 200).unwrap();
    assert!(next.stats == changed);
    assert!(next.timestamp > base.timestamp);
    assert_eq!(next.timestamp, 200);
    let late = snapshot_to_store("p".to_string(), changed, &Some(base), 50).unwrap();
    assert_eq!(late.timestamp, 101);
}

#[test]
fn stored_at_latest_time_cannot_move_on() {
    let prev = StatEntry { timestamp: i64::MAX, display_name: "p".to_string(), stats: sample_hiscore(1) };
    assert!(snapshot_to_store("p".to_string(), sample_hiscore(2), &Some(prev), 5).is_none());
}

#[test]
fn change_detector_compares_every_field() {
    assert!(!stats_changed(&sample_hiscore(3), &sample_hiscore(3)));
    assert!(stats_changed(&sample_hiscore(3), &sample_hiscore(4)));
    let mut a = sample_hiscore(3);
    a.activities.entries[0] = None;
    assert!(stats_changed(&sample_hiscore(3), &a));
    assert!(sample_hiscore(3) == sample_hiscore(3));
}

#[test]
fn failed_fan_out_settles_before_leaderboard() {
    let k = 3;
    let mut phase = SnapshotPhase::new(k);
    let refresh = LeaderboardRefresh::new();
    for _ in 0..k {
        assert_eq!(next_stage(Stage::Snapshots, &phase, &refresh), Stage::Snapshots);
        phase.settle(SnapshotOutcome::FetchFailed);
    }
    assert!(phase.is_complete());
    assert_eq!(phase.written, 0);
    assert_eq!(next_stage(Stage::Snapshots, &phase, &refresh), Stage::Leaderboard);
}

#[test]
fn written_outcomes_are_counted() {
    let mut phase = SnapshotPhase::new(2);
    phase.settle(SnapshotOutcome::Written);
    phase.settle(SnapshotOutcome::Unchanged);
    assert_eq!(phase.written, 1);
    assert!(phase.is_complete());
}

fn apply(usernames: &mut BTreeSet<String>, ops: &[UsernameOp]) {
    for op in ops {
        match op {
            UsernameOp::Upsert(n) => {
                usernames.insert(n.clone());
            }
            UsernameOp::Delete(n) => {
                usernames.remove(n);
            }
        }
    }
}

fn submit(accounts: &mut BTreeMap<String, String>, usernames: &mut BTreeSet<String>, hash: &str, name: &str) {
    let account = AccountEntry { account_hash: hash.to_string(), display_name: name.to_string() };
    let seen = accounts
        .insert(hash.to_string(), name.to_string())
        .map(|n| AccountEntry { account_hash: hash.to_string(), display_name: n });
    apply(usernames, &reconcile_ops(&account, &seen));
}

#[test]
fn rename_moves_roster_entry() {
    let mut accounts = BTreeMap::new();
    let mut usernames = BTreeSet::new();
    submit(&mut accounts, &mut usernames, "H", "A");
    assert!(usernames.contains("A"));
    submit(&mut accounts, &mut usernames, "H", "B");
    assert_eq!(accounts["H"], "B");
    assert!(usernames.contains("B"));
    assert!(!usernames.contains("A"));
}

#[test]
fn repeated_reconciliation_changes_nothing() {
    let mut accounts = BTreeMap::new();
    let mut usernames = BTreeSet::new();
    submit(&mut accounts, &mut usernames, "H", "A");
    submit(&mut accounts, &mut usernames, "H", "B");
    let (a1, u1) = (accounts.clone(), usernames.clone());
    submit(&mut accounts, &mut usernames, "H", "B");
    assert_eq!(accounts, a1);
    assert_eq!(usernames, u1);
    assert_eq!(usernames.len(), 1);
}

#[test]
fn reconcile_ops_are_exact() {
    let account = AccountEntry { account_hash: "H".to_string(), display_name: "B".to_string() };
    let fresh = reconcile_ops(&account, &None);
    assert_eq!(fresh.len(), 1);
    assert!(matches!(&fresh[0], UsernameOp::Upsert(n) if n == "B"));
    let prev = AccountEntry { account_hash: "H".to_string(), display_name: "A".to_string() };
    let renamed = reconcile_ops(&account, &Some(prev));
    assert_eq!(renamed.len(), 2);
    assert!(matches!(&renamed[1], UsernameOp::Delete(n) if n == "A"));
}

#[test]
fn commit_errors_are_classified() {
    assert_eq!(commit_verdict(true, false), CommitVerdict::Retry);
    assert_eq!(commit_verdict(false, true), CommitVerdict::Retry);
    assert_eq!(commit_verdict(false, false), CommitVerdict::Fail);
}

fn page(names: &[&str], has_next: bool) -> HiscoresIndex {
    HiscoresIndex {
        users: names.iter().map(|n| HiscoresUser { name: n.to_string(), score: 1 }).collect(),
        has_next,
    }
}

#[test]
fn ingestion_stops_at_page_without_successor() {
    let pages = vec![page(&["a", "b"], true), page(&["c"], true), page(&["d"], false), page(&["e"], true)];
    let mut ingestor = RosterIngestor::new();
    let mut seen = Vec::new();
    let mut fetched = 0;
    loop {
        let at = ingestor.page_to_fetch();
        let step = ingestor.on_page(&Some(pages[at].clone()));
        fetched += 1;
        seen.extend(step.upserts);
        if step.cycle_done {
            break;
        }
    }
    assert_eq!(fetched, 3);
    assert_eq!(seen, vec!["a", "b", "c", "d"]);
    assert_eq!(ingestor.page_to_fetch(), 0);
}

#[test]
fn failed_page_resets_cursor() {
    let mut ingestor = RosterIngestor::new();
    ingestor.on_page(&Some(page(&["a"], true)));
    assert_eq!(ingestor.page_to_fetch(), 1);
    let step = ingestor.on_page(&None);
    assert!(step.cycle_done);
    assert!(step.upserts.is_empty());
    assert_eq!(ingestor.page_to_fetch(), 0);
}

#[test]
fn refresh_replaces_leaderboard() {
    let mut cache: Vec<(String, u32)> = vec![("old".to_string(), 9)];
    let mut refresh = LeaderboardRefresh::new();
    let mut n = 0;
    loop {
        let op = match refresh.next_action() {
            RefreshAction::Clear => refresh.on_cleared(),
            RefreshAction::Fetch(i) => {
                n += 1;
                refresh.on_page(&Some(page(&[&format!("p{}", i)], true)))
            }
            RefreshAction::Finished => break,
        };
        match op {
            CacheOp::Clear => cache.clear(),
            CacheOp::Insert(rows) => cache.extend(rows.into_iter().map(|r| (r.display_name, r.league_points))),
            CacheOp::Skip => {}
        }
    }
    assert_eq!(n, 4);
    let names: Vec<&str> = cache.iter().map(|(n, _)| n.as_str()).collect();
    assert_eq!(names, vec!["p1", "p2", "p3", "p4"]);
    assert_eq!(next_stage(Stage::Leaderboard, &SnapshotPhase::new(0), &refresh), Stage::Waiting);
}

#[test]
fn failed_leaderboard_page_is_skipped() {
    let mut refresh = LeaderboardRefresh::new();
    refresh.on_cleared();
    assert!(matches!(refresh.on_page(&None), CacheOp::Skip));
    assert_eq!(refresh.next_action(), RefreshAction::Fetch(2));
}
