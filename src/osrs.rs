//! Player stat records of the hiscores service and the parsing of its
//! plain-text stat listing.
use crate::text::{
    chars_of, parse_u32_range, parse_u32_spec, split_chars, split_on, views_of,
};
use vstd::prelude::*;

verus! {

/// Number of skills in a stat listing; skills occupy its first lines.
pub const SKILL_COUNT: usize = 24;

/// Number of tracked activities in a stat record.
pub const ACTIVITY_COUNT: usize = 68;

/// Lines a stat listing must have for every tracked entry to be present.
pub const LINE_COUNT: usize = 99;

/// One skill's standing.
#[derive(Clone, Copy, Debug, PartialEq, Eq, Structural)]
pub struct HiscoreSkillEntry {
    pub xp: u32,
    pub level: u32,
    pub rank: u32,
}

/// One activity's (boss, minigame, clue tier) standing.
#[derive(Clone, Copy, Debug, PartialEq, Eq, Structural)]
pub struct HiscoreActivityEntry {
    pub score: u32,
    pub rank: u32,
}

/// Every skill's standing, in listing order (overall, attack, defence, ...).
#[derive(Clone, Debug)]
pub struct HiscoreSkills {
    pub entries: Vec<HiscoreSkillEntry>,
}

/// Every tracked activity's standing, in listing order; `None` where the
/// player is unranked.
#[derive(Clone, Debug)]
pub struct HiscoreActivities {
    pub entries: Vec<Option<HiscoreActivityEntry>>,
}

/// A player's full stat record.
#[derive(Clone, Debug)]
pub struct Hiscore {
    pub skills: HiscoreSkills,
    pub activities: HiscoreActivities,
}

/// The mathematical content of a stat record.
pub struct StatsView {
    pub skills: Seq<HiscoreSkillEntry>,
    pub activities: Seq<Option<HiscoreActivityEntry>>,
}

impl View for Hiscore {
    type V = StatsView;

    open spec fn view(&self) -> StatsView {
        StatsView { skills: self.skills.entries@, activities: self.activities.entries@ }
    }
}

impl StatsView {
    /// A record with one entry for every skill and every tracked activity.
    pub open spec fn wf(self) -> bool {
        self.skills.len() == SKILL_COUNT && self.activities.len() == ACTIVITY_COUNT
    }
}

impl Hiscore {
    /// Whether two records agree in every skill's and every activity's fields,
    /// an absent activity matching only an absent one.
    pub fn same_stats(&self, other: &Hiscore) -> (r: bool)
        ensures
            r == (self@ == other@),
    {
        let a = &self.skills.entries;
        let b = &other.skills.entries;
        if a.len() != b.len() {
            return false;
        }
        let mut i: usize = 0;
        while i < a.len()
            invariant
                a@.len() == b@.len(),
                a@ == self@.skills,
                b@ == other@.skills,
                i <= a@.len(),
                forall|k: int| 0 <= k < i ==> a@[k] == b@[k],
            decreases a@.len() - i,
        {
            if a[i] != b[i] {
                assert(self@.skills[i as int] != other@.skills[i as int]);
                return false;
            }
            i = i + 1;
        }
        assert(a@ =~= b@);
        let c = &self.activities.entries;
        let d = &other.activities.entries;
        if c.len() != d.len() {
            return false;
        }
        let mut j: usize = 0;
        while j < c.len()
            invariant
                c@.len() == d@.len(),
                c@ == self@.activities,
                d@ == other@.activities,
                a@ == b@,
                j <= c@.len(),
                forall|k: int| 0 <= k < j ==> c@[k] == d@[k],
            decreases c@.len() - j,
        {
            let same = match (&c[j], &d[j]) {
                (Some(x), Some(y)) => *x == *y,
                (None, None) => true,
                _ => false,
            };
            if !same {
                assert(self@.activities[j as int] != other@.activities[j as int]);
                return false;
            }
            j = j + 1;
        }
        assert(c@ =~= d@);
        true
    }
}

impl PartialEq for Hiscore {
    fn eq(&self, other: &Hiscore) -> (r: bool) {
        self.same_stats(other)
    }
}

impl vstd::std_specs::cmp::PartialEqSpecImpl for Hiscore {
    open spec fn obeys_eq_spec() -> bool {
        true
    }

    open spec fn eq_spec(&self, other: &Hiscore) -> bool {
        self@ == other@
    }
}

/// Why a stat listing could not be read.
#[derive(Clone, Copy, Debug, PartialEq, Eq, Structural)]
pub enum HiscoreError {
    /// Fewer lines than a full listing has.
    MissingLines,
    /// A skill line that is not at least three comma-separated `u32`s.
    BadSkillLine,
}

/// Whether every comma-separated field reads as a `u32`.
pub open spec fn all_u32(fields: Seq<Seq<char>>) -> bool {
    forall|i: int| 0 <= i < fields.len() ==> (#[trigger] parse_u32_spec(fields[i])) is Some
}

/// The `i`-th field read as a `u32`.
pub open spec fn field_u32(fields: Seq<Seq<char>>, i: int) -> u32 {
    parse_u32_spec(fields[i])->0
}

/// A skill line: `rank,level,xp`, every field a `u32`, at least three fields.
pub open spec fn skill_entry_of(line: Seq<char>) -> Option<HiscoreSkillEntry> {
    let f = split_on(line, ',');
    if f.len() >= 3 && all_u32(f) {
        Some(
            HiscoreSkillEntry {
                rank: field_u32(f, 0),
                level: field_u32(f, 1),
                xp: field_u32(f, 2),
            },
        )
    } else {
        None
    }
}

/// An activity line: `rank,score`, every field a `u32`, at least two fields.
pub open spec fn activity_entry_of(line: Seq<char>) -> Option<HiscoreActivityEntry> {
    let f = split_on(line, ',');
    if f.len() >= 2 && all_u32(f) {
        Some(HiscoreActivityEntry { rank: field_u32(f, 0), score: field_u32(f, 1) })
    } else {
        None
    }
}

/// Reads every field; `None` when one of them is not a `u32`.
fn parse_fields(fields: &Vec<Vec<char>>) -> (r: Option<Vec<u32>>)
    ensures
        r is Some <==> all_u32(views_of(fields@)),
        r matches Some(v) ==> v@.len() == fields@.len() && forall|i: int|
            0 <= i < v@.len() ==> v@[i] == field_u32(views_of(fields@), i),
{
    let ghost fs = views_of(fields@);
    let mut out: Vec<u32> = Vec::new();
    let mut i: usize = 0;
    while i < fields.len()
        invariant
            i <= fields@.len(),
            fs == views_of(fields@),
            out@.len() == i,
            forall|k: int| 0 <= k < i ==> (#[trigger] parse_u32_spec(fs[k])) is Some,
            forall|k: int| 0 <= k < i ==> out@[k] == field_u32(fs, k),
        decreases fields@.len() - i,
    {
        let piece = &fields[i];
        assert(piece@.subrange(0, piece@.len() as int) =~= fs[i as int]);
        match parse_u32_range(piece, 0, piece.len()) {
            Some(v) => {
                out.push(v);
            },
            None => {
                return None;
            },
        }
        i = i + 1;
    }
    Some(out)
}

fn skill_entry_from(line: &Vec<char>) -> (r: Option<HiscoreSkillEntry>)
    ensures
        r == skill_entry_of(line@),
{
    let fields = split_chars(line, ',');
    match parse_fields(&fields) {
        Some(v) => {
            if v.len() >= 3 {
                Some(HiscoreSkillEntry { rank: v[0], level: v[1], xp: v[2] })
            } else {
                None
            }
        },
        None => None,
    }
}

fn activity_entry_from(line: &Vec<char>) -> (r: Option<HiscoreActivityEntry>)
    ensures
        r == activity_entry_of(line@),
{
    let fields = split_chars(line, ',');
    match parse_fields(&fields) {
        Some(v) => {
            if v.len() >= 2 {
                Some(HiscoreActivityEntry { rank: v[0], score: v[1] })
            } else {
                None
            }
        },
        None => None,
    }
}

/// Reads one skill line of a stat listing.
pub fn extract_skill_entry(entry: &str) -> (r: Result<HiscoreSkillEntry, HiscoreError>)
    ensures
        match skill_entry_of(entry@) {
            Some(e) => r == Ok::<HiscoreSkillEntry, HiscoreError>(e),
            None => r == Err::<HiscoreSkillEntry, HiscoreError>(HiscoreError::BadSkillLine),
        },
{
    match skill_entry_from(&chars_of(entry)) {
        Some(e) => Ok(e),
        None => Err(HiscoreError::BadSkillLine),
    }
}

/// Reads one activity line of a stat listing; `None` when it is malformed.
pub fn extract_activity_entry(entry: &str) -> (r: Option<HiscoreActivityEntry>)
    ensures
        r == activity_entry_of(entry@),
{
    activity_entry_from(&chars_of(entry))
}

/// The listing line that holds the `j`-th tracked activity: the first line
/// after the skills, then the clue tiers, then everything from the minigames on
/// (the lines skipped hold activities that are not tracked).
pub open spec fn activity_line(j: int) -> int {
    if j == 0 {
        24
    } else if j < 8 {
        j + 29
    } else {
        j + 31
    }
}

fn activity_line_exec(j: usize) -> (r: usize)
    requires
        j < ACTIVITY_COUNT,
    ensures
        r == activity_line(j as int),
        r < LINE_COUNT,
{
    if j == 0 {
        24
    } else if j < 8 {
        j + 29
    } else {
        j + 31
    }
}

/// The stat record that a listing describes, one line per entry.
pub open spec fn hiscore_of(lines: Seq<Seq<char>>) -> StatsView {
    StatsView {
        skills: Seq::new(SKILL_COUNT as nat, |k: int| skill_entry_of(lines[k])->0),
        activities: Seq::new(
            ACTIVITY_COUNT as nat,
            |j: int| activity_entry_of(lines[activity_line(j)]),
        ),
    }
}

/// Whether every skill line of a listing reads.
pub open spec fn skills_readable(lines: Seq<Seq<char>>) -> bool {
    forall|k: int| 0 <= k < SKILL_COUNT ==> (#[trigger] skill_entry_of(lines[k])) is Some
}

/// Reads a player's stat listing. `found` is false when the service has no
/// record of the player, in which case there is nothing to read.
pub fn user_hiscore(found: bool, body: &str) -> (r: Result<Option<Hiscore>, HiscoreError>)
    ensures
        !found ==> r == Ok::<Option<Hiscore>, HiscoreError>(None),
        found ==> {
            let lines = split_on(body@, '\n');
            if lines.len() < LINE_COUNT {
                r == Err::<Option<Hiscore>, HiscoreError>(HiscoreError::MissingLines)
            } else if !skills_readable(lines) {
                r == Err::<Option<Hiscore>, HiscoreError>(HiscoreError::BadSkillLine)
            } else {
                r matches Ok(Some(h)) && h@ == hiscore_of(lines) && h@.wf()
            }
        },
{
    if !found {
        return Ok(None);
    }
    let lines = split_chars(&chars_of(body), '\n');
    let ghost ls = views_of(lines@);
    if lines.len() < LINE_COUNT {
        return Err(HiscoreError::MissingLines);
    }
    let mut skills: Vec<HiscoreSkillEntry> = Vec::new();
    let mut k: usize = 0;
    while k < SKILL_COUNT
        invariant
            ls == views_of(lines@),
            ls == split_on(body@, '\n'),
            found,
            lines@.len() >= LINE_COUNT,
            k <= SKILL_COUNT,
            skills@.len() == k,
            forall|i: int| 0 <= i < k ==> (#[trigger] skill_entry_of(ls[i])) == Some(skills@[i]),
        decreases SKILL_COUNT - k,
    {
        match skill_entry_from(&lines[k]) {
            Some(e) => skills.push(e),
            None => {
                assert(skill_entry_of(ls[k as int]) is None);
                return Err(HiscoreError::BadSkillLine);
            },
        }
        k = k + 1;
    }
    let mut activities: Vec<Option<HiscoreActivityEntry>> = Vec::new();
    let mut j: usize = 0;
    while j < ACTIVITY_COUNT
        invariant
            ls == views_of(lines@),
            ls == split_on(body@, '\n'),
            found,
            skills_readable(ls),
            skills@.len() == SKILL_COUNT,
            forall|i: int| 0 <= i < SKILL_COUNT ==> (#[trigger] skill_entry_of(ls[i])) == Some(skills@[i]),
            lines@.len() >= LINE_COUNT,
            j <= ACTIVITY_COUNT,
            activities@.len() == j,
            forall|i: int|
                0 <= i < j ==> activities@[i] == activity_entry_of(ls[activity_line(i)]),
        decreases ACTIVITY_COUNT - j,
    {
        let at = activity_line_exec(j);
        activities.push(activity_entry_from(&lines[at]));
        j = j + 1;
    }
    let h = Hiscore {
        skills: HiscoreSkills { entries: skills },
        activities: HiscoreActivities { entries: activities },
    };
    assert(h@.skills =~= hiscore_of(ls).skills);
    assert(h@.activities =~= hiscore_of(ls).activities);
    Ok(Some(h))
}

} // verus!
