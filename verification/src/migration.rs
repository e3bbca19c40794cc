//! How far a team store has been populated, and what to populate it with.
//!
//! The store itself is out of sight here. Whoever talks to it hands over
//! what it answered, and gets back what that answer means.
use crate::team::{is_named_team, Team};
use vstd::prelude::*;
use vstd::string::*;

verus! {

/// The number of teams in a fully populated store.
pub const FULL_LEAGUE: u64 = 32;

/// The state of a team store.
#[derive(Clone, Copy, Debug, PartialEq, Eq, Structural)]
pub enum MigrationStatus {
    NotMigrated,
    SchemaOnly,
    Partial,
    Complete,
}

/// What a count of stored teams says about the store. `None` stands for a
/// store that answered without a usable count.
pub open spec fn status_of_count(count: Option<u64>) -> MigrationStatus {
    match count {
        Some(n) => if n >= FULL_LEAGUE {
            MigrationStatus::Complete
        } else if n == 0 {
            MigrationStatus::SchemaOnly
        } else {
            MigrationStatus::Partial
        },
        None => MigrationStatus::SchemaOnly,
    }
}

impl MigrationStatus {
    /// The status in words.
    pub open spec fn spec_describe(self) -> Seq<char> {
        match self {
            MigrationStatus::NotMigrated => "Not migrated"@,
            MigrationStatus::SchemaOnly => "Schema created, no data"@,
            MigrationStatus::Partial => "Partially migrated"@,
            MigrationStatus::Complete => "Migration complete"@,
        }
    }

    /// The status in words.
    pub fn describe(&self) -> (words: String)
        ensures
            words@ == self.spec_describe(),
    {
        match self {
            MigrationStatus::NotMigrated => String::from_str("Not migrated"),
            MigrationStatus::SchemaOnly => String::from_str("Schema created, no data"),
            MigrationStatus::Partial => String::from_str("Partially migrated"),
            MigrationStatus::Complete => String::from_str("Migration complete"),
        }
    }
}

/// Decides what has to be done to a team store.
pub struct MigrationManager;

impl MigrationManager {
    /// Whether a store that holds `stored_teams` teams, or that cannot be
    /// read when there is no count, still has to be populated.
    pub fn needs_migration(stored_teams: Option<usize>) -> (needed: bool)
        ensures
            needed == match stored_teams {
                Some(n) => n < FULL_LEAGUE,
                None => true,
            },
    {
        match stored_teams {
            Some(n) => (n as u64) < FULL_LEAGUE,
            None => true,
        }
    }

    /// The status of a store that was asked how many teams it holds.
    /// `Err` stands for a store that could not answer at all, `Ok(None)`
    /// for one that answered without a usable count.
    pub fn get_status(answer: Result<Option<u64>, ()>) -> (status: MigrationStatus)
        ensures
            status == match answer {
                Ok(count) => status_of_count(count),
                Err(_) => MigrationStatus::NotMigrated,
            },
    {
        match answer {
            Ok(Some(n)) => {
                if n >= FULL_LEAGUE {
                    MigrationStatus::Complete
                } else if n == 0 {
                    MigrationStatus::SchemaOnly
                } else {
                    MigrationStatus::Partial
                }
            },
            Ok(None) => MigrationStatus::SchemaOnly,
            Err(_) => MigrationStatus::NotMigrated,
        }
    }
}

/// Supplies a team store with its first teams.
pub struct DataSeeder;

impl DataSeeder {
    /// Six teams to start a store with: the AFC East and two of the NFC
    /// South.
    pub fn sample_teams() -> (teams: Vec<Team>)
        ensures
            teams@.len() == 6,
            is_named_team(teams@[0], "Buffalo Bills"@, "BUF"@, "AFC"@, "East"@),
            is_named_team(teams@[1], "Miami Dolphins"@, "MIA"@, "AFC"@, "East"@),
            is_named_team(teams@[2], "New England Patriots"@, "NE"@, "AFC"@, "East"@),
            is_named_team(teams@[3], "New York Jets"@, "NYJ"@, "AFC"@, "East"@),
            is_named_team(teams@[4], "Atlanta Falcons"@, "ATL"@, "NFC"@, "South"@),
            is_named_team(teams@[5], "Carolina Panthers"@, "CAR"@, "NFC"@, "South"@),
    {
        let mut teams: Vec<Team> = Vec::new();
        teams.push(Self::named_team("Buffalo Bills", "BUF", "AFC", "East"));
        teams.push(Self::named_team("Miami Dolphins", "MIA", "AFC", "East"));
        teams.push(Self::named_team("New England Patriots", "NE", "AFC", "East"));
        teams.push(Self::named_team("New York Jets", "NYJ", "AFC", "East"));
        teams.push(Self::named_team("Atlanta Falcons", "ATL", "NFC", "South"));
        teams.push(Self::named_team("Carolina Panthers", "CAR", "NFC", "South"));
        teams
    }

    /// Whether a store that holds `stored` has any team.
    pub fn has_teams(stored: &Vec<Team>) -> (any: bool)
        ensures
            any == (stored@.len() > 0),
    {
        stored.len() > 0
    }

    /// How many teams a store that holds `stored` has.
    pub fn team_count(stored: &Vec<Team>) -> (count: usize)
        ensures
            count == stored@.len(),
    {
        stored.len()
    }

    /// A new team with the given names, conference and division.
    fn named_team(name: &str, abbreviation: &str, conference: &str, division: &str) -> (team: Team)
        ensures
            is_named_team(team, name@, abbreviation@, conference@, division@),
    {
        Team::with_conference_division(
            String::from_str(name),
            String::from_str(abbreviation),
            String::from_str(conference),
            String::from_str(division),
        )
    }
}

} // verus!
