//! Games on the schedule and their results.
use crate::clock::Timestamp;
use crate::ident::{fresh_id, ID_LENGTH};
use crate::team::Team;
use vstd::prelude::*;

verus! {

/// Where a game stands.
#[derive(Clone, Copy, Debug, PartialEq, Eq, Structural)]
pub enum GameStatus {
    Scheduled,
    InProgress,
    Completed,
    Postponed,
    Cancelled,
}

/// How a game ended for one of its teams.
#[derive(Clone, Copy, Debug, PartialEq, Eq, Structural)]
pub enum GameOutcome {
    Win,
    Loss,
    Tie,
}

/// One team's view of a finished game.
#[derive(Clone, Debug, PartialEq)]
pub struct GameResult {
    pub game_id: String,
    pub team_id: String,
    pub opponent_id: String,
    pub points_scored: u8,
    pub points_allowed: u8,
    pub is_home: bool,
    pub result: GameOutcome,
    pub game_date: Timestamp,
}

/// A game between two teams.
#[derive(Clone, Debug, PartialEq)]
pub struct Game {
    pub id: String,
    pub home_team: Team,
    pub away_team: Team,
    pub game_time: Timestamp,
    pub week: u8,
    pub season: u16,
    pub status: GameStatus,
    pub home_score: Option<u8>,
    pub away_score: Option<u8>,
    pub created_at: Timestamp,
    pub updated_at: Timestamp,
}

impl Game {
    /// A newly scheduled game without a score, under a fresh identifier.
    pub fn new(home_team: Team, away_team: Team, game_time: Timestamp, week: u8, season: u16) -> (game:
        Self)
        ensures
            game.home_team == home_team,
            game.away_team == away_team,
            game.game_time == game_time,
            game.week == week,
            game.season == season,
            game.status == GameStatus::Scheduled,
            game.home_score is None,
            game.away_score is None,
            game.created_at == game.updated_at,
            game.id@.len() == ID_LENGTH,
    {
        let now = Timestamp::now();
        Self {
            id: fresh_id(),
            home_team,
            away_team,
            game_time,
            week,
            season,
            status: GameStatus::Scheduled,
            home_score: None,
            away_score: None,
            created_at: now,
            updated_at: now,
        }
    }

    /// Whether the game has been played to its end.
    pub fn is_completed(&self) -> (completed: bool)
        ensures
            completed == (self.status == GameStatus::Completed),
    {
        match self.status {
            GameStatus::Completed => true,
            _ => false,
        }
    }

    /// Whether, at the instant `now`, the game is scheduled and still ahead.
    pub open spec fn upcoming_at(&self, now: Timestamp) -> bool {
        self.status == GameStatus::Scheduled && self.game_time.micros > now.micros
    }

    /// Whether, at the instant `now`, the game is scheduled and still ahead.
    pub fn is_upcoming_at(&self, now: Timestamp) -> (upcoming: bool)
        ensures
            upcoming == self.upcoming_at(now),
    {
        match self.status {
            GameStatus::Scheduled => self.game_time.micros > now.micros,
            _ => false,
        }
    }

    /// Whether the game is scheduled and still ahead, by the system clock:
    /// the answer of `is_upcoming_at` for the instant that the clock shows.
    /// A game that is not scheduled, or that is set at the first instant,
    /// is never upcoming.
    pub fn is_upcoming(&self) -> (upcoming: bool)
        ensures
            exists|now: Timestamp| upcoming == #[trigger] self.upcoming_at(now),
            self.status != GameStatus::Scheduled ==> !upcoming,
            self.game_time.micros == i64::MIN ==> !upcoming,
    {
        let now = Timestamp::now();
        let upcoming = self.is_upcoming_at(now);
        assert(upcoming == self.upcoming_at(now));
        upcoming
    }

    /// Records the score and the time of the change.
    pub fn update_score(&mut self, home_score: u8, away_score: u8)
        ensures
            *final(self) == (Game {
                home_score: Some(home_score),
                away_score: Some(away_score),
                updated_at: final(self).updated_at,
                ..*old(self)
            }),
    {
        self.home_score = Some(home_score);
        self.away_score = Some(away_score);
        self.updated_at = Timestamp::now();
    }

    /// Records the status and the time of the change.
    pub fn set_status(&mut self, status: GameStatus)
        ensures
            *final(self) == (Game { status, updated_at: final(self).updated_at, ..*old(self) }),
    {
        self.status = status;
        self.updated_at = Timestamp::now();
    }
}

} // verus!
