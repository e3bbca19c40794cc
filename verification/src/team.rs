//! Teams, their season records and their injury reports.
use crate::clock::Timestamp;
use crate::fixed::{Fixed, SCALE};
use crate::game::{GameOutcome, GameResult};
use crate::ident::{fresh_id, ID_LENGTH};
use crate::rounding::{div_round, div_round_i128, lemma_div_round_between};
use crate::text::same_text;
use vstd::prelude::*;
use vstd::string::*;

verus! {

/// The season a record belongs to unless one is named.
pub const DEFAULT_SEASON: u16 = 2024;

/// The schedule strength of a team without recent games, 0.5.
pub const NEUTRAL_SCHEDULE: i64 = 500_000;

/// The strength credited to an opponent the team lost to, 0.6.
pub const STRONG_OPPONENT: i64 = 600_000;

/// The strength credited to any other opponent, 0.4.
pub const WEAK_OPPONENT: i64 = 400_000;

/// How available an injured player is.
#[derive(Clone, Copy, Debug, PartialEq, Eq, Structural)]
pub enum InjuryStatus {
    Questionable,
    Doubtful,
    Out,
    InjuredReserve,
    Healthy,
}

/// One entry of a team's injury report.
#[derive(Clone, Debug, PartialEq)]
pub struct PlayerInjury {
    pub player_id: String,
    pub player_name: String,
    pub position: String,
    pub injury_type: String,
    pub status: InjuryStatus,
    pub estimated_return: Option<Timestamp>,
    /// From zero to one, one being the highest impact.
    pub impact_rating: Fixed,
    pub reported_at: Timestamp,
}

/// A team's record and ratings for one season.
#[derive(Clone, Debug, PartialEq)]
pub struct TeamStats {
    pub offensive_rating: Fixed,
    pub defensive_rating: Fixed,
    pub points_per_game: Fixed,
    pub points_allowed_per_game: Fixed,
    pub yards_per_game: Fixed,
    pub yards_allowed_per_game: Fixed,
    pub turnover_differential: i32,
    pub recent_form: Vec<GameResult>,
    pub injury_report: Vec<PlayerInjury>,
    pub season: u16,
    pub games_played: u8,
    pub wins: u8,
    pub losses: u8,
    pub ties: u8,
    pub last_updated: Timestamp,
}

/// A team.
#[derive(Clone, Debug, PartialEq)]
pub struct Team {
    pub id: String,
    pub name: String,
    pub abbreviation: String,
    pub conference: Option<String>,
    pub division: Option<String>,
    pub stats: TeamStats,
    pub created_at: Timestamp,
    pub updated_at: Timestamp,
}

/// How many of the results are wins.
pub open spec fn count_wins(results: Seq<GameResult>) -> int
    decreases results.len(),
{
    if results.len() == 0 {
        0
    } else {
        count_wins(results.drop_last()) + if results.last().result == GameOutcome::Win {
            1int
        } else {
            0int
        }
    }
}

/// How many of the results are losses.
pub open spec fn count_losses(results: Seq<GameResult>) -> int
    decreases results.len(),
{
    if results.len() == 0 {
        0
    } else {
        count_losses(results.drop_last()) + if results.last().result == GameOutcome::Loss {
            1int
        } else {
            0int
        }
    }
}

/// The most recent `n` results, or all of them if there are fewer.
pub open spec fn most_recent(results: Seq<GameResult>, n: int) -> Seq<GameResult> {
    if n >= results.len() {
        results
    } else {
        results.skip(results.len() - n)
    }
}

/// The injuries of players who are not healthy, in the order of the report.
pub open spec fn active_injuries(report: Seq<PlayerInjury>) -> Seq<PlayerInjury> {
    report.filter(|injury: PlayerInjury| injury.status != InjuryStatus::Healthy)
}

/// The share of games won, or zero before the first game.
pub open spec fn win_percentage_of(wins: int, games_played: int) -> int {
    if games_played == 0 {
        0
    } else {
        div_round(wins * SCALE, games_played)
    }
}

/// The mean strength of recent opponents: 0.6 for each the team lost to,
/// 0.4 for each other one, and 0.5 if there is no recent game.
pub open spec fn strength_of_schedule_of(results: Seq<GameResult>) -> int {
    if results.len() == 0 {
        NEUTRAL_SCHEDULE as int
    } else {
        div_round(
            STRONG_OPPONENT * count_losses(results) + WEAK_OPPONENT * (results.len()
                - count_losses(results)),
            results.len() as int,
        )
    }
}

/// The full name of the team that goes by an abbreviation, or a note that
/// the abbreviation is not a known one.
pub open spec fn team_name_of(abbreviation: Seq<char>) -> Seq<char> {
    if abbreviation == "ARI"@ {
        "Arizona Cardinals"@
    } else if abbreviation == "ATL"@ {
        "Atlanta Falcons"@
    } else if abbreviation == "BAL"@ {
        "Baltimore Ravens"@
    } else if abbreviation == "BUF"@ {
        "Buffalo Bills"@
    } else if abbreviation == "CAR"@ {
        "Carolina Panthers"@
    } else if abbreviation == "CHI"@ {
        "Chicago Bears"@
    } else if abbreviation == "CIN"@ {
        "Cincinnati Bengals"@
    } else if abbreviation == "CLE"@ {
        "Cleveland Browns"@
    } else if abbreviation == "DAL"@ {
        "Dallas Cowboys"@
    } else if abbreviation == "DEN"@ {
        "Denver Broncos"@
    } else if abbreviation == "DET"@ {
        "Detroit Lions"@
    } else if abbreviation == "GB"@ {
        "Green Bay Packers"@
    } else if abbreviation == "HOU"@ {
        "Houston Texans"@
    } else if abbreviation == "IND"@ {
        "Indianapolis Colts"@
    } else if abbreviation == "JAX"@ {
        "Jacksonville Jaguars"@
    } else if abbreviation == "KC"@ {
        "Kansas City Chiefs"@
    } else if abbreviation == "LV"@ {
        "Las Vegas Raiders"@
    } else if abbreviation == "LAC"@ {
        "Los Angeles Chargers"@
    } else if abbreviation == "LA"@ {
        "Los Angeles Rams"@
    } else if abbreviation == "MIA"@ {
        "Miami Dolphins"@
    } else if abbreviation == "MIN"@ {
        "Minnesota Vikings"@
    } else if abbreviation == "NE"@ {
        "New England Patriots"@
    } else if abbreviation == "NO"@ {
        "New Orleans Saints"@
    } else if abbreviation == "NYG"@ {
        "New York Giants"@
    } else if abbreviation == "NYJ"@ {
        "New York Jets"@
    } else if abbreviation == "PHI"@ {
        "Philadelphia Eagles"@
    } else if abbreviation == "PIT"@ {
        "Pittsburgh Steelers"@
    } else if abbreviation == "SEA"@ {
        "Seattle Seahawks"@
    } else if abbreviation == "SF"@ {
        "San Francisco 49ers"@
    } else if abbreviation == "TB"@ {
        "Tampa Bay Buccaneers"@
    } else if abbreviation == "TEN"@ {
        "Tennessee Titans"@
    } else if abbreviation == "WAS"@ {
        "Washington Commanders"@
    } else {
        "Unknown Team ("@ + abbreviation + ")"@
    }
}

/// The full name of the team that goes by `abbr`.
pub fn get_team_name(abbr: &str) -> (name: String)
    ensures
        name@ == team_name_of(abbr@),
{
    if same_text(abbr, "ARI") {
        String::from_str("Arizona Cardinals")
    } else if same_text(abbr, "ATL") {
        String::from_str("Atlanta Falcons")
    } else if same_text(abbr, "BAL") {
        String::from_str("Baltimore Ravens")
    } else if same_text(abbr, "BUF") {
        String::from_str("Buffalo Bills")
    } else if same_text(abbr, "CAR") {
        String::from_str("Carolina Panthers")
    } else if same_text(abbr, "CHI") {
        String::from_str("Chicago Bears")
    } else if same_text(abbr, "CIN") {
        String::from_str("Cincinnati Bengals")
    } else if same_text(abbr, "CLE") {
        String::from_str("Cleveland Browns")
    } else if same_text(abbr, "DAL") {
        String::from_str("Dallas Cowboys")
    } else if same_text(abbr, "DEN") {
        String::from_str("Denver Broncos")
    } else if same_text(abbr, "DET") {
        String::from_str("Detroit Lions")
    } else if same_text(abbr, "GB") {
        String::from_str("Green Bay Packers")
    } else if same_text(abbr, "HOU") {
        String::from_str("Houston Texans")
    } else if same_text(abbr, "IND") {
        String::from_str("Indianapolis Colts")
    } else if same_text(abbr, "JAX") {
        String::from_str("Jacksonville Jaguars")
    } else if same_text(abbr, "KC") {
        String::from_str("Kansas City Chiefs")
    } else if same_text(abbr, "LV") {
        String::from_str("Las Vegas Raiders")
    } else if same_text(abbr, "LAC") {
        String::from_str("Los Angeles Chargers")
    } else if same_text(abbr, "LA") {
        String::from_str("Los Angeles Rams")
    } else if same_text(abbr, "MIA") {
        String::from_str("Miami Dolphins")
    } else if same_text(abbr, "MIN") {
        String::from_str("Minnesota Vikings")
    } else if same_text(abbr, "NE") {
        String::from_str("New England Patriots")
    } else if same_text(abbr, "NO") {
        String::from_str("New Orleans Saints")
    } else if same_text(abbr, "NYG") {
        String::from_str("New York Giants")
    } else if same_text(abbr, "NYJ") {
        String::from_str("New York Jets")
    } else if same_text(abbr, "PHI") {
        String::from_str("Philadelphia Eagles")
    } else if same_text(abbr, "PIT") {
        String::from_str("Pittsburgh Steelers")
    } else if same_text(abbr, "SEA") {
        String::from_str("Seattle Seahawks")
    } else if same_text(abbr, "SF") {
        String::from_str("San Francisco 49ers")
    } else if same_text(abbr, "TB") {
        String::from_str("Tampa Bay Buccaneers")
    } else if same_text(abbr, "TEN") {
        String::from_str("Tennessee Titans")
    } else if same_text(abbr, "WAS") {
        String::from_str("Washington Commanders")
    } else {
        let mut name = String::from_str("Unknown Team (");
        name.append(abbr);
        name.append(")");
        assert(name@ =~= team_name_of(abbr@));
        name
    }
}

impl TeamStats {
    /// An empty record: no games, no ratings, nobody injured.
    pub open spec fn is_blank(&self) -> bool {
        &&& self.offensive_rating.raw == 0
        &&& self.defensive_rating.raw == 0
        &&& self.points_per_game.raw == 0
        &&& self.points_allowed_per_game.raw == 0
        &&& self.yards_per_game.raw == 0
        &&& self.yards_allowed_per_game.raw == 0
        &&& self.turnover_differential == 0
        &&& self.recent_form@.len() == 0
        &&& self.injury_report@.len() == 0
        &&& self.games_played == 0
        &&& self.wins == 0
        &&& self.losses == 0
        &&& self.ties == 0
    }

    /// An empty record for `season`.
    pub fn new(season: u16) -> (stats: Self)
        ensures
            stats.is_blank(),
            stats.season == season,
    {
        Self {
            offensive_rating: Fixed { raw: 0 },
            defensive_rating: Fixed { raw: 0 },
            points_per_game: Fixed { raw: 0 },
            points_allowed_per_game: Fixed { raw: 0 },
            yards_per_game: Fixed { raw: 0 },
            yards_allowed_per_game: Fixed { raw: 0 },
            turnover_differential: 0,
            recent_form: Vec::new(),
            injury_report: Vec::new(),
            season,
            games_played: 0,
            wins: 0,
            losses: 0,
            ties: 0,
            last_updated: Timestamp::now(),
        }
    }

    /// Adds one game with the given outcome to the record.
    pub fn update_record(&mut self, outcome: GameOutcome)
        requires
            old(self).games_played < u8::MAX,
            outcome == GameOutcome::Win ==> old(self).wins < u8::MAX,
            outcome == GameOutcome::Loss ==> old(self).losses < u8::MAX,
            outcome == GameOutcome::Tie ==> old(self).ties < u8::MAX,
        ensures
            final(self).games_played == old(self).games_played + 1,
            final(self).wins == old(self).wins + if outcome == GameOutcome::Win {
                1int
            } else {
                0int
            },
            final(self).losses == old(self).losses + if outcome == GameOutcome::Loss {
                1int
            } else {
                0int
            },
            final(self).ties == old(self).ties + if outcome == GameOutcome::Tie {
                1int
            } else {
                0int
            },
            *final(self) == (TeamStats {
                games_played: final(self).games_played,
                wins: final(self).wins,
                losses: final(self).losses,
                ties: final(self).ties,
                last_updated: final(self).last_updated,
                ..*old(self)
            }),
    {
        match outcome {
            GameOutcome::Win => {
                self.wins = self.wins + 1;
            },
            GameOutcome::Loss => {
                self.losses = self.losses + 1;
            },
            GameOutcome::Tie => {
                self.ties = self.ties + 1;
            },
        }
        self.games_played = self.games_played + 1;
        self.last_updated = Timestamp::now();
    }

    /// A rough measure of how strong the recent opponents were.
    pub fn calculate_strength_of_schedule(&self) -> (strength: Fixed)
        ensures
            strength.raw == strength_of_schedule_of(self.recent_form@),
            WEAK_OPPONENT <= strength.raw <= STRONG_OPPONENT,
    {
        let n = self.recent_form.len();
        if n == 0 {
            return Fixed { raw: NEUTRAL_SCHEDULE };
        }
        let mut losses: usize = 0;
        let mut i: usize = 0;
        while i < n
            invariant
                n == self.recent_form@.len(),
                i <= n,
                losses <= i,
                losses == count_losses(self.recent_form@.take(i as int)),
            decreases n - i,
        {
            assert(self.recent_form@.take(i + 1).drop_last() =~= self.recent_form@.take(i as int));
            match self.recent_form[i].result {
                GameOutcome::Loss => {
                    losses = losses + 1;
                },
                _ => {},
            }
            i = i + 1;
        }
        assert(self.recent_form@.take(i as int) =~= self.recent_form@);
        let total: i128 = STRONG_OPPONENT as i128 * losses as i128 + WEAK_OPPONENT as i128 * (n
            - losses) as i128;
        assert(WEAK_OPPONENT * n <= total <= STRONG_OPPONENT * n) by (nonlinear_arith)
            requires
                total == STRONG_OPPONENT * losses + WEAK_OPPONENT * (n - losses),
                0 <= losses <= n,
                WEAK_OPPONENT == 400_000,
                STRONG_OPPONENT == 600_000,
        ;
        proof {
            lemma_div_round_between(
                total as int,
                n as int,
                WEAK_OPPONENT as int,
                STRONG_OPPONENT as int,
            );
        }
        Fixed { raw: div_round_i128(total, n as i128) as i64 }
    }
}

impl Default for TeamStats {
    /// An empty record for the 2024 season.
    fn default() -> (stats: Self)
        ensures
            stats.is_blank(),
            stats.season == DEFAULT_SEASON,
    {
        TeamStats::new(DEFAULT_SEASON)
    }
}

impl Team {
    /// A new team with an empty record, under a fresh identifier.
    pub fn new(name: String, abbreviation: String) -> (team: Self)
        ensures
            team.name == name,
            team.abbreviation == abbreviation,
            team.conference is None,
            team.division is None,
            team.stats.is_blank(),
            team.stats.season == DEFAULT_SEASON,
            team.created_at == team.updated_at,
            team.id@.len() == ID_LENGTH,
    {
        let now = Timestamp::now();
        Self {
            id: fresh_id(),
            name,
            abbreviation,
            conference: None,
            division: None,
            stats: TeamStats::new(DEFAULT_SEASON),
            created_at: now,
            updated_at: now,
        }
    }

    /// A new team that belongs to a conference and a division.
    pub fn with_conference_division(
        name: String,
        abbreviation: String,
        conference: String,
        division: String,
    ) -> (team: Self)
        ensures
            team.name == name,
            team.abbreviation == abbreviation,
            team.conference == Some(conference),
            team.division == Some(division),
            team.stats.is_blank(),
            team.stats.season == DEFAULT_SEASON,
            team.id@.len() == ID_LENGTH,
    {
        let mut team = Self::new(name, abbreviation);
        team.conference = Some(conference);
        team.division = Some(division);
        team
    }

    /// Replaces the record and notes the time of the change.
    pub fn update_stats(&mut self, stats: TeamStats)
        ensures
            *final(self) == (Team { stats, updated_at: final(self).updated_at, ..*old(self) }),
    {
        self.stats = stats;
        self.updated_at = Timestamp::now();
    }

    /// Adds an entry to the injury report and notes the time of the change.
    pub fn add_injury(&mut self, injury: PlayerInjury)
        ensures
            final(self).stats.injury_report@ == old(self).stats.injury_report@.push(injury),
            *final(self) == (Team {
                stats: TeamStats {
                    injury_report: final(self).stats.injury_report,
                    ..old(self).stats
                },
                updated_at: final(self).updated_at,
                ..*old(self)
            }),
    {
        self.stats.injury_report.push(injury);
        self.updated_at = Timestamp::now();
    }

    /// The share of games won so far.
    pub fn get_win_percentage(&self) -> (share: Fixed)
        ensures
            share.raw == win_percentage_of(self.stats.wins as int, self.stats.games_played as int),
    {
        let total_games = self.stats.games_played;
        if total_games == 0 {
            return Fixed { raw: 0 };
        }
        assert(0 <= self.stats.wins * SCALE <= 255 * SCALE * total_games) by (nonlinear_arith)
            requires
                0 <= self.stats.wins <= 255,
                total_games >= 1,
                SCALE == 1_000_000,
        ;
        proof {
            lemma_div_round_between(
                self.stats.wins * SCALE,
                total_games as int,
                0,
                255 * SCALE,
            );
        }
        Fixed {
            raw: div_round_i128(self.stats.wins as i128 * SCALE as i128, total_games as i128)
                as i64,
        }
    }

    /// How many of the last `last_n_games` games were won.
    pub fn get_recent_form_wins(&self, last_n_games: usize) -> (wins: usize)
        ensures
            wins == count_wins(most_recent(self.stats.recent_form@, last_n_games as int)),
    {
        let n = self.stats.recent_form.len();
        let start: usize = if last_n_games >= n {
            0
        } else {
            n - last_n_games
        };
        let ghost window = most_recent(self.stats.recent_form@, last_n_games as int);
        assert(window =~= self.stats.recent_form@.skip(start as int));
        let mut wins: usize = 0;
        let mut i: usize = start;
        while i < n
            invariant
                n == self.stats.recent_form@.len(),
                start <= i <= n,
                window == self.stats.recent_form@.skip(start as int),
                wins <= i - start,
                wins == count_wins(window.take(i - start)),
            decreases n - i,
        {
            assert(window.take(i - start + 1).drop_last() =~= window.take(i - start));
            assert(window[i - start] == self.stats.recent_form@[i as int]);
            match self.stats.recent_form[i].result {
                GameOutcome::Win => {
                    wins = wins + 1;
                },
                _ => {},
            }
            i = i + 1;
        }
        assert(window.take(i - start) =~= window);
        wins
    }

    /// The injuries of players who are not healthy.
    pub fn get_active_injuries(&self) -> (active: Vec<&PlayerInjury>)
        ensures
            active@.len() == active_injuries(self.stats.injury_report@).len(),
            forall|i: int|
                0 <= i < active@.len() ==> *(#[trigger] active@[i]) == active_injuries(
                    self.stats.injury_report@,
                )[i],
    {
        broadcast use vstd::seq_lib::group_seq_properties;

        let mut active: Vec<&PlayerInjury> = Vec::new();
        let mut i: usize = 0;
        let ghost keep = |injury: PlayerInjury| injury.status != InjuryStatus::Healthy;
        assert(self.stats.injury_report@.take(0) =~= Seq::<PlayerInjury>::empty());
        while i < self.stats.injury_report.len()
            invariant
                i <= self.stats.injury_report@.len(),
                keep == |injury: PlayerInjury| injury.status != InjuryStatus::Healthy,
                active@.len() == self.stats.injury_report@.take(i as int).filter(keep).len(),
                forall|k: int|
                    0 <= k < active@.len() ==> *(#[trigger] active@[k])
                        == self.stats.injury_report@.take(i as int).filter(keep)[k],
            decreases self.stats.injury_report@.len() - i,
        {
            let ghost before = self.stats.injury_report@.take(i as int);
            let injury = &self.stats.injury_report[i];
            proof {
                assert(self.stats.injury_report@.take(i + 1) =~= before.push(*injury));
                before.lemma_filter_push(*injury, keep);
            }
            match injury.status {
                InjuryStatus::Healthy => {},
                _ => {
                    active.push(injury);
                },
            }
            i = i + 1;
        }
        assert(self.stats.injury_report@.take(i as int) =~= self.stats.injury_report@);
        active
    }
}

/// `team` is a new team with the given names, conference and division.
pub open spec fn is_named_team(
    team: Team,
    name: Seq<char>,
    abbreviation: Seq<char>,
    conference: Seq<char>,
    division: Seq<char>,
) -> bool {
    &&& team.name@ == name
    &&& team.abbreviation@ == abbreviation
    &&& team.conference matches Some(c) && c@ == conference
    &&& team.division matches Some(d) && d@ == division
    &&& team.stats.is_blank()
}

} // verus!
