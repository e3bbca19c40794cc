use prediction_engine::csv::{
    csv_to_game_data, parse_csv_data, parse_decimal, parse_week, CsvError, CsvGameData,
};
use prediction_engine::fixed::Fixed;

const HEADER: &str = "week,date,time,away,home,away_score,home_score,confidence,spread,total";

fn parse_one(line: &str) -> Result<Vec<CsvGameData>, CsvError> {
    parse_csv_data(&format!("{}\n{}\n", HEADER, line))
}

fn spread_of(field: &str) -> Result<i64, CsvError> {
    let line = format!("3,2025-09-21,13:00,ATL,CAR,26.4,21.6,0.34,{},45.0", field);
    parse_one(&line).map(|games| games[0].market_spread.to_raw())
}

fn week_of(field: &str) -> Result<u8, CsvError> {
    let line = format!("{},2025-09-21,13:00,ATL,CAR,26.4,21.6,0.34,4.5,45.0", field);
    parse_one(&line).map(|games| games[0].week)
}

#[test]
fn games_are_read_line_by_line() {
    let text = format!(
        "{}\n3,2025-09-21,13:00,ATL,CAR,26.4,21.6,0.34,4.5,45.0\n3,2025-09-21,16:25,GB,CLE,28.3,19.7,0.62,-8.5,41.5\n",
        HEADER
    );
    let games = parse_csv_data(&text).unwrap();
    assert_eq!(
        games,
        vec![
            CsvGameData {
                week: 3,
                date: "2025-09-21".to_string(),
                time: "13:00".to_string(),
                away_team: "ATL".to_string(),
                home_team: "CAR".to_string(),
                predicted_away_score: Fixed::from_raw(26_400_000),
                predicted_home_score: Fixed::from_raw(21_600_000),
                confidence: Fixed::from_raw(340_000),
                market_spread: Fixed::from_raw(4_500_000),
                total: Fixed::from_raw(45_000_000),
            },
            CsvGameData {
                week: 3,
                date: "2025-09-21".to_string(),
                time: "16:25".to_string(),
                away_team: "GB".to_string(),
                home_team: "CLE".to_string(),
                predicted_away_score: Fixed::from_raw(28_300_000),
                predicted_home_score: Fixed::from_raw(19_700_000),
                confidence: Fixed::from_raw(620_000),
                market_spread: Fixed::from_raw(-8_500_000),
                total: Fixed::from_raw(41_500_000),
            },
        ]
    );
}

#[test]
fn the_first_line_is_passed_over() {
    assert_eq!(parse_csv_data(""), Ok(Vec::new()));
    assert_eq!(parse_csv_data(HEADER), Ok(Vec::new()));
    assert_eq!(parse_csv_data("x,x,x,x,x,x,x,x,x,x\n"), Ok(Vec::new()));
    let headless = "3,2025-09-21,13:00,ATL,CAR,26.4,21.6,0.34,4.5,45.0\n";
    assert_eq!(parse_csv_data(headless), Ok(Vec::new()));
}

#[test]
fn blank_and_short_lines_are_passed_over() {
    let text = format!(
        "{}\n\n   \t \n3,2025-09-21,13:00,ATL\nnot a game\n3,2025-09-21,13:00,ATL,CAR,26.4,21.6,0.34,4.5,45.0,extra,fields\n\u{3000}\u{a0}\n",
        HEADER
    );
    let games = parse_csv_data(&text).unwrap();
    assert_eq!(games.len(), 1);
    assert_eq!(games[0].home_team, "CAR");
    assert_eq!(games[0].total.to_raw(), 45_000_000);
}

#[test]
fn lines_may_end_with_carriage_returns() {
    let text = format!(
        "{}\r\n3,2025-09-21,13:00,ATL,CAR,26.4,21.6,0.34,4.5,45.0\r\n3,2025-09-21,16:25,GB,CLE,28.3,19.7,0.62,-8.5,41.5",
        HEADER
    );
    let games = parse_csv_data(&text).unwrap();
    assert_eq!(games.len(), 2);
    assert_eq!(games[0].total.to_raw(), 45_000_000);
    assert_eq!(games[1].total.to_raw(), 41_500_000);

    let unfinished = format!("{}\n3,2025-09-21,13:00,ATL,CAR,26.4,21.6,0.34,4.5,45.0\r", HEADER);
    assert_eq!(parse_csv_data(&unfinished), Err(CsvError::InvalidTotal));
}

#[test]
fn fields_are_kept_as_they_are_written() {
    let games = parse_one("3, 2025-09-21 ,13:00,Atlanta ★,CAR ,26.4,21.6,0.34,4.5,45.0").unwrap();
    assert_eq!(games[0].date, " 2025-09-21 ");
    assert_eq!(games[0].away_team, "Atlanta ★");
    assert_eq!(games[0].home_team, "CAR ");
}

#[test]
fn the_first_unreadable_field_ends_the_parse() {
    assert_eq!(
        parse_one("x,2025-09-21,13:00,ATL,CAR,x,x,x,x,x"),
        Err(CsvError::InvalidSpread)
    );
    assert_eq!(
        parse_one("x,2025-09-21,13:00,ATL,CAR,x,x,x,4.5,x"),
        Err(CsvError::InvalidWeek)
    );
    assert_eq!(
        parse_one("3,2025-09-21,13:00,ATL,CAR,x,x,x,4.5,x"),
        Err(CsvError::InvalidAwayScore)
    );
    assert_eq!(
        parse_one("3,2025-09-21,13:00,ATL,CAR,26.4,x,x,4.5,x"),
        Err(CsvError::InvalidHomeScore)
    );
    assert_eq!(
        parse_one("3,2025-09-21,13:00,ATL,CAR,26.4,21.6,x,4.5,x"),
        Err(CsvError::InvalidConfidence)
    );
    assert_eq!(
        parse_one("3,2025-09-21,13:00,ATL,CAR,26.4,21.6,0.34,4.5,x"),
        Err(CsvError::InvalidTotal)
    );
    let later = format!(
        "{}\n3,2025-09-21,13:00,ATL,CAR,26.4,21.6,0.34,4.5,45.0\n3,d,t,GB,CLE,28.3,19.7,0.62,-8.5,\n3,d,t,GB,CLE,28.3,19.7,0.62,bad,41.5\n",
        HEADER
    );
    assert_eq!(parse_csv_data(&later), Err(CsvError::InvalidTotal));
}

#[test]
fn errors_have_words() {
    assert_eq!(CsvError::InvalidSpread.message(), "Invalid spread");
    assert_eq!(CsvError::InvalidWeek.message(), "Invalid week");
    assert_eq!(CsvError::InvalidAwayScore.message(), "Invalid away score");
    assert_eq!(CsvError::InvalidHomeScore.message(), "Invalid home score");
    assert_eq!(CsvError::InvalidConfidence.message(), "Invalid confidence");
    assert_eq!(CsvError::InvalidTotal.message(), "Invalid total");
}

#[test]
fn decimals_are_read_to_the_millionth() {
    assert_eq!(spread_of("4.5"), Ok(4_500_000));
    assert_eq!(spread_of("+3.0"), Ok(3_000_000));
    assert_eq!(spread_of("-1.5"), Ok(-1_500_000));
    assert_eq!(spread_of("0"), Ok(0));
    assert_eq!(spread_of("-0"), Ok(0));
    assert_eq!(spread_of("007"), Ok(7_000_000));
    assert_eq!(spread_of(".5"), Ok(500_000));
    assert_eq!(spread_of("5."), Ok(5_000_000));
    assert_eq!(spread_of("-.25"), Ok(-250_000));
    assert_eq!(spread_of("0.000001"), Ok(1));
    assert_eq!(spread_of("0.1234567"), Ok(123_456));
    assert_eq!(spread_of("0.9999999999999999999999"), Ok(999_999));
    assert_eq!(spread_of("999999999.999999"), Ok(999_999_999_999_999));
    assert_eq!(spread_of("-999999999.999999"), Ok(-999_999_999_999_999));
    assert_eq!(spread_of("0000000000000000000012.5"), Ok(12_500_000));
}

#[test]
fn malformed_decimals_are_turned_away() {
    for field in [
        "", ".", "+", "-", "+-1", "1e3", "1.2.3", " 1", "1 ", "1,5", "inf", "NaN", "0x10", "１",
        "1000000000", "99999999999999999999999999", "--1", "1-", "4.5a",
    ] {
        if field.contains(',') {
            continue;
        }
        assert_eq!(spread_of(field), Err(CsvError::InvalidSpread), "field {:?}", field);
    }
}

#[test]
fn weeks_are_small_whole_numbers() {
    assert_eq!(week_of("3"), Ok(3));
    assert_eq!(week_of("+3"), Ok(3));
    assert_eq!(week_of("018"), Ok(18));
    assert_eq!(week_of("0"), Ok(0));
    assert_eq!(week_of("255"), Ok(255));
    for field in ["256", "1000", "", "+", "-1", "3.0", " 3", "three", "++3", "99999999999999999999"] {
        assert_eq!(week_of(field), Err(CsvError::InvalidWeek), "field {:?}", field);
    }
}

#[test]
fn imported_game_is_built_from_its_line() {
    let games = parse_one("3,2025-09-21,13:00,ATL,CAR,26.4,21.6,0.34,4.5,45.0").unwrap();
    let data = csv_to_game_data(games[0].clone());
    assert_eq!(data.game.home_team.name, "Carolina Panthers");
    assert_eq!(data.game.home_team.abbreviation, "CAR");
    assert_eq!(data.game.away_team.name, "Atlanta Falcons");
    assert_eq!(data.game.away_team.abbreviation, "ATL");
    assert_eq!(data.game.home_team.stats.wins, 8);
    assert_eq!(data.game.home_team.stats.losses, 3);
    assert_eq!(data.game.away_team.stats.wins, 7);
    assert_eq!(data.game.away_team.stats.losses, 4);
    assert_eq!(data.game.week, 3);
    assert_eq!(data.game.season, 2025);
    let prediction = data.prediction.unwrap();
    assert_eq!(prediction.spread_prediction.to_raw(), -4_800_000);
    assert_eq!(prediction.total_prediction.to_raw(), 47_800_000);
    assert_eq!(data.betting_lines[0].provider, "CSV Data");
    assert_eq!(data.betting_lines[0].spread.to_raw(), 4_500_000);
    assert_eq!(data.value_opportunities.len(), 1);
    assert_eq!(data.value_opportunities[0].recommendation, "ATL: -4.5");
    assert_eq!(data.value_opportunities[0].expected_value.to_raw(), 9_300_000);
    assert_eq!(data.value_opportunities[0].confidence.to_raw(), 340_000);
}

#[test]
fn single_fields_can_be_read_on_their_own() {
    assert_eq!(parse_decimal("-3.5"), Some(Fixed::from_raw(-3_500_000)));
    assert_eq!(parse_decimal("47.50"), Some(Fixed::from_raw(47_500_000)));
    assert_eq!(parse_decimal("12,5"), None);
    assert_eq!(parse_decimal("1e2"), None);
    assert_eq!(parse_decimal(""), None);
    assert_eq!(parse_week("18"), Some(18));
    assert_eq!(parse_week("300"), None);
    assert_eq!(parse_week("1 "), None);
}
