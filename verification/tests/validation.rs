use prisoners_riddle::prisoners_riddle::GameSettings;
use prisoners_riddle::prisoners_riddle::GameSettingsError;
use prisoners_riddle::prisoners_riddle::GameStatistics;
use prisoners_riddle::prisoners_riddle::GameStatisticsError;

#[test]
fn settings_reject_bad_ballot_counts() {
    assert_eq!(
        GameSettings::new(0, 10).unwrap_err(),
        GameSettingsError::InvalidNumBallots
    );
    assert_eq!(
        GameSettings::new(-2, 10).unwrap_err(),
        GameSettingsError::InvalidNumBallots
    );
    assert_eq!(
        GameSettings::new(-7, 10).unwrap_err(),
        GameSettingsError::InvalidNumBallots
    );
    assert_eq!(
        GameSettings::new(3, 10).unwrap_err(),
        GameSettingsError::InvalidNumBallots
    );
    assert_eq!(
        GameSettings::new(101, 10).unwrap_err(),
        GameSettingsError::InvalidNumBallots
    );
}

#[test]
fn settings_accept_even_positive_ballot_counts() {
    for &n in &[2i32, 4, 100, 1000] {
        let s = GameSettings::new(n, 1).unwrap();
        assert_eq!(s.get_num_ballots(), n);
        assert_eq!(s.get_num_games(), 1);
    }
}

#[test]
fn settings_reject_bad_game_counts() {
    assert_eq!(
        GameSettings::new(4, 0).unwrap_err(),
        GameSettingsError::InvalidNumGames
    );
    assert_eq!(
        GameSettings::new(4, -5).unwrap_err(),
        GameSettingsError::InvalidNumGames
    );
    // An invalid ballot count is reported first.
    assert_eq!(
        GameSettings::new(3, 0).unwrap_err(),
        GameSettingsError::InvalidNumBallots
    );
}

#[test]
fn statistics_reject_bad_counts() {
    assert_eq!(
        GameStatistics::new(0, 0).unwrap_err(),
        GameStatisticsError::InvalidNumGames
    );
    assert_eq!(
        GameStatistics::new(-1, 0).unwrap_err(),
        GameStatisticsError::InvalidNumGames
    );
    assert_eq!(
        GameStatistics::new(10, -1).unwrap_err(),
        GameStatisticsError::InvalidNumWins
    );
    assert_eq!(
        GameStatistics::new(10, 11).unwrap_err(),
        GameStatisticsError::NumWinsGreaterThanNumGames
    );
}

#[test]
fn statistics_accept_boundary_win_counts() {
    let none = GameStatistics::new(10, 0).unwrap();
    assert_eq!(none.get_num_wins(), 0);
    assert_eq!(none.get_num_games(), 10);
    let all = GameStatistics::new(10, 10).unwrap();
    assert_eq!(all.get_num_wins(), 10);
    assert_eq!(all.get_num_wins() as f64 / all.get_num_games() as f64, 1.0);
}
