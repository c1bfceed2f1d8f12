use prisoners_riddle::prisoners_riddle::collect_game_statistics;
use prisoners_riddle::prisoners_riddle::evaluate_game;
use prisoners_riddle::prisoners_riddle::gen_random_nums;
use prisoners_riddle::prisoners_riddle::play_game;
use prisoners_riddle::prisoners_riddle::prisoner_play_turn;
use prisoners_riddle::prisoners_riddle::Ballot;
use prisoners_riddle::prisoners_riddle::GameResult;
use prisoners_riddle::prisoners_riddle::GameSettings;
use prisoners_riddle::prisoners_riddle::GameStatistics;
use prisoners_riddle::prisoners_riddle::Prisoner;
use prisoners_riddle::prisoners_riddle::PrisonerTurnResult;
use prisoners_riddle::progress::ProgressLog;
use prisoners_riddle::rng::SimRng;

fn ballots_from(nums: &[i32]) -> Vec<Ballot> {
    nums.iter().map(|&n| Ballot { hidden_num: n }).collect()
}

fn prisoners_from(nums: &[i32]) -> Vec<Prisoner> {
    nums.iter().map(|&n| Prisoner { note_num: n }).collect()
}

fn proportion(stats: &GameStatistics) -> f64 {
    stats.get_num_wins() as f64 / stats.get_num_games() as f64
}

#[test]
fn gen_random_nums_is_a_permutation() {
    for &seed in &[0u64, 1, 42] {
        let mut rng = SimRng::new(seed);
        for &n in &[2i32, 4, 10, 100] {
            let nums = gen_random_nums(&mut rng, n);
            assert_eq!(nums.len(), n as usize);
            let mut sorted = nums.clone();
            sorted.sort();
            let expected: Vec<i32> = (0..n).collect();
            assert_eq!(sorted, expected);
        }
    }
}

#[test]
fn shuffle_actually_rearranges() {
    // A run of shuffles that all left the row as they found it would return
    // the ascending row every time; a real shuffle does not.
    let mut rng = SimRng::new(0);
    let identity: Vec<i32> = (0..100).collect();
    let mut saw_a_change = false;
    for _ in 0..4 {
        if gen_random_nums(&mut rng, 100) != identity {
            saw_a_change = true;
        }
    }
    assert!(saw_a_change);
}

#[test]
fn turn_finds_own_number_immediately() {
    let ballots = ballots_from(&[0, 1]);
    let r = prisoner_play_turn(&ballots, Prisoner { note_num: 0 });
    assert_eq!(r, PrisonerTurnResult::StillAlive);
}

#[test]
fn turn_dies_when_budget_runs_out() {
    // The pair is swapped: one opening is allowed, and the first box a
    // prisoner opens hides the other number.
    let ballots = ballots_from(&[1, 0]);
    assert_eq!(
        prisoner_play_turn(&ballots, Prisoner { note_num: 0 }),
        PrisonerTurnResult::Dead
    );
    assert_eq!(
        prisoner_play_turn(&ballots, Prisoner { note_num: 1 }),
        PrisonerTurnResult::Dead
    );
}

#[test]
fn turn_follows_the_chain() {
    // 0 -> 1 -> 0 is a two-cycle: found on the second of two openings.
    let ballots = ballots_from(&[1, 0, 3, 2]);
    assert_eq!(
        prisoner_play_turn(&ballots, Prisoner { note_num: 0 }),
        PrisonerTurnResult::StillAlive
    );
    // 0 -> 1 -> 2 -> 0 is a three-cycle: two openings are not enough.
    let long = ballots_from(&[1, 2, 0, 3]);
    assert_eq!(
        prisoner_play_turn(&long, Prisoner { note_num: 0 }),
        PrisonerTurnResult::Dead
    );
    assert_eq!(
        prisoner_play_turn(&long, Prisoner { note_num: 3 }),
        PrisonerTurnResult::StillAlive
    );
}

#[test]
fn game_is_won_iff_every_prisoner_survives() {
    // All cycles of length two: every prisoner finds their number.
    let ballots = ballots_from(&[1, 0, 3, 2]);
    let r = evaluate_game(&ballots, prisoners_from(&[0, 1, 2, 3]));
    assert_eq!(r, GameResult::Win);
    // A three-cycle among the boxes: prisoners 0, 1 and 2 all fail.
    let ballots = ballots_from(&[1, 2, 0, 3]);
    let r = evaluate_game(&ballots, prisoners_from(&[3, 2, 1, 0]));
    assert_eq!(r, GameResult::Lose);
}

#[test]
fn pair_boundary_exhaustive() {
    // Two ballots: the game is won exactly when each box hides its own
    // index, whichever order the two prisoners draw their notes in.
    let perms: [[i32; 2]; 2] = [[0, 1], [1, 0]];
    for contents in &perms {
        for notes in &perms {
            let r = evaluate_game(&ballots_from(contents), prisoners_from(notes));
            let expected = if *contents == [0, 1] {
                GameResult::Win
            } else {
                GameResult::Lose
            };
            assert_eq!(r, expected);
        }
    }
}

#[test]
fn runs_are_deterministic() {
    // Identical seed and settings: bit-identical game outcomes...
    let mut rng1 = SimRng::new(123);
    let mut rng2 = SimRng::new(123);
    let outcomes1: Vec<GameResult> = (0..50).map(|_| play_game(&mut rng1, 10)).collect();
    let outcomes2: Vec<GameResult> = (0..50).map(|_| play_game(&mut rng2, 10)).collect();
    assert_eq!(outcomes1, outcomes2);
    // ... and an identical final win proportion.
    let mut rng1 = SimRng::new(99);
    let mut rng2 = SimRng::new(99);
    let mut log1 = ProgressLog::new();
    let mut log2 = ProgressLog::new();
    let s1 = collect_game_statistics(&mut rng1, GameSettings::new(8, 500).unwrap(), &mut log1);
    let s2 = collect_game_statistics(&mut rng2, GameSettings::new(8, 500).unwrap(), &mut log2);
    assert_eq!(s1.get_num_wins(), s2.get_num_wins());
    assert_eq!(proportion(&s1).to_bits(), proportion(&s2).to_bits());
}

#[test]
fn progress_is_reported_num_games_plus_one_times() {
    let mut rng = SimRng::new(5);
    let mut log = ProgressLog::new();
    collect_game_statistics(&mut rng, GameSettings::new(4, 5).unwrap(), &mut log);
    assert_eq!(log.len(), 6);
    for i in 0..5 {
        let p = log.get(i);
        assert_eq!((p.num, p.den), (i as i32, 4));
    }
    let last = log.get(5);
    assert_eq!(last.num, last.den);
    assert_eq!(last.num as f64 / last.den as f64, 1.0);
}

#[test]
fn progress_single_game_reports_zero_then_one() {
    let mut rng = SimRng::new(5);
    let mut log = ProgressLog::new();
    collect_game_statistics(&mut rng, GameSettings::new(2, 1).unwrap(), &mut log);
    assert_eq!(log.len(), 2);
    assert_eq!((log.get(0).num, log.get(0).den), (0, 1));
    assert_eq!((log.get(1).num, log.get(1).den), (1, 1));
}

#[test]
fn test_prisoners_riddle() {
    // One hundred ballots, seed zero: the win proportion must land near the
    // known probability of the cycle-following strategy, about 0.31183.
    // (A million games reproduce it to within 0.001 but take too long for a
    // unit test; this plays a tenth as many games, with the tolerance
    // widened to match the larger sampling error.)
    let mut rng = SimRng::new(0u64);
    let game_settings = GameSettings::new(100, 100000).unwrap();
    let mut log = ProgressLog::new();
    let game_stats = collect_game_statistics(&mut rng, game_settings, &mut log);
    let stat = proportion(&game_stats);
    let correct_answer = 0.31183;
    let diff: f64 = (stat - correct_answer).abs();
    if diff > 0.005 {
        panic!("Wrong answer: {} Expected answer: {}", stat, correct_answer);
    }
}
