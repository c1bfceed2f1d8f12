// Monte-Carlo simulation of the hundred-prisoners puzzle: every prisoner
// follows the cycle-following strategy, opening at most half of the boxes,
// and the group wins only if every prisoner finds their own number.

use vstd::prelude::*;

use crate::progress::Progress;
use crate::progress::ProgressSink;
use crate::rng::SimRng;
use crate::rng::chacha_shuffle;

verus! {

/// A numbered box holding one hidden number.
pub struct Ballot {
    pub hidden_num: i32,
}

/// A prisoner, identified by the note number drawn for them; it determines
/// the box they open first and the number they must find.
#[derive(Clone, Copy)]
pub struct Prisoner {
    pub note_num: i32,
}

/// The hidden numbers of a row of ballots, in box order.
pub open spec fn ballot_nums(ballots: Seq<Ballot>) -> Seq<i32> {
    ballots.map(|i: int, b: Ballot| b.hidden_num)
}

/// The note numbers of a row of prisoners, in playing order.
pub open spec fn prisoner_notes(prisoners: Seq<Prisoner>) -> Seq<i32> {
    prisoners.map(|i: int, p: Prisoner| p.note_num)
}

/// Every element lies in `[0, n)`.
pub open spec fn in_range(s: Seq<i32>, n: int) -> bool {
    forall|i: int| 0 <= i < s.len() ==> 0 <= #[trigger] s[i] < n
}

/// `s` is a permutation of `{0, ..., n-1}`: it has length `n` and every
/// value of the domain appears in it exactly once.
pub open spec fn is_permutation(s: Seq<i32>, n: int) -> bool {
    &&& s.len() == n
    &&& in_range(s, n)
    &&& s.no_duplicates()
    &&& forall|v: i32| 0 <= v < n ==> s.contains(v)
}

/// The cycle-following search: open the box at index `start`; if it hides
/// `note` the search succeeds, otherwise continue at the box indexed by the
/// revealed number, for at most `budget` openings in total.
pub open spec fn finds_within(nums: Seq<i32>, note: i32, start: i32, budget: nat) -> bool
    decreases budget,
{
    if budget == 0 {
        false
    } else {
        nums[start as int] == note || finds_within(
            nums,
            note,
            nums[start as int],
            (budget - 1) as nat,
        )
    }
}

/// A prisoner survives when the cycle-following search starting at their own
/// note number finds that number within half the number of boxes.
pub open spec fn survives(nums: Seq<i32>, note: i32) -> bool {
    finds_within(nums, note, note, (nums.len() / 2) as nat)
}

/// The group wins only when every prisoner survives.
pub open spec fn all_survive(nums: Seq<i32>, notes: Seq<i32>) -> bool {
    forall|i: int| 0 <= i < notes.len() ==> survives(nums, #[trigger] notes[i])
}

/// The outcome of one prisoner's turn.
#[derive(Debug, PartialEq, Eq, Structural)]
pub enum PrisonerTurnResult {
    StillAlive,
    Dead,
}

/// The outcome of one game.
#[derive(Debug, PartialEq, Eq, Structural)]
pub enum GameResult {
    Win,
    Lose,
}

/// One prisoner's turn: opens the box at their own note number, then follows
/// the chain of revealed numbers, for at most `ballots.len() / 2` openings.
pub fn prisoner_play_turn(ballots: &Vec<Ballot>, prisoner: Prisoner) -> (r: PrisonerTurnResult)
    requires
        ballots@.len() > 1,
        ballots@.len() % 2 == 0,
        is_permutation(ballot_nums(ballots@), ballots@.len() as int),
        0 <= prisoner.note_num < ballots@.len(),
    ensures
        r is StillAlive <==> survives(ballot_nums(ballots@), prisoner.note_num),
{
    let ghost nums = ballot_nums(ballots@);
    let num_uncoverings: usize = ballots.len() / 2;
    let first_hidden_num: i32 = ballots[prisoner.note_num as usize].hidden_num;
    assert(first_hidden_num == nums[prisoner.note_num as int]);
    if first_hidden_num == prisoner.note_num {
        return PrisonerTurnResult::StillAlive;
    }
    let mut trying_next: i32 = first_hidden_num;
    for k in 0..(num_uncoverings - 1)
        invariant
            nums == ballot_nums(ballots@),
            ballots@.len() > 1,
            num_uncoverings == ballots@.len() / 2,
            is_permutation(nums, ballots@.len() as int),
            0 <= trying_next < ballots@.len(),
            survives(nums, prisoner.note_num) <==> finds_within(
                nums,
                prisoner.note_num,
                trying_next,
                (num_uncoverings - 1 - k) as nat,
            ),
    {
        let hidden_num: i32 = ballots[trying_next as usize].hidden_num;
        assert(hidden_num == nums[trying_next as int]);
        if hidden_num == prisoner.note_num {
            return PrisonerTurnResult::StillAlive;
        }
        trying_next = hidden_num;
    }
    PrisonerTurnResult::Dead
}

/// One game on a fixed row of boxes: every prisoner takes a turn, and the
/// group wins only if all of them survive; a single death ends the game.
pub fn evaluate_game(ballots: &Vec<Ballot>, prisoners: Vec<Prisoner>) -> (r: GameResult)
    requires
        ballots@.len() > 1,
        ballots@.len() % 2 == 0,
        is_permutation(ballot_nums(ballots@), ballots@.len() as int),
        in_range(prisoner_notes(prisoners@), ballots@.len() as int),
    ensures
        r is Win <==> all_survive(ballot_nums(ballots@), prisoner_notes(prisoners@)),
{
    let ghost nums = ballot_nums(ballots@);
    let ghost notes = prisoner_notes(prisoners@);
    let n: usize = prisoners.len();
    for idx in 0..n
        invariant
            nums == ballot_nums(ballots@),
            notes == prisoner_notes(prisoners@),
            n == prisoners@.len(),
            ballots@.len() > 1,
            ballots@.len() % 2 == 0,
            is_permutation(nums, ballots@.len() as int),
            in_range(notes, ballots@.len() as int),
            forall|j: int| 0 <= j < idx ==> survives(nums, #[trigger] notes[j]),
    {
        let prisoner: Prisoner = prisoners[idx];
        assert(prisoner.note_num == notes[idx as int]);
        let res: PrisonerTurnResult = prisoner_play_turn(ballots, prisoner);
        match res {
            PrisonerTurnResult::StillAlive => {},
            PrisonerTurnResult::Dead => {
                assert(!survives(nums, notes[idx as int]));
                return GameResult::Lose;
            },
        }
    }
    GameResult::Win
}

/// Why a settings value was rejected.
#[derive(Debug, PartialEq, Eq, Structural)]
pub enum GameSettingsError {
    InvalidNumBallots,
    InvalidNumGames,
}

/// Validated simulation parameters: a positive, even number of ballots and a
/// positive number of games.
#[derive(Debug)]
pub struct GameSettings {
    num_ballots: i32,
    num_games: i32,
}

impl GameSettings {
    /// The validated number of ballots (boxes, and also prisoners) per game.
    pub closed spec fn num_ballots(&self) -> i32 {
        self.num_ballots
    }

    /// The validated number of games in one run.
    pub closed spec fn num_games(&self) -> i32 {
        self.num_games
    }

    /// What construction guarantees: an even number of ballots, at least two,
    /// and a positive number of games.
    pub open spec fn wf(&self) -> bool {
        &&& self.num_ballots() > 1
        &&& self.num_ballots() % 2 == 0
        &&& self.num_games() > 0
    }

    /// Validates the parameters: the ballot count must be positive and even,
    /// the game count positive; anything else is rejected here, once.
    pub fn new(num_ballots: i32, num_games: i32) -> (r: Result<GameSettings, GameSettingsError>)
        ensures
            r is Ok <==> num_ballots > 0 && num_ballots % 2 == 0 && num_games > 0,
            match r {
                Ok(s) => s.wf() && s.num_ballots() == num_ballots && s.num_games() == num_games,
                Err(GameSettingsError::InvalidNumBallots) => num_ballots <= 0 || num_ballots % 2
                    != 0,
                Err(GameSettingsError::InvalidNumGames) => num_ballots > 0 && num_ballots % 2 == 0
                    && num_games <= 0,
            },
    {
        if num_ballots <= 0 || num_ballots % 2 != 0 {
            return Err(GameSettingsError::InvalidNumBallots);
        }
        if num_games <= 0 {
            return Err(GameSettingsError::InvalidNumGames);
        }
        Ok(GameSettings { num_ballots, num_games })
    }

    /// The number of ballots, as configured.
    pub fn get_num_ballots(&self) -> (r: i32)
        ensures
            r == self.num_ballots(),
    {
        self.num_ballots
    }

    /// The number of games, as configured.
    pub fn get_num_games(&self) -> (r: i32)
        ensures
            r == self.num_games(),
    {
        self.num_games
    }
}

/// Why a statistics value was rejected.
#[derive(Debug, PartialEq, Eq, Structural)]
pub enum GameStatisticsError {
    InvalidNumGames,
    InvalidNumWins,
    NumWinsGreaterThanNumGames,
}

/// The aggregate result of a run: a win count over a game count, validated so
/// that the win proportion `num_wins / num_games` lies in `[0, 1]`.
#[derive(Debug)]
pub struct GameStatistics {
    num_games: i32,
    num_wins: i32,
}

impl GameStatistics {
    /// The validated number of games.
    pub closed spec fn num_games(&self) -> i32 {
        self.num_games
    }

    /// The validated number of games won.
    pub closed spec fn num_wins(&self) -> i32 {
        self.num_wins
    }

    /// What construction guarantees: the proportion of wins is a fraction.
    pub open spec fn wf(&self) -> bool {
        0 <= self.num_wins() <= self.num_games() && self.num_games() > 0
    }

    /// Validates the aggregate counts: the game count must be positive and
    /// the win count a number between zero and the game count, inclusive.
    pub fn new(num_games: i32, num_wins: i32) -> (r: Result<
        GameStatistics,
        GameStatisticsError,
    >)
        ensures
            r is Ok <==> num_games > 0 && 0 <= num_wins <= num_games,
            match r {
                Ok(s) => s.wf() && s.num_games() == num_games && s.num_wins() == num_wins,
                Err(GameStatisticsError::InvalidNumGames) => num_games <= 0,
                Err(GameStatisticsError::InvalidNumWins) => num_games > 0 && num_wins < 0,
                Err(GameStatisticsError::NumWinsGreaterThanNumGames) => num_games > 0 && num_wins
                    >= 0 && num_wins > num_games,
            },
    {
        if num_games <= 0 {
            return Err(GameStatisticsError::InvalidNumGames);
        }
        if num_wins < 0 {
            return Err(GameStatisticsError::InvalidNumWins);
        }
        if num_wins > num_games {
            return Err(GameStatisticsError::NumWinsGreaterThanNumGames);
        }
        Ok(GameStatistics { num_games, num_wins })
    }

    /// The number of games, as recorded.
    pub fn get_num_games(&self) -> (r: i32)
        ensures
            r == self.num_games(),
    {
        self.num_games
    }

    /// The number of wins, as recorded.
    pub fn get_num_wins(&self) -> (r: i32)
        ensures
            r == self.num_wins(),
    {
        self.num_wins
    }
}

/// All valid numbers in ascending order: `0, 1, ..., n-1`.
pub open spec fn identity_seq(n: int) -> Seq<i32> {
    Seq::new(n as nat, |i: int| i as i32)
}

proof fn lemma_identity_is_permutation(n: int)
    requires
        0 <= n <= i32::MAX,
    ensures
        is_permutation(identity_seq(n), n),
{
    let s = identity_seq(n);
    assert forall|v: i32| 0 <= v < n implies s.contains(v) by {
        assert(s[v as int] == v);
    }
    assert forall|i: int, j: int|
        0 <= i < s.len() && 0 <= j < s.len() && i != j implies s[i] != s[j] by {
        assert(s[i] == i as i32 && s[j] == j as i32);
    }
    assert(s.no_duplicates());
}

/// A row with exactly the same elements as a permutation of `{0, ..., n-1}`
/// is itself such a permutation.
proof fn lemma_multiset_permutation(orig: Seq<i32>, s: Seq<i32>, n: int)
    requires
        0 <= n <= i32::MAX,
        is_permutation(orig, n),
        s.to_multiset() == orig.to_multiset(),
    ensures
        is_permutation(s, n),
{
    broadcast use vstd::seq_lib::group_to_multiset_ensures;

    assert(s.len() == s.to_multiset().len());
    assert(orig.len() == orig.to_multiset().len());
    assert forall|i: int| 0 <= i < s.len() implies 0 <= #[trigger] s[i] < n by {
        assert(s.contains(s[i]));
        assert(s.to_multiset().count(s[i]) > 0);
        assert(orig.contains(s[i]));
        let j = choose|j: int| 0 <= j < orig.len() && orig[j] == s[i];
        assert(0 <= orig[j] < n);
    }
    orig.lemma_multiset_has_no_duplicates();
    s.lemma_multiset_has_no_duplicates_conv();
    assert forall|v: i32| 0 <= v < n implies s.contains(v) by {
        assert(orig.contains(v));
        assert(orig.to_multiset().count(v) > 0);
        assert(s.to_multiset().count(v) > 0);
    }
}

/// Builds the row `0, 1, ..., num_ballots - 1` and shuffles it: a random
/// permutation of the full domain, every value appearing exactly once.
pub fn gen_random_nums(rng: &mut SimRng, num_ballots: i32) -> (r: Vec<i32>)
    requires
        num_ballots > 0,
    ensures
        r@ == chacha_shuffle(old(rng).seed(), old(rng).draws(), identity_seq(num_ballots as int)),
        is_permutation(r@, num_ballots as int),
        final(rng).seed() == old(rng).seed(),
        final(rng).draws() == old(rng).draws().push(num_ballots as int),
{
    let n: usize = num_ballots as usize;
    let mut nums: Vec<i32> = Vec::with_capacity(n);
    for i in 0..n
        invariant
            n == num_ballots as usize,
            num_ballots > 0,
            nums@.len() == i,
            forall|j: int| 0 <= j < i ==> nums@[j] == j as i32,
    {
        nums.push(i as i32);
    }
    proof {
        assert(nums@ =~= identity_seq(num_ballots as int));
    }
    rng.shuffle(&mut nums);
    proof {
        lemma_identity_is_permutation(num_ballots as int);
        lemma_multiset_permutation(identity_seq(num_ballots as int), nums@, num_ballots as int);
    }
    nums
}

/// Fills a fresh row of ballots with a random permutation of hidden numbers.
pub fn gen_ballots(rng: &mut SimRng, num_ballots: i32) -> (r: Vec<Ballot>)
    requires
        num_ballots > 0,
    ensures
        ballot_nums(r@) == chacha_shuffle(
            old(rng).seed(),
            old(rng).draws(),
            identity_seq(num_ballots as int),
        ),
        is_permutation(ballot_nums(r@), num_ballots as int),
        final(rng).seed() == old(rng).seed(),
        final(rng).draws() == old(rng).draws().push(num_ballots as int),
{
    let hidden: Vec<i32> = gen_random_nums(rng, num_ballots);
    let n: usize = hidden.len();
    let mut ballots: Vec<Ballot> = Vec::with_capacity(n);
    for i in 0..n
        invariant
            n == hidden@.len(),
            ballots@.len() == i,
            forall|j: int| 0 <= j < i ==> ballots@[j].hidden_num == hidden@[j],
    {
        ballots.push(Ballot { hidden_num: hidden[i] });
    }
    proof {
        assert(ballot_nums(ballots@) =~= hidden@);
    }
    ballots
}

/// The boxes one game is played with: the permutation of hidden numbers that
/// a source seeded with `seed` draws right after the draws in `draws`.
pub open spec fn game_ballots(seed: u64, draws: Seq<int>, num_ballots: i32) -> Seq<i32> {
    chacha_shuffle(seed, draws, identity_seq(num_ballots as int))
}

/// The note numbers the prisoners draw in that game, right after the boxes.
pub open spec fn game_notes(seed: u64, draws: Seq<int>, num_ballots: i32) -> Seq<i32> {
    chacha_shuffle(seed, draws.push(num_ballots as int), identity_seq(num_ballots as int))
}

/// Whether the game that a source seeded with `seed` plays after the draws
/// in `draws` is won.
pub open spec fn spec_game_win(seed: u64, draws: Seq<int>, num_ballots: i32) -> bool {
    all_survive(
        game_ballots(seed, draws, num_ballots),
        game_notes(seed, draws, num_ballots),
    )
}

/// Plays one game: draws fresh boxes and fresh note numbers from the source,
/// then lets every prisoner take a turn.
pub fn play_game(rng: &mut SimRng, num_ballots: i32) -> (r: GameResult)
    requires
        num_ballots > 1,
        num_ballots % 2 == 0,
    ensures
        r is Win <==> spec_game_win(old(rng).seed(), old(rng).draws(), num_ballots),
        final(rng).seed() == old(rng).seed(),
        final(rng).draws() == old(rng).draws().push(num_ballots as int).push(num_ballots as int),
{
    let ballots: Vec<Ballot> = gen_ballots(rng, num_ballots);
    let prisoners_nums: Vec<i32> = gen_random_nums(rng, num_ballots);
    let n: usize = prisoners_nums.len();
    let mut prisoners: Vec<Prisoner> = Vec::with_capacity(n);
    for i in 0..n
        invariant
            n == prisoners_nums@.len(),
            prisoners@.len() == i,
            forall|j: int| 0 <= j < i ==> prisoners@[j].note_num == prisoners_nums@[j],
    {
        prisoners.push(Prisoner { note_num: prisoners_nums[i] });
    }
    proof {
        assert(prisoner_notes(prisoners@) =~= prisoners_nums@);
        assert(ballots@.len() == ballot_nums(ballots@).len());
    }
    evaluate_game(&ballots, prisoners)
}

/// The draw history after `games` complete games of `num_ballots` ballots:
/// each game draws two permutations of the full domain.
pub open spec fn draws_after(draws: Seq<int>, num_ballots: i32, games: nat) -> Seq<int>
    decreases games,
{
    if games == 0 {
        draws
    } else {
        draws_after(draws, num_ballots, (games - 1) as nat).push(num_ballots as int).push(
            num_ballots as int,
        )
    }
}

/// How many of the first `games` games a source seeded with `seed` wins,
/// playing right after the draws in `draws`.
pub open spec fn spec_wins(seed: u64, draws: Seq<int>, num_ballots: i32, games: nat) -> nat
    decreases games,
{
    if games == 0 {
        0
    } else {
        spec_wins(seed, draws, num_ballots, (games - 1) as nat) + (if spec_game_win(
            seed,
            draws_after(draws, num_ballots, (games - 1) as nat),
            num_ballots,
        ) {
            1nat
        } else {
            0nat
        })
    }
}

/// The denominator of the progress fraction for a run of `num_games` games;
/// a run of a single game reports progress zero, then one.
pub open spec fn progress_den(num_games: int) -> int {
    if num_games == 1 {
        1
    } else {
        num_games - 1
    }
}

/// The exact schedule of progress reports for one run: the fraction
/// `i / (num_games - 1)` before game `i`, and one more, exactly complete,
/// report after the last game.
pub open spec fn progress_reports(num_games: int) -> Seq<Progress> {
    Seq::new(
        (num_games + 1) as nat,
        |i: int|
            if i < num_games {
                Progress { num: i as i32, den: progress_den(num_games) as i32 }
            } else {
                Progress {
                    num: progress_den(num_games) as i32,
                    den: progress_den(num_games) as i32,
                }
            },
    )
}

/// Runs the configured number of games and aggregates the wins, reporting
/// fractional progress before every game and a final, exactly complete,
/// report after the last one.
pub fn collect_game_statistics<S: ProgressSink>(
    rng: &mut SimRng,
    game_settings: GameSettings,
    progress: &mut S,
) -> (r: GameStatistics)
    requires
        game_settings.wf(),
    ensures
        r.wf(),
        r.num_games() == game_settings.num_games(),
        r.num_wins() as nat == spec_wins(
            old(rng).seed(),
            old(rng).draws(),
            game_settings.num_ballots(),
            game_settings.num_games() as nat,
        ),
        final(rng).seed() == old(rng).seed(),
        final(rng).draws() == draws_after(
            old(rng).draws(),
            game_settings.num_ballots(),
            game_settings.num_games() as nat,
        ),
        final(progress).reports() == old(progress).reports() + progress_reports(
            game_settings.num_games() as int,
        ),
{
    let ghost seed0 = rng.seed();
    let ghost draws0 = rng.draws();
    let ghost reports0 = progress.reports();
    let num_games: i32 = game_settings.get_num_games();
    let num_ballots: i32 = game_settings.get_num_ballots();
    let den: i32 = if num_games == 1 {
        1
    } else {
        num_games - 1
    };
    let ghost schedule = progress_reports(num_games as int);
    let mut num_wins: i32 = 0;
    for game_idx in 0..num_games
        invariant
            num_games == game_settings.num_games(),
            num_ballots == game_settings.num_ballots(),
            game_settings.wf(),
            den as int == progress_den(num_games as int),
            schedule == progress_reports(num_games as int),
            0 <= num_wins <= game_idx,
            rng.seed() == seed0,
            rng.draws() == draws_after(draws0, num_ballots, game_idx as nat),
            num_wins as nat == spec_wins(seed0, draws0, num_ballots, game_idx as nat),
            progress.reports() == reports0 + schedule.take(game_idx as int),
    {
        progress.report(Progress { num: game_idx, den });
        proof {
            assert(schedule[game_idx as int] == Progress { num: game_idx, den });
            assert((reports0 + schedule.take(game_idx as int)).push(schedule[game_idx as int])
                =~= reports0 + schedule.take(game_idx as int + 1));
        }
        let res: GameResult = play_game(rng, num_ballots);
        match res {
            GameResult::Win => {
                num_wins = num_wins + 1;
            },
            GameResult::Lose => {},
        }
        proof {
            assert(rng.draws() == draws_after(draws0, num_ballots, (game_idx + 1) as nat));
            assert(num_wins as nat == spec_wins(seed0, draws0, num_ballots, (game_idx + 1) as nat));
        }
    }
    progress.report(Progress { num: den, den });
    proof {
        assert(schedule[num_games as int] == Progress { num: den, den });
        assert((reports0 + schedule.take(num_games as int)).push(schedule[num_games as int])
            =~= reports0 + schedule);
    }
    GameStatistics::new(num_games, num_wins).unwrap()
}

/// Law: a run is deterministic. Every game's outcome, and with it the win
/// count, is a function of the seed, the prior draw history and the
/// settings alone, so two runs that agree on those agree on the outcome of
/// every single game and on the final win count.
pub proof fn lemma_determinism(
    seed1: u64,
    draws1: Seq<int>,
    seed2: u64,
    draws2: Seq<int>,
    num_ballots: i32,
    num_games: nat,
)
    requires
        seed1 == seed2,
        draws1 == draws2,
    ensures
        forall|k: nat|
            k < num_games ==> spec_game_win(
                seed1,
                #[trigger] draws_after(draws1, num_ballots, k),
                num_ballots,
            ) == spec_game_win(seed2, draws_after(draws2, num_ballots, k), num_ballots),
        spec_wins(seed1, draws1, num_ballots, num_games) == spec_wins(
            seed2,
            draws2,
            num_ballots,
            num_games,
        ),
{
}

/// Law: one run reports progress exactly `num_games + 1` times; every report
/// is a fraction in the unit interval, the reports never decrease, and the
/// final one says exactly complete.
pub proof fn lemma_progress_report_count(num_games: int)
    requires
        0 < num_games <= i32::MAX,
    ensures
        progress_reports(num_games).len() == num_games + 1,
        progress_reports(num_games).last().is_complete(),
        forall|i: int|
            0 <= i <= num_games ==> (#[trigger] progress_reports(num_games)[i]).wf(),
        forall|i: int, j: int|
            0 <= i <= j <= num_games ==> progress_reports(num_games)[i].num
                <= progress_reports(num_games)[j].num && progress_reports(num_games)[i].den
                == progress_reports(num_games)[j].den,
{
    let s = progress_reports(num_games);
    assert forall|i: int| 0 <= i <= num_games implies (#[trigger] s[i]).wf() by {
        if i < num_games {
            assert(s[i] == Progress { num: i as i32, den: progress_den(num_games) as i32 });
        } else {
            assert(s[i] == Progress {
                num: progress_den(num_games) as i32,
                den: progress_den(num_games) as i32,
            });
        }
    }
    assert forall|i: int, j: int| 0 <= i <= j <= num_games implies s[i].num <= s[j].num
        && s[i].den == s[j].den by {
        assert(s[i].den == progress_den(num_games) as i32);
        assert(s[j].den == progress_den(num_games) as i32);
    }
}

/// Law: with a single pair of ballots, the group wins exactly when each box
/// hides its own index, whatever note numbers the two prisoners draw.
pub proof fn lemma_pair_game(nums: Seq<i32>, notes: Seq<i32>)
    requires
        is_permutation(nums, 2),
        is_permutation(notes, 2),
    ensures
        all_survive(nums, notes) <==> nums == seq![0i32, 1i32],
{
    assert(nums.contains(0i32));
    assert(nums.contains(1i32));
    let i0 = choose|i: int| 0 <= i < nums.len() && nums[i] == 0i32;
    let i1 = choose|i: int| 0 <= i < nums.len() && nums[i] == 1i32;
    assert(i0 != i1);
    assert(nums.len() as int / 2 == 1);
    if nums[0] == 0i32 {
        assert(nums[1] == 1i32);
        assert(nums =~= seq![0i32, 1i32]);
        assert forall|i: int| 0 <= i < notes.len() implies survives(
            nums,
            #[trigger] notes[i],
        ) by {
            assert(0 <= notes[i] < 2);
            assert(nums[notes[i] as int] == notes[i]);
            assert(finds_within(nums, notes[i], notes[i], 1nat));
        }
    } else {
        assert(nums[0] == 1i32 && nums[1] == 0i32);
        assert(nums != seq![0i32, 1i32]) by {
            assert(seq![0i32, 1i32][0] == 0i32);
        }
        assert(notes.contains(0i32));
        let k = choose|i: int| 0 <= i < notes.len() && notes[i] == 0i32;
        assert(!finds_within(nums, 0i32, 1i32, 0nat));
        assert(!finds_within(nums, 0i32, 0i32, 1nat));
        assert(!survives(nums, notes[k]));
        assert(!all_survive(nums, notes));
    }
}

} // verus!
