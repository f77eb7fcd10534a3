//! The two scenes of the game and the rank shown for a finishing time.
use vstd::prelude::*;

verus! {

/// The scene being played.
#[derive(Clone, Copy, Debug, PartialEq, Eq, Structural)]
pub enum GameState {
    Level,
    Win,
}

/// Seconds the win screen stays before a new level starts.
pub const WIN_SCREEN_SECS: u64 = 5;

/// The scene after a tick: a level ends when it is solved, and the win
/// screen gives way to a fresh level once its delay has run out.
pub open spec fn next_state_spec(state: GameState, solved: bool, delay_over: bool) -> GameState {
    match state {
        GameState::Level => if solved { GameState::Win } else { GameState::Level },
        GameState::Win => if delay_over { GameState::Level } else { GameState::Win },
    }
}

/// The scene after a tick; `solved` is read while playing and `delay_over`
/// on the win screen.
pub fn next_state(state: GameState, solved: bool, delay_over: bool) -> (r: GameState)
    ensures
        r == next_state_spec(state, solved, delay_over),
{
    match state {
        GameState::Level => if solved { GameState::Win } else { GameState::Level },
        GameState::Win => if delay_over { GameState::Level } else { GameState::Win },
    }
}

/// The rank given for a level finished in a whole number of seconds.
#[derive(Clone, Copy, Debug, PartialEq, Eq, Structural)]
pub enum ScoreLabel {
    Amazing,
    GreatJob,
    PrettyGood,
    DidOk,
    Asleep,
}

pub open spec fn score_label_spec(secs: u64) -> ScoreLabel {
    if secs <= 20 {
        ScoreLabel::Amazing
    } else if secs <= 40 {
        ScoreLabel::GreatJob
    } else if secs <= 60 {
        ScoreLabel::PrettyGood
    } else if secs <= 80 {
        ScoreLabel::DidOk
    } else {
        ScoreLabel::Asleep
    }
}

/// The rank for a level finished in `secs` seconds: up to 20, 40, 60 and 80
/// seconds give the four better ranks, anything longer the last.
pub fn score_label(secs: u64) -> (r: ScoreLabel)
    ensures
        r == score_label_spec(secs),
{
    if secs <= 20 {
        ScoreLabel::Amazing
    } else if secs <= 40 {
        ScoreLabel::GreatJob
    } else if secs <= 60 {
        ScoreLabel::PrettyGood
    } else if secs <= 80 {
        ScoreLabel::DidOk
    } else {
        ScoreLabel::Asleep
    }
}

impl ScoreLabel {
    /// The words shown for the rank.
    pub fn text(&self) -> (r: &'static str)
        ensures
            *self == ScoreLabel::Amazing ==> r@ == "AMAZING!"@,
            *self == ScoreLabel::GreatJob ==> r@ == "GREAT JOB"@,
            *self == ScoreLabel::PrettyGood ==> r@ == "PRETTY GOOD"@,
            *self == ScoreLabel::DidOk ==> r@ == "YA DID OK"@,
            *self == ScoreLabel::Asleep ==> r@ == "ARE YOU ASLEEP?"@,
    {
        match self {
            ScoreLabel::Amazing => "AMAZING!",
            ScoreLabel::GreatJob => "GREAT JOB",
            ScoreLabel::PrettyGood => "PRETTY GOOD",
            ScoreLabel::DidOk => "YA DID OK",
            ScoreLabel::Asleep => "ARE YOU ASLEEP?",
        }
    }
}

} // verus!
