//! Scoring rounds of a rock-paper-scissors game.
//!
//! A line of input names the opponent's shape (`A`, `B`, `C`) and the desired
//! outcome (`X`, `Y`, `Z`). The score of a round is the score of the outcome
//! plus the score of the shape one has to play to reach that outcome.

use vstd::prelude::*;

use crate::split::Sep;
use crate::split::next_token;
use crate::split::split_tokens;
use vstd::string::StrSliceExecFns;

verus! {

/// The outcome of a round, from the player's own point of view.
#[derive(Debug, Clone, Copy, PartialEq, Eq, Structural)]
pub enum Outcome {
    Loss,
    Draw,
    Win,
}

/// The score an outcome is worth.
pub open spec fn outcome_score(o: Outcome) -> nat {
    match o {
        Outcome::Loss => 0,
        Outcome::Draw => 3,
        Outcome::Win => 6,
    }
}

impl Outcome {
    pub fn is_loss(&self) -> (r: bool)
        ensures
            r == (*self == Outcome::Loss),
    {
        *self == Outcome::Loss
    }

    pub fn is_draw(&self) -> (r: bool)
        ensures
            r == (*self == Outcome::Draw),
    {
        *self == Outcome::Draw
    }

    pub fn is_win(&self) -> (r: bool)
        ensures
            r == (*self == Outcome::Win),
    {
        *self == Outcome::Win
    }

    /// The score this outcome is worth: 0 for a loss, 3 for a draw, 6 for a
    /// win.
    pub fn score(&self) -> (s: u32)
        ensures
            s as nat == outcome_score(*self),
    {
        match *self {
            Outcome::Loss => 0,
            Outcome::Draw => 3,
            Outcome::Win => 6,
        }
    }
}

/// A shape one can play.
#[derive(Debug, Clone, Copy, PartialEq, Eq, Structural)]
pub enum Shape {
    Rock,
    Paper,
    Scissors,
}

/// The score a shape is worth.
pub open spec fn shape_score(s: Shape) -> nat {
    match s {
        Shape::Rock => 1,
        Shape::Paper => 2,
        Shape::Scissors => 3,
    }
}

/// Whether shape `a` beats shape `b`: the three cyclic beating pairs.
pub open spec fn beats(a: Shape, b: Shape) -> bool {
    ||| (a == Shape::Scissors && b == Shape::Paper)
    ||| (a == Shape::Paper && b == Shape::Rock)
    ||| (a == Shape::Rock && b == Shape::Scissors)
}

/// The outcome of playing `a` against `b`, for the side playing `a`.
pub open spec fn play_outcome(a: Shape, b: Shape) -> Outcome {
    if a == b {
        Outcome::Draw
    } else if beats(a, b) {
        Outcome::Win
    } else {
        Outcome::Loss
    }
}

impl Shape {
    /// Plays `self` against `other`, determining whether `self` wins.
    pub fn play_against(self, other: Shape) -> (r: Outcome)
        ensures
            r == play_outcome(self, other),
    {
        if self == other {
            return Outcome::Draw;
        }
        match (self, other) {
            (Shape::Scissors, Shape::Paper) => Outcome::Win,
            (Shape::Paper, Shape::Rock) => Outcome::Win,
            (Shape::Rock, Shape::Scissors) => Outcome::Win,
            _ => Outcome::Loss,
        }
    }

    /// The score this shape is worth: 1 for rock, 2 for paper, 3 for
    /// scissors.
    pub fn score(&self) -> (s: u32)
        ensures
            s as nat == shape_score(*self),
    {
        match *self {
            Shape::Rock => 1,
            Shape::Paper => 2,
            Shape::Scissors => 3,
        }
    }
}

/// The shape one has to play against `opp` so that the round ends in `resp`:
/// for a loss the shape `opp` beats, for a draw `opp` itself, for a win the
/// shape that beats `opp`.
pub open spec fn response_shape(opp: Shape, resp: Outcome) -> Shape {
    match resp {
        Outcome::Loss => match opp {
            Shape::Rock => Shape::Scissors,
            Shape::Paper => Shape::Rock,
            Shape::Scissors => Shape::Paper,
        },
        Outcome::Draw => opp,
        Outcome::Win => match opp {
            Shape::Rock => Shape::Paper,
            Shape::Paper => Shape::Scissors,
            Shape::Scissors => Shape::Rock,
        },
    }
}

/// The shape chosen for a desired outcome indeed reaches that outcome when
/// played against the opponent.
pub proof fn lemma_response_shape_reaches(opp: Shape, resp: Outcome)
    ensures
        play_outcome(response_shape(opp, resp), opp) == resp,
{
}

/// One round: the opponent's shape and the outcome the round must reach.
#[derive(Debug, Clone, Copy, PartialEq, Eq, Structural)]
pub struct Round {
    pub opponent_play: Shape,
    pub response: Outcome,
}

/// The score of a round: the outcome's score plus the score of the shape
/// played to reach it.
pub open spec fn round_score(r: Round) -> nat {
    outcome_score(r.response) + shape_score(response_shape(r.opponent_play, r.response))
}

impl Round {
    pub fn new(opponent_play: Shape, response: Outcome) -> (r: Self)
        ensures
            r == (Round { opponent_play, response }),
    {
        Self { opponent_play, response }
    }

    /// Derives the player's own shape from the desired outcome, then scores
    /// the round.
    pub fn calc_score(&self) -> (s: u32)
        ensures
            s as nat == round_score(*self),
    {
        let my_play = match self.response {
            Outcome::Loss => match self.opponent_play {
                Shape::Rock => Shape::Scissors,
                Shape::Paper => Shape::Rock,
                Shape::Scissors => Shape::Paper,
            },
            Outcome::Draw => self.opponent_play,
            Outcome::Win => match self.opponent_play {
                Shape::Rock => Shape::Paper,
                Shape::Paper => Shape::Scissors,
                Shape::Scissors => Shape::Rock,
            },
        };
        my_play.play_against(self.opponent_play).score() + my_play.score()
    }
}

/// Why a line failed to parse: a required letter was absent (0 for the
/// opponent letter, 1 for the response letter), or a token matched no rule
/// table entry (the offending token is carried along).
#[derive(Debug)]
pub enum RoundParseError {
    MissingLetter(usize),
    UnexpectedInput(String),
}

/// The shape a token names: `A`, `B` or `C`.
pub open spec fn shape_of_token(t: Seq<char>) -> Option<Shape> {
    if t =~= seq!['A'] {
        Some(Shape::Rock)
    } else if t =~= seq!['B'] {
        Some(Shape::Paper)
    } else if t =~= seq!['C'] {
        Some(Shape::Scissors)
    } else {
        None
    }
}

/// The outcome a token names: `X`, `Y` or `Z`.
pub open spec fn outcome_of_token(t: Seq<char>) -> Option<Outcome> {
    if t =~= seq!['X'] {
        Some(Outcome::Loss)
    } else if t =~= seq!['Y'] {
        Some(Outcome::Draw)
    } else if t =~= seq!['Z'] {
        Some(Outcome::Win)
    } else {
        None
    }
}

/// The space-separated tokens of one input line.
pub open spec fn line_tokens(line: Seq<char>) -> Seq<Seq<char>> {
    split_tokens(Sep::Space, line)
}

/// The round a line describes, when its first token names a shape and its
/// second an outcome; tokens past the second are ignored.
pub open spec fn line_round(line: Seq<char>) -> Option<Round> {
    let toks = line_tokens(line);
    if toks.len() >= 2 && shape_of_token(toks[0]) is Some && outcome_of_token(toks[1]) is Some {
        Some(
            Round {
                opponent_play: shape_of_token(toks[0]).unwrap(),
                response: outcome_of_token(toks[1]).unwrap(),
            },
        )
    } else {
        None
    }
}

/// The error that parsing `line` reports: the position of the first absent
/// letter, or the first token that matches no table entry.
pub open spec fn line_error_matches(line: Seq<char>, e: RoundParseError) -> bool {
    let toks = line_tokens(line);
    match e {
        RoundParseError::MissingLetter(pos) => {
            ||| (pos == 0 && toks.len() == 0)
            ||| (pos == 1 && toks.len() == 1 && shape_of_token(toks[0]) is Some)
        },
        RoundParseError::UnexpectedInput(t) => {
            ||| (toks.len() >= 1 && shape_of_token(toks[0]) is None && t@ == toks[0])
            ||| (toks.len() >= 2 && shape_of_token(toks[0]) is Some && outcome_of_token(toks[1])
                is None && t@ == toks[1])
        },
    }
}

/// Matches a token against the shape table.
fn shape_token(tok: &str) -> (r: Option<Shape>)
    ensures
        r == shape_of_token(tok@),
{
    if tok.unicode_len() == 1 {
        let c = tok.get_char(0);
        proof {
            assert(tok@ =~= seq![tok@[0]]);
        }
        if c == 'A' {
            return Some(Shape::Rock);
        }
        if c == 'B' {
            return Some(Shape::Paper);
        }
        if c == 'C' {
            return Some(Shape::Scissors);
        }
        None
    } else {
        None
    }
}

/// Matches a token against the outcome table.
fn outcome_token(tok: &str) -> (r: Option<Outcome>)
    ensures
        r == outcome_of_token(tok@),
{
    if tok.unicode_len() == 1 {
        let c = tok.get_char(0);
        proof {
            assert(tok@ =~= seq![tok@[0]]);
        }
        if c == 'X' {
            return Some(Outcome::Loss);
        }
        if c == 'Y' {
            return Some(Outcome::Draw);
        }
        if c == 'Z' {
            return Some(Outcome::Win);
        }
        None
    } else {
        None
    }
}

impl Round {
    /// Parses one line: the first space-separated token must name a shape,
    /// the second an outcome. Reports the first absent or unrecognized
    /// token.
    pub fn parse(s: &str) -> (r: Result<Round, RoundParseError>)
        ensures
            match r {
                Ok(round) => line_round(s@) == Some(round),
                Err(e) => line_round(s@) is None && line_error_matches(s@, e),
            },
    {
        let first = next_token(Sep::Space, s);
        let (tok, rest) = match first {
            None => {
                return Err(RoundParseError::MissingLetter(0));
            },
            Some(pair) => pair,
        };
        let shape = match shape_token(tok) {
            Some(shape) => shape,
            None => {
                return Err(RoundParseError::UnexpectedInput(tok.to_owned()));
            },
        };
        let second = next_token(Sep::Space, rest);
        let tok2 = match second {
            None => {
                return Err(RoundParseError::MissingLetter(1));
            },
            Some(pair) => pair.0,
        };
        let outcome = match outcome_token(tok2) {
            Some(outcome) => outcome,
            None => {
                return Err(RoundParseError::UnexpectedInput(tok2.to_owned()));
            },
        };
        Ok(Round { opponent_play: shape, response: outcome })
    }
}

impl core::str::FromStr for Round {
    type Err = RoundParseError;

    fn from_str(s: &str) -> Result<Self, Self::Err> {
        Round::parse(s)
    }
}

/// The total score of a sequence of rounds.
pub open spec fn total_score(rs: Seq<Round>) -> nat
    decreases rs.len(),
{
    if rs.len() == 0 {
        0
    } else {
        total_score(rs.drop_last()) + round_score(rs.last())
    }
}

/// A prefix of a round sequence scores no more than the whole.
pub proof fn lemma_total_score_prefix(rs: Seq<Round>, i: int)
    requires
        0 <= i <= rs.len(),
    ensures
        total_score(rs.take(i)) <= total_score(rs),
    decreases rs.len() - i,
{
    if i < rs.len() {
        assert(rs.take(i + 1).drop_last() =~= rs.take(i));
        lemma_total_score_prefix(rs, i + 1);
    } else {
        assert(rs.take(i) =~= rs);
    }
}

/// The non-empty lines of the input text, in order.
pub open spec fn input_lines(s: Seq<char>) -> Seq<Seq<char>> {
    split_tokens(Sep::Newline, s)
}

/// Parses every non-empty line of `input` as a round; the whole operation
/// fails with the error of the first line that fails to parse.
pub fn parse_input(input: &str) -> (r: Result<Vec<Round>, RoundParseError>)
    ensures
        match r {
            Ok(v) => {
                &&& v@.len() == input_lines(input@).len()
                &&& forall|i: int|
                    0 <= i < v@.len() ==> line_round(#[trigger] input_lines(input@)[i]) == Some(
                        v@[i],
                    )
            },
            Err(e) => exists|k: int|
                {
                    &&& 0 <= k < input_lines(input@).len()
                    &&& line_round(#[trigger] input_lines(input@)[k]) is None
                    &&& line_error_matches(input_lines(input@)[k], e)
                    &&& forall|j: int|
                        0 <= j < k ==> line_round(#[trigger] input_lines(input@)[j]) is Some
                },
        },
{
    let mut rounds: Vec<Round> = Vec::new();
    let mut cur: &str = input;
    loop
        invariant
            rounds@.len() + split_tokens(Sep::Newline, cur@).len() == input_lines(input@).len(),
            forall|i: int|
                0 <= i < rounds@.len() ==> line_round(#[trigger] input_lines(input@)[i]) == Some(
                    rounds@[i],
                ),
            forall|i: int|
                0 <= i < split_tokens(Sep::Newline, cur@).len() ==> #[trigger] split_tokens(
                    Sep::Newline,
                    cur@,
                )[i] == input_lines(input@)[rounds@.len() + i],
        decreases split_tokens(Sep::Newline, cur@).len(),
    {
        match next_token(Sep::Newline, cur) {
            None => {
                return Ok(rounds);
            },
            Some(pair) => {
                let (line, rest) = pair;
                match Round::parse(line) {
                    Ok(round) => {
                        proof {
                            assert(split_tokens(Sep::Newline, cur@)[0] == line@);
                        }
                        rounds.push(round);
                        cur = rest;
                    },
                    Err(e) => {
                        proof {
                            let k = rounds@.len() as int;
                            assert(split_tokens(Sep::Newline, cur@)[0] == line@);
                            assert(input_lines(input@)[k] == line@);
                            assert({
                                &&& 0 <= k < input_lines(input@).len()
                                &&& line_round(input_lines(input@)[k]) is None
                                &&& line_error_matches(input_lines(input@)[k], e)
                                &&& forall|j: int|
                                    0 <= j < k ==> line_round(
                                        #[trigger] input_lines(input@)[j],
                                    ) is Some
                            });
                        }
                        return Err(e);
                    },
                }
            },
        }
    }
}

/// An ordered collection of parsed rounds.
pub struct Rounds(pub Vec<Round>);

impl View for Rounds {
    type V = Seq<Round>;

    open spec fn view(&self) -> Seq<Round> {
        self.0@
    }
}

impl Rounds {
    /// An iterator over the rounds, in input order.
    pub fn iter(&self) -> (it: std::slice::Iter<'_, Round>)
        ensures
            vstd::std_specs::slice::into_iter_elts(it) == self@,
    {
        let s = self.0.as_slice();
        let it = s.iter();
        proof {
            broadcast use vstd::std_specs::slice::axiom_spec_slice_iter;

            assert(vstd::std_specs::slice::into_iter_elts(it) =~= self@);
        }
        it
    }

    /// Evaluates all rounds and sums their scores.
    pub fn evaluate_all(&self) -> (total: u32)
        requires
            total_score(self@) <= u32::MAX as nat,
        ensures
            total as nat == total_score(self@),
    {
        let mut total: u32 = 0;
        let mut i: usize = 0;
        while i < self.0.len()
            invariant
                i <= self@.len(),
                total as nat == total_score(self@.take(i as int)),
                total_score(self@) <= u32::MAX as nat,
            decreases self@.len() - i,
        {
            let sc = self.0[i].calc_score();
            proof {
                assert(self@.take(i as int + 1).drop_last() =~= self@.take(i as int));
                lemma_total_score_prefix(self@, i as int + 1);
            }
            total = total + sc;
            i = i + 1;
        }
        proof {
            assert(self@.take(self@.len() as int) =~= self@);
        }
        total
    }
}

impl core::str::FromStr for Rounds {
    type Err = RoundParseError;

    fn from_str(s: &str) -> Result<Self, Self::Err> {
        match parse_input(s) {
            Ok(vec) => Ok(Rounds(vec)),
            Err(e) => Err(e),
        }
    }
}

} // verus!
