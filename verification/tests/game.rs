use advent_puzzles::game::Outcome;
use advent_puzzles::game::Round;
use advent_puzzles::game::RoundParseError;
use advent_puzzles::game::Rounds;
use advent_puzzles::game::Shape;

const EXAMPLE_INPUT: &str = "A Y
B X
C Z";

#[test]
fn basic_rules() {
    assert!(Shape::Rock.play_against(Shape::Rock).is_draw());
    assert!(Shape::Rock.play_against(Shape::Paper).is_loss());
    assert!(Shape::Rock.play_against(Shape::Scissors).is_win());

    assert!(Shape::Paper.play_against(Shape::Rock).is_win());
    assert!(Shape::Paper.play_against(Shape::Paper).is_draw());
    assert!(Shape::Paper.play_against(Shape::Scissors).is_loss());

    assert!(Shape::Scissors.play_against(Shape::Rock).is_loss());
    assert!(Shape::Scissors.play_against(Shape::Paper).is_win());
    assert!(Shape::Scissors.play_against(Shape::Scissors).is_draw());
}

#[test]
fn round_evaluation() {
    assert_eq!(Round::new(Shape::Rock, Outcome::Draw).calc_score(), 4);
    assert_eq!(Round::new(Shape::Paper, Outcome::Loss).calc_score(), 1);
    assert_eq!(Round::new(Shape::Scissors, Outcome::Win).calc_score(), 7);

    assert_eq!(EXAMPLE_INPUT.parse::<Rounds>().unwrap().evaluate_all(), 12);
}

#[test]
fn round_parsing() {
    assert_eq!(
        "A Y".parse::<Round>().unwrap(),
        Round::new(Shape::Rock, Outcome::Draw)
    );
    assert_eq!(
        "B X".parse::<Round>().unwrap(),
        Round::new(Shape::Paper, Outcome::Loss)
    );
    assert_eq!(
        "C Z".parse::<Round>().unwrap(),
        Round::new(Shape::Scissors, Outcome::Win)
    );

    // These asserts are a bit complicated because of how matches!
    // doesn't really work with strings
    let error = "a blub".parse::<Round>().unwrap_err();
    let RoundParseError::UnexpectedInput(s) = error else {
        panic!("unexpected kind of error: {:?}", error)
    };
    assert_eq!(s, "a");
    let error = "B blub".parse::<Round>().unwrap_err();
    let RoundParseError::UnexpectedInput(s) = error else {
        panic!("unexpected kind of error: {:?}", error)
    };
    assert_eq!(s, "blub");

    // these are much better
    assert!(matches!(
        "".parse::<Round>(),
        Err(RoundParseError::MissingLetter(0))
    ));
    assert!(matches!(
        "B".parse::<Round>(),
        Err(RoundParseError::MissingLetter(1))
    ));

    // make sure the entire example input gets parsed correctly
    let rounds = EXAMPLE_INPUT
        .parse::<Rounds>()
        .expect("example input should parse");
    let mut rounds_iter = rounds.iter();
    let round1 = rounds_iter.next().expect("should have first round");
    assert_eq!(round1, &Round::new(Shape::Rock, Outcome::Draw));
    let round2 = rounds_iter.next().expect("should have second round");
    assert_eq!(round2, &Round::new(Shape::Paper, Outcome::Loss));
    let round3 = rounds_iter.next().expect("should have third round");
    assert_eq!(round3, &Round::new(Shape::Scissors, Outcome::Win));
    assert_eq!(rounds_iter.next(), None, "should only have three rounds");
}

#[test]
fn scores_by_table() {
    assert_eq!(Outcome::Loss.score(), 0);
    assert_eq!(Outcome::Draw.score(), 3);
    assert_eq!(Outcome::Win.score(), 6);
    assert_eq!(Shape::Rock.score(), 1);
    assert_eq!(Shape::Paper.score(), 2);
    assert_eq!(Shape::Scissors.score(), 3);
}

#[test]
fn total_is_sum_of_round_scores() {
    let rounds = EXAMPLE_INPUT.parse::<Rounds>().unwrap();
    let mut by_hand: u32 = 0;
    for round in rounds.iter() {
        by_hand += round.calc_score();
    }
    assert_eq!(rounds.evaluate_all(), by_hand);
    assert_eq!(by_hand, 4 + 1 + 7);
}

#[test]
fn tokens_past_the_second_are_ignored() {
    assert_eq!(
        "A Y Z".parse::<Round>().unwrap(),
        Round::new(Shape::Rock, Outcome::Draw)
    );
}

#[test]
fn repeated_spaces_are_dropped() {
    assert_eq!(
        "A   Y".parse::<Round>().unwrap(),
        Round::new(Shape::Rock, Outcome::Draw)
    );
}

#[test]
fn long_first_token_is_reported() {
    let error = "AB X".parse::<Round>().unwrap_err();
    let RoundParseError::UnexpectedInput(s) = error else {
        panic!("unexpected kind of error: {:?}", error)
    };
    assert_eq!(s, "AB");
}

#[test]
fn blank_line_is_missing_first_letter() {
    assert!(matches!(
        "   ".parse::<Round>(),
        Err(RoundParseError::MissingLetter(0))
    ));
}

#[test]
fn empty_lines_are_skipped() {
    let rounds = "A Y\n\nB X\n".parse::<Rounds>().unwrap();
    assert_eq!(rounds.evaluate_all(), 5);
}

#[test]
fn parsing_fails_on_first_bad_line() {
    let error = match "A Y\nq Z\nB nope".parse::<Rounds>() {
        Ok(_) => panic!("a bad line should not parse"),
        Err(e) => e,
    };
    let RoundParseError::UnexpectedInput(s) = error else {
        panic!("unexpected kind of error: {:?}", error)
    };
    assert_eq!(s, "q");
}
