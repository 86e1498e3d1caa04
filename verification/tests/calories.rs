use advent_puzzles::calories::find_max_calories;
use advent_puzzles::calories::top_3_calories_total;

const EXAMPLE_INPUT: &str = "1000
2000
3000

4000

5000
6000

7000
8000
9000

10000";

#[test]
fn find_max_works() {
    assert_eq!(find_max_calories(EXAMPLE_INPUT), 24_000);
}

#[test]
fn top_3_works() {
    assert_eq!(top_3_calories_total(EXAMPLE_INPUT), 45_000);
}

#[test]
fn empty_input_yields_zero() {
    assert_eq!(find_max_calories(""), 0);
    assert_eq!(top_3_calories_total(""), 0);
}

#[test]
fn bad_tokens_are_skipped() {
    assert_eq!(find_max_calories("1 x 2\n\nfoo"), 3);
    assert_eq!(top_3_calories_total("12 oops 3\n\n4"), 19);
}

#[test]
fn plus_sign_parses() {
    assert_eq!(find_max_calories("+5"), 5);
}

#[test]
fn overflowing_tokens_are_skipped() {
    assert_eq!(find_max_calories("4294967296"), 0);
    assert_eq!(find_max_calories("4294967295"), 4_294_967_295);
}

#[test]
fn fewer_than_three_groups() {
    assert_eq!(top_3_calories_total("1\n\n2"), 3);
}

#[test]
fn lone_newline_stays_in_block() {
    assert_eq!(find_max_calories("1\n\n\n2"), 2);
    assert_eq!(top_3_calories_total("1\n\n\n2"), 3);
}

#[test]
fn tabs_separate_tokens() {
    assert_eq!(find_max_calories("1\t2 3"), 6);
}
