use rust_exercises::guessing_game::{
    judge_guess, new_secret_number, parse_guess, GuessHint, SECRET_HIGH, SECRET_LOW,
};

#[test]
fn secret_number_is_in_range() {
    for _ in 0..1000 {
        let n = new_secret_number();
        assert!(SECRET_LOW <= n && n <= SECRET_HIGH);
    }
}

#[test]
fn guesses_are_judged() {
    assert_eq!(judge_guess(50, 50), GuessHint::Correct);
    assert_eq!(judge_guess(50, 49), GuessHint::TooLow);
    assert_eq!(judge_guess(50, 51), GuessHint::TooHigh);
}

#[test]
fn guesses_are_read_from_a_line() {
    assert_eq!(parse_guess(" 42\n"), Some(42));
    assert_eq!(parse_guess("-7"), Some(-7));
    assert_eq!(parse_guess("+7"), Some(7));
    assert_eq!(parse_guess("2147483648"), None);
    assert_eq!(parse_guess("-2147483648"), Some(i32::MIN));
    assert_eq!(parse_guess("seven"), None);
    assert_eq!(parse_guess(""), None);
    assert_eq!(parse_guess("-"), None);
}
