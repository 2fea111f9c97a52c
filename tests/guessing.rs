use word_count::guess::{
    answer_from_folded, guess_from_trimmed, input_bool_answer, judge, parse_guess, prompt_text, Round, Verdict,
    HIGHEST, LOWEST,
};

#[test]
fn judge_compares_with_secret() {
    assert_eq!(judge(50, 50), Verdict::Correct);
    assert_eq!(judge(70, 50), Verdict::TooHigh);
    assert_eq!(judge(20, 50), Verdict::TooLow);
}

#[test]
fn parse_guess_accepts_numbers_in_range() {
    assert_eq!(parse_guess("  42\n"), Some(42));
    assert_eq!(parse_guess("1"), Some(1));
    assert_eq!(parse_guess("+100"), Some(100));
    assert_eq!(parse_guess("0"), None);
    assert_eq!(parse_guess("101"), None);
    assert_eq!(parse_guess("-5"), None);
    assert_eq!(parse_guess("abc"), None);
    assert_eq!(parse_guess(""), None);
    assert_eq!(parse_guess("99999999999"), None);
    assert_eq!(guess_from_trimmed(" 7"), None);
    assert_eq!(guess_from_trimmed("7"), Some(7));
}

#[test]
fn yes_no_answers() {
    assert!(input_bool_answer("\n", true));
    assert!(!input_bool_answer("\n", false));
    assert!(input_bool_answer(" Y \n", false));
    assert!(input_bool_answer("y", false));
    assert!(!input_bool_answer("n", true));
    assert!(!input_bool_answer("yes", true));
    assert!(answer_from_folded("y", false));
    assert!(!answer_from_folded("Y", false));
    assert!(answer_from_folded("", true));
}

#[test]
fn prompts_show_default() {
    assert_eq!(prompt_text("Again?", true), "Again? (Y/n): ");
    assert_eq!(prompt_text("Again?", false), "Again? (y/N): ");
}

#[test]
fn rounds_count_guesses() {
    let mut r = Round::new(30);
    assert_eq!(r.submit(40), Verdict::TooHigh);
    assert_eq!(r.submit(10), Verdict::TooLow);
    assert_eq!(r.submit(30), Verdict::Correct);
    assert_eq!(r.guesses, 3);
    for _ in 0..50 {
        let s = Round::start();
        assert!(LOWEST <= s.secret && s.secret <= HIGHEST);
        assert_eq!(s.guesses, 0);
    }
}
