use wordle_art::matching::{does_match, find_answer, find_matches, is_valid_solution};
use wordle_art::pattern::pattern_from_string;

const ONLY_FIRST: [bool; 5] = [true, false, false, false, false];

#[test]
fn green_where_forbidden_rejects() {
    // The whole word is green, but only the first position may be.
    assert!(!does_match("speed", "speed", &ONLY_FIRST));
    assert!(!does_match("spxxx", "speed", &ONLY_FIRST));
}

#[test]
fn missing_green_rejects() {
    assert!(!does_match("xpeed", "speed", &[true, true, true, true, true]));
    assert!(!does_match("xxxxx", "speed", &ONLY_FIRST));
}

#[test]
fn all_green_matches_full_row() {
    assert!(does_match("speed", "speed", &[true, true, true, true, true]));
}

#[test]
fn repeated_letter_consumed_by_green() {
    // `s` occurs once in the solution and is consumed by the green at 0, so
    // the later `s`s cannot be yellow.
    assert!(does_match("sassy", "speed", &ONLY_FIRST));
    // The green at 2 is forbidden.
    assert!(!does_match("sneer", "speed", &ONLY_FIRST));
}

#[test]
fn unconsumed_letter_would_be_yellow() {
    // `e` occurs twice in the solution, at non-green positions: yellow.
    assert!(!does_match("sxexx", "speed", &ONLY_FIRST));
    assert!(!does_match("sxxxe", "speed", &ONLY_FIRST));
    // One `e` is green; the other is still unconsumed.
    assert!(!does_match("sxexe", "speed", &[true, false, true, false, false]));
    assert!(does_match("sxexx", "speed", &[true, false, true, false, false]));
}

#[test]
fn wrong_lengths_never_match() {
    assert!(!does_match("spee", "speed", &ONLY_FIRST));
    assert!(!does_match("speed", "spee", &ONLY_FIRST));
    assert!(!does_match("speed", "speed", &[true, true, true, true]));
}

#[test]
fn about_first_letter_scenario() {
    let dict = ["about", "aahed", "abbey", "adept", "azure", "alien", "other"];
    let row = pattern_from_string("A    ");
    let found = find_matches(&dict, "ABOUT", &row[0]);
    assert_eq!(found, vec!["aahed", "alien"]);
}

#[test]
fn solution_is_lowercased() {
    let dict = ["about", "other"];
    let all = [true, true, true, true, true];
    assert_eq!(find_matches(&dict, "AbOuT", &all), vec!["about"]);
}

#[test]
fn empty_dictionary_gives_empty_list() {
    let dict: [&str; 0] = [];
    assert!(find_matches(&dict, "about", &ONLY_FIRST).is_empty());
}

#[test]
fn candidates_keep_dictionary_order() {
    let dict = ["zzzzz", "yyyyy", "xxxxx", "about", "wwwww"];
    let none = [false; 5];
    assert_eq!(find_matches(&dict, "about", &none), vec!["zzzzz", "yyyyy", "xxxxx", "wwwww"]);
}

#[test]
fn answer_has_one_list_per_row() {
    let dict = ["about", "aahed", "alien", "zzzzz"];
    let shape = pattern_from_string("#####/#");
    let answer = find_answer(&dict, "about", &shape);
    assert_eq!(answer.len(), 6);
    assert_eq!(answer[0], vec!["about"]);
    assert_eq!(answer[1], vec!["aahed", "alien"]);
    for row in &answer[2..] {
        assert_eq!(row, &vec!["zzzzz"]);
    }
}

#[test]
fn row_order_does_not_change_lists() {
    let dict = ["about", "aahed", "alien", "zzzzz", "abbey"];
    let shape = pattern_from_string("#####/#/##");
    let mut reversed = shape.clone();
    reversed.reverse();
    let a = find_answer(&dict, "about", &shape);
    let b = find_answer(&dict, "about", &reversed);
    for k in 0..6 {
        assert_eq!(a[k], b[5 - k]);
    }
}

#[test]
fn solution_length_checked() {
    assert!(is_valid_solution("about"));
    assert!(!is_valid_solution("abou"));
    assert!(!is_valid_solution("abouts"));
    assert!(!is_valid_solution(""));
}
