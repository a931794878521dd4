use wordle_art::render::{
    format_example, format_full, pool_weights, render_answer, render_pick, sampling_pool,
    unused_candidates, OutputFormat,
};
use wordle_art::text::{chars_of, same_word};

#[test]
fn full_lists_every_word_upper_case() {
    let answer = vec![vec!["about", "aahed"], vec![], vec!["alien"]];
    assert_eq!(format_full(&answer), "ABOUT AAHED\n\nALIEN");
    assert_eq!(render_answer(&answer, OutputFormat::Full), "ABOUT AAHED\n\nALIEN");
}

#[test]
fn weights_are_squares_from_the_end() {
    assert_eq!(pool_weights(3), vec![9, 4, 1]);
    assert_eq!(pool_weights(1), vec![1]);
    assert!(pool_weights(0).is_empty());
}

#[test]
fn empty_pool_gives_no_solution() {
    let answer: Vec<Vec<&str>> = vec![vec![], vec!["about"], vec![]];
    assert_eq!(format_example(&answer), "[no solution]\nABOUT\n[no solution]");
    let mut used = vec!["x"];
    assert_eq!(render_pick(&vec![], None, &mut used), "[no solution]");
    assert_eq!(used, vec!["x"]);
}

#[test]
fn pick_records_used_word() {
    let mut used: Vec<&str> = vec![];
    assert_eq!(render_pick(&vec!["about", "alien"], Some(1), &mut used), "ALIEN");
    assert_eq!(used, vec!["alien"]);
    assert_eq!(render_pick(&vec!["about"], Some(3), &mut used), "[no solution]");
    assert_eq!(used, vec!["alien"]);
}

#[test]
fn pool_prefers_unused_words() {
    let row = vec!["aa", "bb", "cc"];
    assert_eq!(unused_candidates(&row, &vec!["bb"]), vec!["aa", "cc"]);
    assert_eq!(sampling_pool(&row, &vec!["bb"]), vec!["aa", "cc"]);
    assert_eq!(sampling_pool(&row, &vec!["aa", "bb", "cc"]), row);
}

#[test]
fn no_word_repeats_while_another_is_free() {
    let answer = vec![vec!["aa", "bb"], vec!["aa", "bb"]];
    for _ in 0..50 {
        let out = format_example(&answer);
        assert!(out == "AA\nBB" || out == "BB\nAA", "{}", out);
    }
}

#[test]
fn repeat_only_when_forced() {
    let answer = vec![vec!["aa"], vec!["aa"], vec!["aa", "bb"]];
    assert_eq!(format_example(&answer), "AA\nAA\nBB");
}

#[test]
fn earlier_words_drawn_more_often() {
    // Weights 4 and 1: the first word should come up about four times in five.
    let answer = vec![vec!["aa", "bb"]];
    let mut first = 0;
    for _ in 0..4000 {
        if format_example(&answer) == "AA" {
            first += 1;
        }
    }
    assert!(first > 2800 && first < 3600, "{}", first);
}

#[test]
fn chars_and_word_equality() {
    assert_eq!(chars_of("abc"), vec!['a', 'b', 'c']);
    assert!(same_word("abc", "abc"));
    assert!(!same_word("abc", "abd"));
    assert!(!same_word("abc", "ab"));
}
