use wordle_art::pattern::{pattern_for_line, pattern_from_string};

const BLANK: [bool; 5] = [false; 5];

#[test]
fn line_marks_non_spaces() {
    assert_eq!(pattern_for_line("a b"), vec![true, false, true, false, false]);
    assert_eq!(pattern_for_line("A...."), vec![true, true, true, true, true]);
    assert_eq!(pattern_for_line(""), BLANK.to_vec());
}

#[test]
fn long_line_truncated() {
    assert_eq!(pattern_for_line("abcdefg"), vec![true; 5]);
    assert_eq!(pattern_for_line("     xx"), BLANK.to_vec());
}

#[test]
fn two_rows_are_padded() {
    let shape = pattern_from_string("x   x/ x x ");
    assert_eq!(shape.len(), 6);
    assert_eq!(shape[0], vec![true, false, false, false, true]);
    assert_eq!(shape[1], vec![false, true, false, true, false]);
    for row in &shape[2..] {
        assert_eq!(row, &BLANK.to_vec());
    }
}

#[test]
fn eight_rows_are_truncated() {
    let shape = pattern_from_string("x/ x/  x/   x/    x/xx/xxx/xxxx");
    assert_eq!(shape.len(), 6);
    assert_eq!(shape[0], vec![true, false, false, false, false]);
    assert_eq!(shape[4], vec![false, false, false, false, true]);
    assert_eq!(shape[5], vec![true, true, false, false, false]);
}

#[test]
fn newline_and_slash_are_equivalent() {
    assert_eq!(pattern_from_string("x x\n x x"), pattern_from_string("x x/ x x"));
    assert_eq!(pattern_from_string("x\n/x")[1], BLANK.to_vec());
}

#[test]
fn building_twice_gives_same_shape() {
    let text = "# # #\n # # /#####";
    assert_eq!(pattern_from_string(text), pattern_from_string(text));
}

#[test]
fn empty_text_is_all_blank() {
    let shape = pattern_from_string("");
    assert_eq!(shape, vec![BLANK.to_vec(); 6]);
}
