//! Turns a picture, written as rows of marks, into a goal shape: a grid of
//! GUESS_COUNT rows of WORD_LENGTH booleans, true where a green is wanted.
use vstd::prelude::*;
use vstd::string::*;
use crate::text::chars_of;
use crate::{GUESS_COUNT, WORD_LENGTH};

verus! {

/// Characters that end a row of the picture.
pub open spec fn is_row_separator(c: char) -> bool {
    c == '/' || c == '\n'
}

/// The rows of the picture text, split at every separator; text without a
/// separator is one row, and the empty text is one empty row.
pub open spec fn split_rows(s: Seq<char>) -> Seq<Seq<char>>
    decreases s.len(),
{
    if s.len() == 0 {
        seq![Seq::empty()]
    } else {
        let p = split_rows(s.drop_last());
        if is_row_separator(s.last()) {
            p.push(Seq::empty())
        } else {
            p.update(p.len() - 1, p.last().push(s.last()))
        }
    }
}

/// A row with no green.
pub open spec fn blank_row() -> Seq<bool> {
    Seq::new(WORD_LENGTH as nat, |k: int| false)
}

/// Green wanted at each of the first WORD_LENGTH positions that holds a
/// character other than a space.
pub open spec fn row_for_line(line: Seq<char>) -> Seq<bool> {
    Seq::new(WORD_LENGTH as nat, |k: int| k < line.len() && line[k] != ' ')
}

/// The goal shape of a picture: its first GUESS_COUNT rows, padded with
/// blank rows.
pub open spec fn goal_shape(s: Seq<char>) -> Seq<Seq<bool>> {
    Seq::new(
        GUESS_COUNT as nat,
        |r: int|
            if r < split_rows(s).len() {
                row_for_line(split_rows(s)[r])
            } else {
                blank_row()
            },
    )
}

/// The goal row of one line of the picture.
pub fn pattern_for_line(line: &str) -> (r: Vec<bool>)
    ensures
        r@ == row_for_line(line@),
{
    let n = line.unicode_len();
    let mut r: Vec<bool> = Vec::new();
    let mut k: usize = 0;
    while k < WORD_LENGTH
        invariant
            n == line@.len(),
            k <= WORD_LENGTH,
            r@.len() == k,
            forall|j: int| 0 <= j < k ==> r@[j] == (j < line@.len() && line@[j] != ' '),
        decreases WORD_LENGTH - k,
    {
        if k < n {
            r.push(line.get_char(k) != ' ');
        } else {
            r.push(false);
        }
        k += 1;
    }
    assert(r@ =~= row_for_line(line@));
    r
}

/// The goal shape of a picture whose rows are separated by `/` or line
/// breaks.
pub fn pattern_from_string(string: &str) -> (r: Vec<Vec<bool>>)
    ensures
        r@.len() == GUESS_COUNT,
        forall|i: int| 0 <= i < r@.len() ==> r@[i]@ == goal_shape(string@)[i],
{
    let chars = chars_of(string);
    let n = chars.len();
    let mut r: Vec<Vec<bool>> = Vec::new();
    let ghost mut done: Seq<Seq<char>> = Seq::empty();
    let mut start: usize = 0;
    let mut i: usize = 0;
    assert(chars@.subrange(0, 0) =~= Seq::<char>::empty());
    assert(split_rows(chars@.subrange(0, 0)) =~= done.push(chars@.subrange(0, 0)));
    while i < n
        invariant
            chars@ == string@,
            n == chars@.len(),
            start <= i <= n,
            split_rows(chars@.subrange(0, i as int)) == done.push(
                chars@.subrange(start as int, i as int),
            ),
            r@.len() <= GUESS_COUNT,
            r@.len() == GUESS_COUNT || r@.len() == done.len(),
            r@.len() <= done.len(),
            forall|k: int| 0 <= k < r@.len() ==> r@[k]@ == row_for_line(done[k]),
        decreases n - i,
    {
        let c = chars[i];
        let ghost pre = chars@.subrange(0, i as int);
        assert(chars@.subrange(0, i + 1).drop_last() =~= pre);
        assert(chars@.subrange(0, i + 1).last() == c);
        if c == '/' || c == '\n' {
            if r.len() < GUESS_COUNT {
                r.push(pattern_for_line(string.substring_char(start, i)));
            }
            proof {
                done = done.push(chars@.subrange(start as int, i as int));
            }
            assert(chars@.subrange(i + 1, i + 1) =~= Seq::<char>::empty());
            assert(split_rows(chars@.subrange(0, i + 1)) =~= done.push(
                chars@.subrange(i + 1, i + 1),
            ));
            start = i + 1;
        } else {
            assert(chars@.subrange(start as int, i + 1) =~= chars@.subrange(
                start as int,
                i as int,
            ).push(c));
            assert(split_rows(chars@.subrange(0, i + 1)) =~= done.push(
                chars@.subrange(start as int, i + 1),
            ));
        }
        i += 1;
    }
    assert(chars@.subrange(0, n as int) =~= string@);
    if r.len() < GUESS_COUNT {
        r.push(pattern_for_line(string.substring_char(start, n)));
    }
    let ghost rows = split_rows(string@);
    assert(rows.len() == done.len() + 1);
    assert(forall|k: int| 0 <= k < r@.len() ==> r@[k]@ == row_for_line(rows[k]));
    assert(r@.len() == GUESS_COUNT || r@.len() == rows.len());
    while r.len() < GUESS_COUNT
        invariant
            r@.len() <= GUESS_COUNT,
            r@.len() == GUESS_COUNT || r@.len() >= rows.len(),
            forall|k: int| 0 <= k < r@.len() && k < rows.len() ==> r@[k]@ == row_for_line(rows[k]),
            forall|k: int| 0 <= k < r@.len() && k >= rows.len() ==> r@[k]@ == blank_row(),
        decreases GUESS_COUNT - r@.len(),
    {
        let blank = pattern_for_line("");
        proof {
            reveal_strlit("");
            assert(blank@ =~= blank_row());
        }
        r.push(blank);
    }
    r
}

/// Building the goal shape is a pure function of the picture's characters:
/// two texts with the same characters give the same shape.
pub proof fn lemma_goal_shape_deterministic(a: Seq<char>, b: Seq<char>)
    requires
        a == b,
    ensures
        goal_shape(a) == goal_shape(b),
{
}

/// A picture with fewer rows than GUESS_COUNT still gives GUESS_COUNT rows:
/// its own rows first, then rows with no green.
pub proof fn lemma_short_picture_padded(s: Seq<char>)
    requires
        split_rows(s).len() < GUESS_COUNT,
    ensures
        goal_shape(s).len() == GUESS_COUNT,
        forall|r: int|
            0 <= r < split_rows(s).len() ==> #[trigger] goal_shape(s)[r] == row_for_line(
                split_rows(s)[r],
            ),
        forall|r: int|
            split_rows(s).len() <= r < GUESS_COUNT ==> #[trigger] goal_shape(s)[r] == blank_row(),
{
}

/// A picture with more rows than GUESS_COUNT keeps only its first
/// GUESS_COUNT rows: any two such pictures that agree on those rows give the
/// same shape, whatever follows.
pub proof fn lemma_long_picture_truncated(s: Seq<char>, t: Seq<char>)
    requires
        split_rows(s).len() >= GUESS_COUNT,
        split_rows(t).len() >= GUESS_COUNT,
        forall|r: int| 0 <= r < GUESS_COUNT ==> #[trigger] split_rows(s)[r] == split_rows(t)[r],
    ensures
        goal_shape(s).len() == GUESS_COUNT,
        forall|r: int|
            0 <= r < GUESS_COUNT ==> #[trigger] goal_shape(s)[r] == row_for_line(split_rows(s)[r]),
        goal_shape(s) == goal_shape(t),
{
    assert(goal_shape(s) =~= goal_shape(t));
}

} // verus!
