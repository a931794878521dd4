//! The feedback predicate: does a guess, scored against the solution under
//! Wordle's rules, light up exactly the greens that a goal row asks for?
use vstd::prelude::*;
use vstd::string::*;
use crate::text::{chars_of, lower_of, lowercase};
use crate::WORD_LENGTH;
use rayon::iter::{IntoParallelRefIterator, ParallelIterator};

verus! {

/// Every position is green exactly where the goal row asks for green.
pub open spec fn greens_agree(c: Seq<char>, s: Seq<char>, g: Seq<bool>) -> bool {
    forall|i: int| 0 <= i < g.len() ==> (c[i] == s[i]) == g[i]
}

/// No non-green position shows a letter that an unconsumed occurrence of
/// the solution could justify as yellow. Once the greens agree with `g`, the
/// occurrences that greens leave unconsumed are those at the non-green
/// positions of `g`.
pub open spec fn no_yellow(c: Seq<char>, s: Seq<char>, g: Seq<bool>) -> bool {
    forall|i: int, j: int|
        0 <= i < g.len() && 0 <= j < g.len() && !g[i] && !g[j] ==> c[i] != s[j]
}

/// Guess `c` against solution `s` renders the green layout `g`, with every
/// non-green position grey (neither green nor eligible for yellow).
pub open spec fn matches(c: Seq<char>, s: Seq<char>, g: Seq<bool>) -> bool {
    &&& c.len() == g.len()
    &&& s.len() == g.len()
    &&& greens_agree(c, s, g)
    &&& no_yellow(c, s, g)
}

/// Decides `matches` for a guess, a solution and a goal row. Words of a length
/// other than the goal row's never match.
///
/// The solution's letters are tracked occurrence by occurrence: a green
/// consumes its occurrence, and a non-green position fails if any occurrence
/// that is still unconsumed holds its letter, so a repeated letter justifies
/// at most as many green-or-yellow positions as it occurs in the solution.
pub fn does_match(test_word: &str, solution: &str, goal_row: &[bool]) -> (r: bool)
    ensures
        r == matches(test_word@, solution@, goal_row@),
{
    let n = goal_row.len();
    if test_word.unicode_len() != n || solution.unicode_len() != n {
        return false;
    }
    let c = chars_of(test_word);
    let s = chars_of(solution);
    let mut unused: Vec<bool> = Vec::new();
    let mut k: usize = 0;
    while k < n
        invariant
            k <= n,
            unused@.len() == k,
            forall|j: int| 0 <= j < k ==> unused@[j],
        decreases n - k,
    {
        unused.push(true);
        k += 1;
    }
    let mut i: usize = 0;
    while i < n
        invariant
            n == goal_row@.len(),
            c@ == test_word@,
            s@ == solution@,
            c@.len() == n,
            s@.len() == n,
            i <= n,
            unused@.len() == n,
            forall|j: int| 0 <= j < i ==> (c@[j] == s@[j]) == goal_row@[j],
            forall|j: int| 0 <= j < i ==> unused@[j] == !goal_row@[j],
            forall|j: int| i <= j < n ==> unused@[j],
        decreases n - i,
    {
        let green = c[i] == s[i];
        if green != goal_row[i] {
            return false;
        }
        if green {
            unused.set(i, false);
        }
        i += 1;
    }
    let mut i: usize = 0;
    while i < n
        invariant
            n == goal_row@.len(),
            c@ == test_word@,
            s@ == solution@,
            c@.len() == n,
            s@.len() == n,
            i <= n,
            unused@.len() == n,
            greens_agree(c@, s@, goal_row@),
            forall|j: int| 0 <= j < n ==> unused@[j] == !goal_row@[j],
            forall|a: int, b: int|
                0 <= a < i && 0 <= b < n && !goal_row@[a] && !goal_row@[b] ==> c@[a] != s@[b],
        decreases n - i,
    {
        if !goal_row[i] {
            let mut j: usize = 0;
            while j < n
                invariant
                    n == goal_row@.len(),
                    c@ == test_word@,
                    s@ == solution@,
                    c@.len() == n,
                    s@.len() == n,
                    i < n,
                    !goal_row@[i as int],
                    j <= n,
                    unused@.len() == n,
                    forall|b: int| 0 <= b < n ==> unused@[b] == !goal_row@[b],
                    forall|b: int| 0 <= b < j && !goal_row@[b] ==> c@[i as int] != s@[b],
                decreases n - j,
            {
                if unused[j] && s[j] == c[i] {
                    assert(!goal_row@[i as int] && !goal_row@[j as int] && c@[i as int] == s@[
                        j as int]);
                    assert(!no_yellow(c@, s@, goal_row@));
                    return false;
                }
                j += 1;
            }
        }
        i += 1;
    }
    true
}

/// Whether `solution` can be played: exactly WORD_LENGTH characters.
pub fn is_valid_solution(solution: &str) -> (r: bool)
    ensures
        r == (solution@.len() == WORD_LENGTH),
{
    solution.unicode_len() == WORD_LENGTH
}

/// The words of `words`, in their order, that render `g` against `sol`.
pub open spec fn candidate_list<'a>(words: Seq<&'a str>, sol: Seq<char>, g: Seq<bool>) -> Seq<
    &'a str,
> {
    words.filter(|w: &'a str| matches(w@, sol, g))
}

/// One candidate list per goal row, index-aligned with `shape`.
pub open spec fn answer_of<'a>(words: Seq<&'a str>, sol: Seq<char>, shape: Seq<Seq<bool>>) -> Seq<
    Seq<&'a str>,
> {
    shape.map_values(|g: Seq<bool>| candidate_list(words, sol, g))
}

/// Relies on rayon's `par_iter`, `filter` and `collect` into a `Vec`: the
/// items that pass the filter, in the order of the source slice. The filter
/// only calls `does_match`.
#[verifier::external_body]
fn par_filter_matches<'a>(all_words: &[&'a str], solution: &str, goal_row: &[bool]) -> (r: Vec<
    &'a str,
>)
    ensures
        r@ == candidate_list(all_words@, solution@, goal_row@),
{
    all_words.par_iter().cloned().filter(|&w| does_match(w, solution, goal_row)).collect()
}

/// The dictionary words, in dictionary order, that render `goal_row` against
/// the solution taken in lower case.
pub fn find_matches<'a>(all_words: &[&'a str], solution: &str, goal_row: &[bool]) -> (r: Vec<
    &'a str,
>)
    ensures
        r@ == candidate_list(all_words@, lower_of(solution@), goal_row@),
{
    let lower = lowercase(solution);
    par_filter_matches(all_words, lower.as_str(), goal_row)
}

/// The candidate list of every row of a goal shape, in row order.
pub fn find_answer<'a>(all_words: &[&'a str], solution: &str, goal_shape: &Vec<Vec<bool>>) -> (r:
    Vec<Vec<&'a str>>)
    ensures
        r@.len() == goal_shape@.len(),
        forall|i: int|
            0 <= i < r@.len() ==> r@[i]@ == candidate_list(
                all_words@,
                lower_of(solution@),
                goal_shape@[i]@,
            ),
{
    let mut r: Vec<Vec<&'a str>> = Vec::new();
    let mut i: usize = 0;
    while i < goal_shape.len()
        invariant
            i <= goal_shape@.len(),
            r@.len() == i,
            forall|k: int|
                0 <= k < i ==> r@[k]@ == candidate_list(
                    all_words@,
                    lower_of(solution@),
                    goal_shape@[k]@,
                ),
        decreases goal_shape@.len() - i,
    {
        r.push(find_matches(all_words, solution, goal_shape[i].as_slice()));
        i += 1;
    }
    r
}

/// A guess that shows green where the goal row forbids it, or misses a green
/// that the goal row asks for, never matches.
pub proof fn lemma_green_mismatch_rejects(c: Seq<char>, s: Seq<char>, g: Seq<bool>, i: int)
    requires
        0 <= i < g.len(),
        (c[i] == s[i]) != g[i],
    ensures
        !matches(c, s, g),
{
}

/// Evaluating the rows in another order changes no row's candidate list:
/// the answer for the rows taken in `order` is, position by position, the
/// answer for the original row at that position of `order`.
pub proof fn lemma_rows_independent<'a>(
    words: Seq<&'a str>,
    sol: Seq<char>,
    shape: Seq<Seq<bool>>,
    order: Seq<int>,
)
    requires
        forall|k: int| 0 <= k < order.len() ==> 0 <= #[trigger] order[k] < shape.len(),
    ensures
        ({
            let reordered = Seq::new(order.len(), |k: int| shape[order[k]]);
            forall|k: int|
                0 <= k < order.len() ==> #[trigger] answer_of(words, sol, reordered)[k]
                    == answer_of(words, sol, shape)[order[k]]
        }),
{
}

} // verus!
