//! Renders an answer as text: every candidate of every row, or one weighted
//! random pick per row that avoids reusing the words of earlier rows.
use vstd::prelude::*;
use vstd::string::*;
use rand::distributions::{Distribution, WeightedIndex};
use crate::text::{joined, join_with, same_word, upper_of, uppercase};

verus! {

/// The largest candidate pool that sampled mode weighs: the sum of the
/// squared weights of a pool this size still fits in a `u64`.
pub const MAX_POOL: usize = 2097152;

/// The rows of an answer as sequences of words.
pub open spec fn rows_of<'a>(answer: Seq<Vec<&'a str>>) -> Seq<Seq<&'a str>> {
    answer.map_values(|row: Vec<&'a str>| row@)
}

/// The upper-case words of a row, separated by spaces.
pub open spec fn full_line<'a>(row: Seq<&'a str>) -> Seq<char> {
    joined(row.map_values(|w: &'a str| upper_of(w@)), seq![' '])
}

/// Every row of the answer as a `full_line`, one per line.
pub open spec fn full_text<'a>(answer: Seq<Seq<&'a str>>) -> Seq<char> {
    joined(answer.map_values(|row: Seq<&'a str>| full_line(row)), seq!['\n'])
}

/// Whether some used word has the characters `w`.
pub open spec fn is_used<'a>(used: Seq<&'a str>, w: Seq<char>) -> bool {
    exists|k: int| 0 <= k < used.len() && used[k]@ == w
}

/// The words of `row`, in order, that are not used yet.
pub open spec fn unused_in<'a>(row: Seq<&'a str>, used: Seq<&'a str>) -> Seq<&'a str> {
    row.filter(|w: &'a str| !is_used(used, w@))
}

/// The words a row samples from: the unused ones, or all of them when every
/// one is used.
pub open spec fn pool_of<'a>(row: Seq<&'a str>, used: Seq<&'a str>) -> Seq<&'a str> {
    if unused_in(row, used).len() > 0 {
        unused_in(row, used)
    } else {
        row
    }
}

/// The weight of the word at `k` in a pool of `n` words: the first weighs
/// `n * n`, the last 1.
pub open spec fn weight_of(n: int, k: int) -> int {
    (n - k) * (n - k)
}

/// The sum of a list of weights.
pub open spec fn weights_sum(w: Seq<u64>) -> int
    decreases w.len(),
{
    if w.len() == 0 {
        0
    } else {
        weights_sum(w.drop_last()) + w.last()
    }
}

/// Relies on rand's `WeightedIndex::new`, `Distribution::sample` and
/// `thread_rng`: `new` fails exactly when the weights are empty or all zero
/// (a `u64` weight is never negative), and a sample is an index whose weight
/// is not zero. The sum of the weights must fit, as `new` adds them up.
#[verifier::external_body]
fn draw_weighted(weights: &Vec<u64>) -> (r: Option<usize>)
    requires
        weights_sum(weights@) <= u64::MAX,
    ensures
        r is None <==> forall|k: int| 0 <= k < weights@.len() ==> weights@[k] == 0,
        r matches Some(i) ==> i < weights@.len() && weights@[i as int] > 0,
{
    match WeightedIndex::new(weights) {
        Ok(dist) => Some(dist.sample(&mut rand::thread_rng())),
        Err(_) => None,
    }
}

/// Every candidate of every row in upper case: a row's words separated by
/// spaces, rows separated by line breaks (an empty row is an empty line).
pub fn format_full(answer: &[Vec<&str>]) -> (r: String)
    ensures
        r@ == full_text(rows_of(answer@)),
{
    let mut lines: Vec<String> = Vec::new();
    let mut i: usize = 0;
    while i < answer.len()
        invariant
            i <= answer@.len(),
            lines@.len() == i,
            forall|k: int| 0 <= k < i ==> #[trigger] lines@[k]@ == full_line(answer@[k]@),
        decreases answer@.len() - i,
    {
        let row = &answer[i];
        let mut words: Vec<String> = Vec::new();
        let mut j: usize = 0;
        while j < row.len()
            invariant
                j <= row@.len(),
                words@.len() == j,
                forall|k: int| 0 <= k < j ==> #[trigger] words@[k]@ == upper_of(row@[k]@),
            decreases row@.len() - j,
        {
            words.push(uppercase(row[j]));
            j += 1;
        }
        proof {
            reveal_strlit(" ");
            assert(" "@ =~= seq![' ']);
        }
        let line = join_with(&words, " ");
        assert(words@.map_values(|p: String| p@) =~= row@.map_values(|w: &str| upper_of(w@)));
        lines.push(line);
        i += 1;
    }
    proof {
        reveal_strlit("\n");
        assert("\n"@ =~= seq!['\n']);
    }
    let r = join_with(&lines, "\n");
    assert(lines@.map_values(|p: String| p@) =~= rows_of(answer@).map_values(
        |row: Seq<&str>| full_line(row),
    ));
    r
}

/// The line a row renders: the drawn word of its pool in upper case, or the
/// no-solution marker when nothing was drawn.
pub open spec fn picked_line<'a>(pool: Seq<&'a str>, pick: Option<usize>) -> Seq<char> {
    if pick is Some && (pick->0 as int) < pool.len() {
        upper_of(pool[pick->0 as int]@)
    } else {
        "[no solution]"@
    }
}

/// The used words after a row: the drawn word is added, if there is one.
pub open spec fn used_after_pick<'a>(pool: Seq<&'a str>, pick: Option<usize>, used: Seq<&'a str>) -> Seq<
    &'a str,
> {
    if pick is Some && (pick->0 as int) < pool.len() {
        used.push(pool[pick->0 as int])
    } else {
        used
    }
}

/// The used words after sampling the rows of `answer`, row `k` drawing
/// `picks[k]` from its pool.
pub open spec fn used_after<'a>(answer: Seq<Seq<&'a str>>, picks: Seq<Option<usize>>) -> Seq<
    &'a str,
>
    decreases answer.len(),
{
    if answer.len() == 0 {
        Seq::empty()
    } else {
        let used = used_after(answer.drop_last(), picks);
        used_after_pick(pool_of(answer.last(), used), picks[answer.len() - 1], used)
    }
}

/// The pool that row `k` of `answer` samples from.
pub open spec fn row_pool<'a>(answer: Seq<Seq<&'a str>>, picks: Seq<Option<usize>>, k: int) -> Seq<
    &'a str,
> {
    pool_of(answer[k], used_after(answer.take(k), picks))
}

/// A draw that a weighted pick over `pool` can give: nothing exactly when the
/// pool is empty, else an index into it.
pub open spec fn draw_ok<'a>(pool: Seq<&'a str>, pick: Option<usize>) -> bool {
    &&& (pick is None <==> pool.len() == 0)
    &&& (pick matches Some(i) ==> (i as int) < pool.len())
}

/// One possible draw for each row of `answer`.
pub open spec fn valid_draws<'a>(answer: Seq<Seq<&'a str>>, picks: Seq<Option<usize>>) -> bool {
    &&& picks.len() == answer.len()
    &&& forall|k: int| 0 <= k < answer.len() ==> draw_ok(#[trigger] row_pool(answer, picks, k), picks[k])
}

/// The lines that sampled mode renders for `answer` with the draws `picks`.
pub open spec fn sampled_lines<'a>(answer: Seq<Seq<&'a str>>, picks: Seq<Option<usize>>) -> Seq<
    Seq<char>,
> {
    Seq::new(answer.len(), |k: int| picked_line(row_pool(answer, picks, k), picks[k]))
}

proof fn lemma_used_after_prefix<'a>(
    answer: Seq<Seq<&'a str>>,
    p: Seq<Option<usize>>,
    q: Seq<Option<usize>>,
)
    requires
        forall|k: int| 0 <= k < answer.len() ==> p[k] == q[k],
    ensures
        used_after(answer, p) == used_after(answer, q),
    decreases answer.len(),
{
    if answer.len() > 0 {
        lemma_used_after_prefix(answer.drop_last(), p, q);
    }
}

proof fn lemma_used_grows<'a>(answer: Seq<Seq<&'a str>>, picks: Seq<Option<usize>>, m: int, l: int)
    requires
        0 <= m <= l <= answer.len(),
    ensures
        used_after(answer.take(m), picks).len() <= used_after(answer.take(l), picks).len(),
        forall|j: int|
            0 <= j < used_after(answer.take(m), picks).len() ==> used_after(answer.take(m), picks)[j]
                == used_after(answer.take(l), picks)[j],
    decreases l - m,
{
    if m < l {
        lemma_used_grows(answer, picks, m, l - 1);
        assert(answer.take(l).drop_last() =~= answer.take(l - 1));
    }
}

/// Whether some used word has the characters of `w`.
fn is_used_word(used: &Vec<&str>, w: &str) -> (r: bool)
    ensures
        r == is_used(used@, w@),
{
    let mut k: usize = 0;
    while k < used.len()
        invariant
            k <= used@.len(),
            forall|j: int| 0 <= j < k ==> used@[j]@ != w@,
        decreases used@.len() - k,
    {
        if same_word(used[k], w) {
            return true;
        }
        k += 1;
    }
    false
}

/// The words of `row`, in order, that no used word repeats.
pub fn unused_candidates<'a>(row: &Vec<&'a str>, used: &Vec<&'a str>) -> (r: Vec<&'a str>)
    ensures
        r@ == unused_in(row@, used@),
{
    let mut r: Vec<&'a str> = Vec::new();
    let mut i: usize = 0;
    while i < row.len()
        invariant
            i <= row@.len(),
            r@ == unused_in(row@.take(i as int), used@),
        decreases row@.len() - i,
    {
        assert(row@.take(i + 1).drop_last() =~= row@.take(i as int));
        reveal_with_fuel(Seq::filter, 1);
        if !is_used_word(used, row[i]) {
            r.push(row[i]);
        }
        i += 1;
    }
    assert(row@.take(row@.len() as int) =~= row@);
    r
}

/// The words a row samples from: its unused words, or the whole row when
/// every word of it is used.
pub fn sampling_pool<'a>(row: &Vec<&'a str>, used: &Vec<&'a str>) -> (r: Vec<&'a str>)
    ensures
        r@ == pool_of(row@, used@),
{
    let unused = unused_candidates(row, used);
    if unused.len() > 0 {
        return unused;
    }
    let mut r: Vec<&'a str> = Vec::new();
    let mut i: usize = 0;
    while i < row.len()
        invariant
            i <= row@.len(),
            r@ == row@.take(i as int),
        decreases row@.len() - i,
    {
        r.push(row[i]);
        i += 1;
        assert(r@ =~= row@.take(i as int));
    }
    assert(r@ =~= row@);
    r
}

/// The sampling weights of a pool of `n` words: the word at `k` weighs
/// `(n - k)^2`.
pub fn pool_weights(n: usize) -> (r: Vec<u64>)
    requires
        n <= MAX_POOL,
    ensures
        r@.len() == n,
        forall|k: int| 0 <= k < n ==> r@[k] == weight_of(n as int, k),
        weights_sum(r@) <= u64::MAX,
{
    let mut r: Vec<u64> = Vec::new();
    let mut k: usize = 0;
    while k < n
        invariant
            n <= MAX_POOL,
            k <= n,
            r@.len() == k,
            forall|j: int| 0 <= j < k ==> r@[j] == weight_of(n as int, j),
            weights_sum(r@) <= k * (n * n),
        decreases n - k,
    {
        let w: u64 = (n - k) as u64;
        assert(w * w <= n * n <= MAX_POOL * MAX_POOL) by (nonlinear_arith)
            requires
                w <= n <= MAX_POOL,
        ;
        assert((k + 1) * (n * n) == k * (n * n) + n * n) by (nonlinear_arith);
        let ghost before = r@;
        r.push(w * w);
        assert(r@.drop_last() =~= before);
        k += 1;
    }
    assert(n * (n * n) <= MAX_POOL * (MAX_POOL * MAX_POOL)) by (nonlinear_arith)
        requires
            n <= MAX_POOL,
    ;
    r
}

/// The line for one row given the draw made over its pool; a drawn word is
/// recorded as used.
pub fn render_pick<'a>(pool: &Vec<&'a str>, pick: Option<usize>, used: &mut Vec<&'a str>) -> (r:
    String)
    ensures
        r@ == picked_line(pool@, pick),
        final(used)@ == used_after_pick(pool@, pick, old(used)@),
{
    if let Some(i) = pick {
        if i < pool.len() {
            let word = pool[i];
            used.push(word);
            return uppercase(word);
        }
    }
    proof {
        reveal_strlit("[no solution]");
    }
    String::from_str("[no solution]")
}

/// Sampled mode: one line per row, in row order. Each row draws one word of
/// its pool, weighted by `pool_weights`, and a drawn word is used from then
/// on; a row with no candidate renders the no-solution marker. The draws are
/// random; the result is the rendering of some possible draw for each row.
pub fn format_example(answer: &[Vec<&str>]) -> (r: String)
    requires
        forall|k: int| 0 <= k < answer@.len() ==> #[trigger] answer@[k]@.len() <= MAX_POOL,
    ensures
        exists|picks: Seq<Option<usize>>|
            #[trigger] valid_draws(rows_of(answer@), picks) && r@ == joined(
                sampled_lines(rows_of(answer@), picks),
                seq!['\n'],
            ),
{
    let ghost rows = rows_of(answer@);
    let ghost mut picks: Seq<Option<usize>> = Seq::empty();
    let mut lines: Vec<String> = Vec::new();
    let mut used: Vec<&str> = Vec::new();
    let mut i: usize = 0;
    while i < answer.len()
        invariant
            rows == rows_of(answer@),
            forall|k: int| 0 <= k < answer@.len() ==> #[trigger] answer@[k]@.len() <= MAX_POOL,
            i <= answer@.len(),
            picks.len() == i,
            lines@.len() == i,
            used@ == used_after(rows.take(i as int), picks),
            forall|k: int|
                0 <= k < i ==> draw_ok(#[trigger] row_pool(rows, picks, k), picks[k]),
            forall|k: int|
                0 <= k < i ==> #[trigger] lines@[k]@ == picked_line(
                    row_pool(rows, picks, k),
                    picks[k],
                ),
        decreases answer@.len() - i,
    {
        let pool = sampling_pool(&answer[i], &used);
        proof {
            unused_in(rows[i as int], used@).lemma_filter_len(
                |w: &str| !is_used(used@, w@),
            );
        }
        let weights = pool_weights(pool.len());
        let pick = draw_weighted(&weights);
        proof {
            if pool@.len() > 0 {
                assert(weights@[0] == weight_of(pool@.len() as int, 0));
                assert(weights@[0] > 0) by (nonlinear_arith)
                    requires
                        weights@[0] == weight_of(pool@.len() as int, 0),
                        pool@.len() > 0,
                ;
            }
        }
        assert(draw_ok(pool@, pick));
        let line = render_pick(&pool, pick, &mut used);
        let ghost old_picks = picks;
        proof {
            picks = picks.push(pick);
            assert forall|k: int| 0 <= k <= i implies #[trigger] row_pool(rows, picks, k) == row_pool(
                rows,
                old_picks,
                k,
            ) && picks[k] == if k < i {
                old_picks[k]
            } else {
                pick
            } by {
                lemma_used_after_prefix(rows.take(k), picks, old_picks);
            }
            assert(rows.take(i + 1).drop_last() =~= rows.take(i as int));
            assert(rows.take(i + 1).last() == rows[i as int]);
            lemma_used_after_prefix(rows.take(i as int), picks, old_picks);
            assert(row_pool(rows, picks, i as int) == pool@);
        }
        lines.push(line);
        i += 1;
    }
    proof {
        reveal_strlit("\n");
        assert("\n"@ =~= seq!['\n']);
    }
    let r = join_with(&lines, "\n");
    assert(lines@.map_values(|p: String| p@) =~= sampled_lines(rows, picks));
    assert(valid_draws(rows, picks));
    r
}

/// Sampled mode never repeats a word in a later row unless it has to: when
/// rows `k < l` draw words with the same characters, every candidate of row
/// `l` was already used before it.
pub proof fn lemma_no_reuse_unless_forced<'a>(
    answer: Seq<Seq<&'a str>>,
    picks: Seq<Option<usize>>,
    k: int,
    l: int,
)
    requires
        valid_draws(answer, picks),
        0 <= k < l < answer.len(),
        picks[k] is Some,
        picks[l] is Some,
        row_pool(answer, picks, k)[picks[k]->0 as int]@ == row_pool(answer, picks, l)[picks[l]->0 as int]@,
    ensures
        unused_in(answer[l], used_after(answer.take(l), picks)).len() == 0,
{
    let pk = row_pool(answer, picks, k);
    let pl = row_pool(answer, picks, l);
    assert(draw_ok(pk, picks[k]));
    assert(draw_ok(pl, picks[l]));
    let ik = picks[k]->0 as int;
    let il = picks[l]->0 as int;
    let used_k1 = used_after(answer.take(k + 1), picks);
    let used_l = used_after(answer.take(l), picks);
    assert(answer.take(k + 1).drop_last() =~= answer.take(k));
    assert(used_k1 == used_after(answer.take(k), picks).push(pk[ik]));
    lemma_used_grows(answer, picks, k + 1, l);
    let j = used_k1.len() - 1;
    assert(used_l[j] == pk[ik]);
    assert(is_used(used_l, pl[il]@));
    let unused = unused_in(answer[l], used_l);
    if unused.len() > 0 {
        assert(pl == unused);
        answer[l].lemma_filter_pred(|w: &'a str| !is_used(used_l, w@), il);
        assert(false);
    }
}

/// How an answer is rendered.
#[derive(Clone, Copy, Debug, PartialEq, Eq, Structural)]
pub enum OutputFormat {
    /// One weighted random pick per row.
    Example,
    /// Every candidate of every row.
    Full,
}

/// Renders an answer in the chosen format.
pub fn render_answer(answer: &[Vec<&str>], format: OutputFormat) -> (r: String)
    requires
        format is Example ==> forall|k: int|
            0 <= k < answer@.len() ==> #[trigger] answer@[k]@.len() <= MAX_POOL,
    ensures
        format is Full ==> r@ == full_text(rows_of(answer@)),
        format is Example ==> exists|picks: Seq<Option<usize>>|
            #[trigger] valid_draws(rows_of(answer@), picks) && r@ == joined(
                sampled_lines(rows_of(answer@), picks),
                seq!['\n'],
            ),
{
    match format {
        OutputFormat::Example => format_example(answer),
        OutputFormat::Full => format_full(answer),
    }
}

} // verus!
