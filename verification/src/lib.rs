use vstd::prelude::*;

mod summary;

pub use summary::NewsArticle;
pub use summary::Summary;
pub use summary::Tweet;

verus! {

/// Adds two to a machine integer.
pub fn add_two(a: i32) -> (r: i32)
    requires
        a + 2 <= i32::MAX,
    ensures
        r == a + 2,
{
    a + 2
}

/// A shoe record: a numeric size and a style name.
#[derive(Debug, PartialEq, Eq)]
pub struct Shoe {
    pub size: u32,
    pub style: String,
}

/// The subsequence of `shoes` whose size equals `shoe_size`,
/// in the order in which the records appear in `shoes`.
pub open spec fn matching_shoes(shoes: Seq<Shoe>, shoe_size: u32) -> Seq<Shoe> {
    shoes.filter(|s: Shoe| s.size == shoe_size)
}

/// Filtering by size keeps matching entries only: every record of the
/// result has the requested size, every matching record of the input
/// appears in the result, and the result is no longer than the input.
pub proof fn lemma_matching_shoes_exact(shoes: Seq<Shoe>, shoe_size: u32)
    ensures
        forall|i: int|
            0 <= i < matching_shoes(shoes, shoe_size).len()
                ==> (#[trigger] matching_shoes(shoes, shoe_size)[i]).size == shoe_size,
        forall|i: int|
            0 <= i < shoes.len() && shoes[i].size == shoe_size
                ==> matching_shoes(shoes, shoe_size).contains(#[trigger] shoes[i]),
        matching_shoes(shoes, shoe_size).len() <= shoes.len(),
{
    broadcast use vstd::seq_lib::group_filter_ensures;
}

/// Filtering preserves insertion order: a record appended to the input
/// lands at the end of the result when it matches, and leaves the
/// result unchanged when it does not.
pub proof fn lemma_matching_shoes_ordered(shoes: Seq<Shoe>, s: Shoe, shoe_size: u32)
    ensures
        matching_shoes(shoes.push(s), shoe_size) == (if s.size == shoe_size {
            matching_shoes(shoes, shoe_size).push(s)
        } else {
            matching_shoes(shoes, shoe_size)
        }),
{
    reveal(Seq::filter);
    assert(shoes.push(s).drop_last() =~= shoes);
}

/// Keeps exactly the shoes of the requested size, preserving their
/// relative order; every other record is dropped.
pub fn shoes_in_size(shoes: Vec<Shoe>, shoe_size: u32) -> (r: Vec<Shoe>)
    ensures
        r@ == matching_shoes(shoes@, shoe_size),
{
    let ghost orig = shoes@;
    let mut rest = shoes;
    let mut r: Vec<Shoe> = Vec::new();
    while rest.len() > 0
        invariant
            rest@.len() <= orig.len(),
            rest@ =~= orig.subrange(orig.len() - rest@.len(), orig.len() as int),
            r@ == matching_shoes(orig.subrange(0, orig.len() - rest@.len()), shoe_size),
        decreases rest.len(),
    {
        let ghost done = orig.subrange(0, orig.len() - rest@.len());
        let s = rest.remove(0);
        proof {
            reveal(Seq::filter);
            let done2 = orig.subrange(0, orig.len() - rest@.len());
            assert(done2.drop_last() =~= done);
            assert(done2.last() == s);
        }
        if s.size == shoe_size {
            r.push(s);
        }
    }
    proof {
        assert(orig.subrange(0, orig.len() as int) =~= orig);
    }
    r
}

/// The sum of the integers from 1 through `n`; zero when `n < 1`.
pub open spec fn range_sum(n: int) -> int
    decreases n,
{
    if n < 1 {
        0
    } else {
        range_sum(n - 1) + n
    }
}

/// `range_sum` grows with its argument.
proof fn lemma_range_sum_monotonic(i: int, j: int)
    requires
        i <= j,
    ensures
        range_sum(i) <= range_sum(j),
    decreases j - i,
{
    if i < j {
        lemma_range_sum_monotonic(i, j - 1);
    }
}

/// A triangular number is at least as large as its index.
proof fn lemma_range_sum_lower(n: int)
    requires
        0 <= n,
    ensures
        n <= range_sum(n),
    decreases n,
{
    if n > 0 {
        lemma_range_sum_lower(n - 1);
    }
}

/// Twice the n-th triangular number is `n * (n + 1)`.
proof fn lemma_range_sum_closed(n: int)
    requires
        0 <= n,
    ensures
        2 * range_sum(n) == n * (n + 1),
    decreases n,
{
    if n > 0 {
        lemma_range_sum_closed(n - 1);
        assert(2 * range_sum(n) == n * (n + 1)) by (nonlinear_arith)
            requires
                2 * range_sum(n - 1) == (n - 1) * n,
                range_sum(n) == range_sum(n - 1) + n,
        ;
    } else {
        assert(2 * range_sum(n) == n * (n + 1)) by (nonlinear_arith)
            requires
                n == 0,
                range_sum(n) == 0,
        ;
    }
}

/// Folds addition over `1..=n`, as in `(1..=n).fold(0, |sum, item| sum + item)`:
/// the n-th triangular number. An empty range (`n < 1`) folds to zero.
pub fn triangle(n: i32) -> (sum: i32)
    requires
        n <= 65535,
    ensures
        sum == range_sum(n as int),
{
    proof {
        if 1 <= n {
            lemma_range_sum_closed(n as int);
            assert((n as int) * (n as int + 1) <= 65535 * 65536) by (nonlinear_arith)
                requires
                    1 <= n as int <= 65535,
            ;
        }
    }
    let mut sum: i32 = 0;
    let mut item: i32 = 1;
    while item <= n
        invariant
            1 <= item,
            item <= if n < 1 { 1int } else { n + 1 },
            sum == range_sum(item - 1),
            range_sum(n as int) <= i32::MAX,
        decreases n + 1 - item,
    {
        proof {
            lemma_range_sum_monotonic(item as int, n as int);
            lemma_range_sum_lower(item - 1);
        }
        sum = sum + item;
        item = item + 1;
    }
    sum
}

} // verus!
