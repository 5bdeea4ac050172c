use vstd::prelude::*;

verus! {

/// The permission bits an archive entry gets when its source names none.
pub const DEFAULT_MODE: u32 = 0o644;

/// A reader that reports the size of every chunk it reads to `f`.
pub struct ProcessRead<R, F> {
    pub read: R,
    pub f: F,
}

impl<R, F> ProcessRead<R, F> {
    /// Wraps `read`, reporting to `f`.
    pub fn new(read: R, f: F) -> (r: Self)
        ensures
            r.read == read,
            r.f == f,
    {
        Self { read, f }
    }
}

/// The permission bits of a converted entry: those of its source entry, or
/// [`DEFAULT_MODE`] when the source has none.
pub fn entry_mode(unix_mode: Option<u32>) -> (r: u32)
    ensures
        r == match unix_mode {
            Some(mode) => mode,
            None => DEFAULT_MODE,
        },
{
    match unix_mode {
        Some(mode) => mode,
        None => DEFAULT_MODE,
    }
}

/// The sum of a sequence of sizes.
pub open spec fn sum_of(sizes: Seq<u64>) -> int
    decreases sizes.len(),
{
    if sizes.len() == 0 {
        0
    } else {
        sum_of(sizes.drop_last()) + sizes.last()
    }
}

/// The total of the sizes, or `None` when it does not fit in a `u64`.
pub fn total_size(sizes: &Vec<u64>) -> (r: Option<u64>)
    ensures
        r matches Some(total) ==> total == sum_of(sizes@),
        r is None <==> sum_of(sizes@) > u64::MAX,
{
    let mut total: u64 = 0;
    let mut i: usize = 0;
    while i < sizes.len()
        invariant
            0 <= i <= sizes.len(),
            total == sum_of(sizes@.subrange(0, i as int)),
        decreases sizes.len() - i,
    {
        assert(sizes@.subrange(0, i + 1).drop_last() =~= sizes@.subrange(0, i as int));
        if total > u64::MAX - sizes[i] {
            proof {
                lemma_sum_prefix_monotone(sizes@, i + 1);
            }
            return None;
        }
        total = total + sizes[i];
        i = i + 1;
    }
    assert(sizes@.subrange(0, i as int) =~= sizes@);
    Some(total)
}

/// The sums of the prefixes of a sequence of sizes grow with the prefix.
proof fn lemma_sum_prefix_monotone(sizes: Seq<u64>, k: int)
    requires
        0 <= k <= sizes.len(),
    ensures
        sum_of(sizes.subrange(0, k)) <= sum_of(sizes),
    decreases sizes.len(),
{
    if k < sizes.len() {
        assert(sizes.subrange(0, k) =~= sizes.drop_last().subrange(0, k));
        lemma_sum_prefix_monotone(sizes.drop_last(), k);
    } else {
        assert(sizes.subrange(0, k) =~= sizes);
    }
}


/// Entries without permission bits get `rw-r--r--`.
pub proof fn lemma_default_mode()
    ensures
        DEFAULT_MODE == 0o644,
{
}

/// The total of no sizes is 0, of one size is that size, and the total of
/// two lists one after the other is the sum of their totals.
pub proof fn lemma_sum_of_concat(a: Seq<u64>, b: Seq<u64>, x: u64)
    ensures
        sum_of(Seq::<u64>::empty()) == 0,
        sum_of(seq![x]) == x,
        sum_of(a + b) == sum_of(a) + sum_of(b),
    decreases b.len(),
{
    assert(seq![x].drop_last() =~= Seq::<u64>::empty());
    if b.len() == 0 {
        assert(a + b =~= a);
    } else {
        assert((a + b).drop_last() =~= a + b.drop_last());
        lemma_sum_of_concat(a, b.drop_last(), x);
    }
}

} // verus!

