use vstd::prelude::*;

verus! {

/// Applies `f` to every item in order; the result is every item's value,
/// or the first failure.
pub open spec fn collect_all<T, U>(
    items: Seq<T>,
    f: spec_fn(T) -> Result<U, Seq<char>>,
) -> Result<Seq<U>, Seq<char>>
    decreases items.len(),
{
    if items.len() == 0 {
        Ok(Seq::empty())
    } else {
        match collect_all(items.drop_last(), f) {
            Err(e) => Err(e),
            Ok(prefix) => match f(items.last()) {
                Err(e) => Err(e),
                Ok(u) => Ok(prefix.push(u)),
            },
        }
    }
}

/// Taking one more item either extends the collected values or fails
/// with that item's failure.
pub proof fn lemma_collect_step<T, U>(items: Seq<T>, f: spec_fn(T) -> Result<U, Seq<char>>, n: int)
    requires
        0 <= n < items.len(),
        collect_all(items.take(n), f) is Ok,
    ensures
        collect_all(items.take(n + 1), f) == match f(items[n]) {
            Err(e) => Err::<Seq<U>, Seq<char>>(e),
            Ok(u) => Ok(collect_all(items.take(n), f)->Ok_0.push(u)),
        },
{
    assert(items.take(n + 1).drop_last() =~= items.take(n));
    assert(items.take(n + 1).last() == items[n]);
}

/// Once a prefix fails, the whole sequence fails the same way.
pub proof fn lemma_collect_prefix_err<T, U>(items: Seq<T>, f: spec_fn(T) -> Result<U, Seq<char>>, n: int)
    requires
        0 <= n <= items.len(),
        collect_all(items.take(n), f) is Err,
    ensures
        collect_all(items, f) == collect_all(items.take(n), f),
    decreases items.len() - n,
{
    if n == items.len() {
        assert(items.take(n) =~= items);
    } else {
        assert(items.take(n + 1).drop_last() =~= items.take(n));
        lemma_collect_prefix_err(items, f, n + 1);
    }
}

/// When every item succeeds, collecting gives each item's value in order.
pub proof fn lemma_collect_all_ok<T, U>(items: Seq<T>, f: spec_fn(T) -> Result<U, Seq<char>>)
    requires
        forall|i: int| 0 <= i < items.len() ==> #[trigger] f(items[i]) is Ok,
    ensures
        collect_all(items, f) is Ok,
        collect_all(items, f)->Ok_0.len() == items.len(),
        forall|i: int| 0 <= i < items.len() ==> #[trigger] collect_all(items, f)->Ok_0[i] == f(items[i])->Ok_0,
    decreases items.len(),
{
    if items.len() > 0 {
        let d = items.drop_last();
        assert forall|i: int| 0 <= i < d.len() implies #[trigger] f(d[i]) is Ok by {
            assert(d[i] == items[i]);
        }
        lemma_collect_all_ok(d, f);
        assert(f(items[items.len() - 1]) is Ok);
        assert forall|i: int| 0 <= i < items.len() implies #[trigger] collect_all(items, f)->Ok_0[i] == f(items[i])->Ok_0 by {
            if i < items.len() - 1 {
                assert(d[i] == items[i]);
            }
        }
    }
}

/// The whole sequence is its longest prefix.
pub proof fn lemma_take_all<T>(items: Seq<T>)
    ensures
        items.take(items.len() as int) == items,
{
    assert(items.take(items.len() as int) =~= items);
}

} // verus!
