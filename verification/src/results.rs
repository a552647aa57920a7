//! Sequences of fallible results, as specifications speak of them.

use vstd::prelude::*;

verus! {

/// The values of `s` in order, or its first error.
pub open spec fn collected<T, E>(s: Seq<Result<T, E>>) -> Result<Seq<T>, E>
    decreases s.len(),
{
    if s.len() == 0 {
        Ok(Seq::empty())
    } else {
        match collected(s.drop_last()) {
            Err(e) => Err(e),
            Ok(v) => match s.last() {
                Err(e) => Err(e),
                Ok(x) => Ok(v.push(x)),
            },
        }
    }
}

/// One more result at the end extends the values, unless it or an earlier one
/// is an error.
pub proof fn lemma_collected_step<T, E>(s: Seq<Result<T, E>>, i: int)
    requires
        0 <= i < s.len(),
    ensures
        collected(s.take(i + 1)) == match collected(s.take(i)) {
            Err(e) => Err(e),
            Ok(v) => match s[i] {
                Err(e) => Err(e),
                Ok(x) => Ok(v.push(x)),
            },
        },
{
    assert(s.take(i + 1).drop_last() =~= s.take(i));
}

/// An error among the first results is the error of the whole sequence.
pub proof fn lemma_collected_error<T, E>(s: Seq<Result<T, E>>, i: int)
    requires
        0 <= i <= s.len(),
        collected(s.take(i)) is Err,
    ensures
        collected(s) == collected(s.take(i)),
    decreases s.len() - i,
{
    if i == s.len() {
        assert(s.take(i) =~= s);
    } else {
        lemma_collected_step(s, i);
        lemma_collected_error(s, i + 1);
    }
}

/// Collecting succeeds exactly where every result is a value, and then keeps
/// them all in order.
pub proof fn lemma_collected_ok<T, E>(s: Seq<Result<T, E>>)
    ensures
        collected(s) is Ok <==> (forall|i: int| 0 <= i < s.len() ==> (#[trigger] s[i]) is Ok),
        collected(s) is Ok ==> collected(s)->Ok_0.len() == s.len() && (forall|i: int|
            0 <= i < s.len() ==> s[i] == Ok::<T, E>(#[trigger] collected(s)->Ok_0[i])),
    decreases s.len(),
{
    if s.len() > 0 {
        lemma_collected_ok(s.drop_last());
        assert(forall|i: int| 0 <= i < s.len() - 1 ==> s.drop_last()[i] == #[trigger] s[i]);
        if collected(s) is Ok {
            assert forall|i: int| 0 <= i < s.len() implies s[i] == Ok::<T, E>(
                #[trigger] collected(s)->Ok_0[i],
            ) by {
                if i < s.len() - 1 {
                    assert(s.drop_last()[i] == s[i]);
                    assert(collected(s)->Ok_0[i] == collected(s.drop_last())->Ok_0[i]);
                }
            }
            assert(forall|i: int| 0 <= i < s.len() ==> (#[trigger] s[i]) is Ok) by {
                assert(forall|i: int| 0 <= i < s.len() - 1 ==> (#[trigger] s.drop_last()[i]) is Ok);
                assert forall|i: int| 0 <= i < s.len() implies (#[trigger] s[i]) is Ok by {
                    if i < s.len() - 1 {
                        assert(s.drop_last()[i] is Ok);
                    }
                }
            }
        }
    }
}

} // verus!
