use vstd::prelude::*;

verus! {

/// All of `parts`, one after the other.
pub open spec fn concat_all<T>(parts: Seq<Seq<T>>) -> Seq<T>
    decreases parts.len(),
{
    if parts.len() == 0 {
        Seq::empty()
    } else {
        concat_all(parts.drop_last()) + parts.last()
    }
}

/// How many of `flags` are set.
pub open spec fn count_set(flags: Seq<bool>) -> nat
    decreases flags.len(),
{
    if flags.len() == 0 {
        0
    } else {
        count_set(flags.drop_last()) + if flags.last() {
            1nat
        } else {
            0nat
        }
    }
}

/// A record that each step extends by `added[i]` ends as its start followed
/// by everything added, in order.
pub proof fn record_accumulates<T>(log: Seq<Seq<T>>, added: Seq<Seq<T>>)
    requires
        log.len() == added.len() + 1,
        forall|i: int| 0 <= i < added.len() ==> log[i + 1] == log[i] + #[trigger] added[i],
    ensures
        log.last() == log[0] + concat_all(added),
    decreases added.len(),
{
    if added.len() > 0 {
        let n = added.len() - 1;
        record_accumulates(log.drop_last(), added.drop_last());
        assert(log.drop_last().last() == log[n]);
        assert(log[n + 1] == log[n] + added[n]);
        assert(log.last() =~= log[0] + concat_all(added));
    } else {
        assert(log.last() =~= log[0] + concat_all(added));
    }
}

/// A counter that each step raises by `step` when its flag is set ends at its
/// start plus `step` times the number of set flags, and so does every prefix.
pub proof fn counter_accumulates(counts: Seq<int>, flags: Seq<bool>, step: int)
    requires
        counts.len() == flags.len() + 1,
        forall|i: int| 0 <= i < flags.len() ==> counts[i + 1] == counts[i] + if #[trigger] flags[i] {
            step
        } else {
            0
        },
    ensures
        forall|k: int| 0 <= k <= flags.len() ==> #[trigger] counts[k] == counts[0] + step * count_set(flags.take(k)),
    decreases flags.len(),
{
    if flags.len() > 0 {
        let n = flags.len() - 1;
        counter_accumulates(counts.drop_last(), flags.drop_last(), step);
        assert forall|k: int| 0 <= k <= flags.len() implies #[trigger] counts[k] == counts[0] + step * count_set(flags.take(k)) by {
            if k <= n {
                assert(flags.drop_last().take(k) =~= flags.take(k));
                assert(counts.drop_last()[k] == counts[k]);
            } else {
                assert(flags.drop_last().take(n) =~= flags.take(n));
                assert(counts.drop_last()[n] == counts[n]);
                assert(flags.take(k).drop_last() =~= flags.take(n));
                assert(flags.take(k).last() == flags[n]);
                assert(counts[n + 1] == counts[n] + if flags[n] { step } else { 0 });
                assert(step * count_set(flags.take(k)) == step * count_set(flags.take(n)) + if flags[n] { step } else { 0 }) by (nonlinear_arith)
                    requires
                        count_set(flags.take(k)) == count_set(flags.take(n)) + if flags[n] { 1nat } else { 0nat },
                ;
            }
        }
    } else {
        assert(flags.take(0) =~= Seq::<bool>::empty());
        assert(count_set(flags.take(0)) == 0);
        assert(step * count_set(flags.take(0)) == 0) by (nonlinear_arith)
            requires
                count_set(flags.take(0)) == 0,
        ;
        assert(counts[0] == counts[0] + step * count_set(flags.take(0)));
    }
}

} // verus!
