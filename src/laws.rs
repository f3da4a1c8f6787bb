//! Laws of the counter store, stated over the model that the contracts of
//! `Metrics::inc`, `Metrics::dec` and `Metrics::snapshot` use.

use crate::store::{after_dec, after_inc, count_of, snapshot_of};
use vstd::prelude::*;

verus! {

/// The counters after a run of calls on the one name `k`, oldest first:
/// `true` stands for an increment, `false` for a decrement.
pub open spec fn apply_on_key(m: Map<Seq<char>, i64>, k: Seq<char>, ops: Seq<bool>) -> Map<
    Seq<char>,
    i64,
>
    decreases ops.len(),
{
    if ops.len() == 0 {
        m
    } else {
        let before = apply_on_key(m, k, ops.drop_last());
        if ops.last() {
            after_inc(before, k)
        } else {
            after_dec(before, k)
        }
    }
}

/// How many increments a run holds.
pub open spec fn incs(ops: Seq<bool>) -> int
    decreases ops.len(),
{
    if ops.len() == 0 {
        0
    } else {
        incs(ops.drop_last()) + if ops.last() {
            1int
        } else {
            0int
        }
    }
}

/// How many decrements a run holds.
pub open spec fn decs(ops: Seq<bool>) -> int
    decreases ops.len(),
{
    if ops.len() == 0 {
        0
    } else {
        decs(ops.drop_last()) + if ops.last() {
            0int
        } else {
            1int
        }
    }
}

/// The counters after a run of calls on any names, oldest first: each call
/// is a name and `true` for an increment or `false` for a decrement.
pub open spec fn apply_all(m: Map<Seq<char>, i64>, ops: Seq<(Seq<char>, bool)>) -> Map<
    Seq<char>,
    i64,
>
    decreases ops.len(),
{
    if ops.len() == 0 {
        m
    } else {
        let before = apply_all(m, ops.drop_last());
        let (k, up) = ops.last();
        if up {
            after_inc(before, k)
        } else {
            after_dec(before, k)
        }
    }
}

proof fn lemma_counts_cover_run(ops: Seq<bool>)
    ensures
        incs(ops) + decs(ops) == ops.len(),
        incs(ops) >= 0,
        decs(ops) >= 0,
    decreases ops.len(),
{
    if ops.len() > 0 {
        lemma_counts_cover_run(ops.drop_last());
    }
}

/// Whatever the order of a run of increments and decrements of one counter,
/// the counter ends at its start value plus the number of increments minus
/// the number of decrements, as long as no step could leave the range of
/// `i64`; after at least one call the counter exists.
pub proof fn lemma_accumulation(m: Map<Seq<char>, i64>, k: Seq<char>, ops: Seq<bool>)
    requires
        (if count_of(m, k) < 0 {
            -count_of(m, k)
        } else {
            count_of(m, k)
        }) + ops.len() <= i64::MAX,
    ensures
        count_of(apply_on_key(m, k, ops), k) == count_of(m, k) + incs(ops) - decs(ops),
        ops.len() > 0 ==> apply_on_key(m, k, ops).contains_key(k),
    decreases ops.len(),
{
    lemma_counts_cover_run(ops);
    if ops.len() > 0 {
        let rest = ops.drop_last();
        lemma_accumulation(m, k, rest);
        lemma_counts_cover_run(rest);
    }
}

/// An increment or a decrement of one counter leaves every other counter as
/// it was, present or absent, with its value.
pub proof fn lemma_independent_keys(m: Map<Seq<char>, i64>, a: Seq<char>, b: Seq<char>)
    requires
        a != b,
    ensures
        after_inc(m, a).dom() == m.dom().insert(a),
        after_dec(m, a).dom() == m.dom().insert(a),
        after_inc(m, a).contains_key(b) == m.contains_key(b),
        after_dec(m, a).contains_key(b) == m.contains_key(b),
        m.contains_key(b) ==> after_inc(m, a)[b] == m[b] && after_dec(m, a)[b] == m[b],
{
}

/// An increment followed by a decrement of the same counter gives back the
/// store as it was when the counter existed, and leaves it at zero when it
/// did not.
pub proof fn lemma_inc_then_dec(m: Map<Seq<char>, i64>, k: Seq<char>)
    requires
        count_of(m, k) < i64::MAX,
    ensures
        after_dec(after_inc(m, k), k) == (if m.contains_key(k) {
            m
        } else {
            m.insert(k, 0)
        }),
{
    if m.contains_key(k) {
        assert(after_dec(after_inc(m, k), k) =~= m);
    } else {
        assert(after_dec(after_inc(m, k), k) =~= m.insert(k, 0));
    }
}

/// Two snapshots of the same counters are the same map, so a snapshot taken
/// twice with no change in between gives equal copies.
pub proof fn lemma_snapshots_agree(s1: Map<String, i64>, s2: Map<String, i64>, m: Map<Seq<char>, i64>)
    requires
        snapshot_of(s1, m),
        snapshot_of(s2, m),
    ensures
        s1 == s2,
{
    assert forall|n: String| #[trigger] s1.contains_key(n) <==> s2.contains_key(n) by {
        assert(s1.contains_key(n) <==> m.contains_key(n@));
        assert(s2.contains_key(n) <==> m.contains_key(n@));
    }
    assert forall|n: String| #[trigger] s1.contains_key(n) implies s1[n] == s2[n] by {
        assert(s2.contains_key(n));
    }
    assert(s1 =~= s2);
}

/// After any run of calls, a name has a counter exactly when it had one
/// before or some call of the run touched it; so every touched name is in a
/// snapshot taken afterwards, and a name that no call touched reads as absent.
pub proof fn lemma_snapshot_completeness(
    m: Map<Seq<char>, i64>,
    ops: Seq<(Seq<char>, bool)>,
    s: Map<String, i64>,
)
    requires
        snapshot_of(s, apply_all(m, ops)),
    ensures
        forall|k: Seq<char>|
            #![trigger apply_all(m, ops).contains_key(k)]
            apply_all(m, ops).contains_key(k) <==> (m.contains_key(k) || exists|i: int|
                0 <= i < ops.len() && (#[trigger] ops[i]).0 == k),
        forall|i: int|
            0 <= i < ops.len() ==> exists|n: String| #[trigger]
                s.contains_key(n) && n@ == (#[trigger] ops[i]).0,
    decreases ops.len(),
{
    lemma_touched_keys(m, ops);
    assert forall|i: int| 0 <= i < ops.len() implies exists|n: String| #[trigger]
        s.contains_key(n) && n@ == (#[trigger] ops[i]).0 by {
        assert(apply_all(m, ops).contains_key(ops[i].0));
    }
}

proof fn lemma_touched_keys(m: Map<Seq<char>, i64>, ops: Seq<(Seq<char>, bool)>)
    ensures
        forall|k: Seq<char>|
            #![trigger apply_all(m, ops).contains_key(k)]
            apply_all(m, ops).contains_key(k) <==> (m.contains_key(k) || exists|i: int|
                0 <= i < ops.len() && (#[trigger] ops[i]).0 == k),
    decreases ops.len(),
{
    if ops.len() > 0 {
        let rest = ops.drop_last();
        lemma_touched_keys(m, rest);
        let last = ops.last().0;
        assert(apply_all(m, ops).dom() == apply_all(m, rest).dom().insert(last));
        assert(ops[ops.len() - 1].0 == last);
        assert forall|k: Seq<char>|
            #![trigger apply_all(m, ops).contains_key(k)]
            apply_all(m, ops).contains_key(k) <==> (m.contains_key(k) || exists|i: int|
                0 <= i < ops.len() && (#[trigger] ops[i]).0 == k) by {
            if apply_all(m, ops).contains_key(k) && k != last {
                assert(apply_all(m, rest).contains_key(k));
                if !m.contains_key(k) {
                    let i = choose|i: int| 0 <= i < rest.len() && (#[trigger] rest[i]).0 == k;
                    assert(ops[i] == rest[i]);
                }
            }
            if exists|i: int| 0 <= i < ops.len() && (#[trigger] ops[i]).0 == k {
                let i = choose|i: int| 0 <= i < ops.len() && (#[trigger] ops[i]).0 == k;
                if i < ops.len() - 1 {
                    assert(rest[i] == ops[i]);
                    assert(apply_all(m, rest).contains_key(k));
                }
            }
            if m.contains_key(k) {
                assert(apply_all(m, rest).contains_key(k));
            }
        }
    }
}

/// A snapshot keeps the values it was taken with: after a later increment of
/// `k` the snapshot still holds the old value of `k`, and it is no copy of
/// the store as the increment left it.
pub proof fn lemma_snapshot_isolation(s: Map<String, i64>, m: Map<Seq<char>, i64>, k: Seq<char>)
    requires
        snapshot_of(s, m),
        count_of(m, k) < i64::MAX,
    ensures
        forall|n: String| #[trigger] s.contains_key(n) && n@ == k ==> s[n] == count_of(m, k),
        count_of(after_inc(m, k), k) == count_of(m, k) + 1,
        !snapshot_of(s, after_inc(m, k)),
{
    let after = after_inc(m, k);
    assert(after.contains_key(k));
    if snapshot_of(s, after) {
        let n = choose|n: String| #[trigger] s.contains_key(n) && n@ == k;
        assert(m.contains_key(n@));
    }
}

} // verus!
