//! Process ranking and selection.
//!
//! The top-N policy orders processes by CPU usage, highest first, ties kept
//! in enumeration order (a stable sort), then truncates to the configured
//! count.

use vstd::prelude::*;
use crate::models::ProcessInfo;
use crate::models::SelectionPolicy;

verus! {

/// `x` placed into a descending run: after every element whose usage is at
/// least `x`'s, before the first strictly smaller one, so that earlier
/// equal-usage elements stay ahead of `x`.
pub open spec fn insert_desc(s: Seq<ProcessInfo>, x: ProcessInfo) -> Seq<ProcessInfo>
    decreases s.len(),
{
    if s.len() == 0 {
        seq![x]
    } else if s[0].cpu >= x.cpu {
        seq![s[0]] + insert_desc(s.drop_first(), x)
    } else {
        seq![x] + s
    }
}

/// Stable insertion sort by CPU usage, highest first.
pub open spec fn sort_desc(s: Seq<ProcessInfo>) -> Seq<ProcessInfo>
    decreases s.len(),
{
    if s.len() == 0 {
        Seq::empty()
    } else {
        insert_desc(sort_desc(s.drop_last()), s.last())
    }
}

/// The sequence is ordered by CPU usage, highest first.
pub open spec fn sorted_desc(s: Seq<ProcessInfo>) -> bool {
    forall|i: int, j: int| 0 <= i <= j < s.len() ==> s[i].cpu >= s[j].cpu
}

/// What a snapshot carries under each policy: everything in enumeration
/// order, or the stable descending sort truncated to the configured count.
pub open spec fn select_spec(s: Seq<ProcessInfo>, policy: SelectionPolicy) -> Seq<ProcessInfo> {
    match policy {
        SelectionPolicy::All => s,
        SelectionPolicy::TopByCpu { count } => if count < s.len() {
            sort_desc(s).take(count as int)
        } else {
            sort_desc(s)
        },
    }
}

/// Inserting adds exactly one element: the result is one longer and its
/// multiset is the input's plus `x`.
proof fn lemma_insert_desc_multiset(s: Seq<ProcessInfo>, x: ProcessInfo)
    ensures
        insert_desc(s, x).len() == s.len() + 1,
        insert_desc(s, x).to_multiset() == s.to_multiset().insert(x),
    decreases s.len(),
{
    broadcast use vstd::seq_lib::group_to_multiset_ensures;
    broadcast use vstd::seq_lib::lemma_multiset_commutative;
    broadcast use vstd::multiset::group_multiset_axioms;

    if s.len() == 0 {
        assert(seq![x] =~= Seq::<ProcessInfo>::empty().push(x));
        assert(insert_desc(s, x).to_multiset() =~= s.to_multiset().insert(x));
    } else if s[0].cpu >= x.cpu {
        lemma_insert_desc_multiset(s.drop_first(), x);
        assert(s =~= seq![s[0]] + s.drop_first());
        assert(insert_desc(s, x).to_multiset() =~= s.to_multiset().insert(x));
    } else {
        assert(insert_desc(s, x) == seq![x] + s);
        assert(seq![x] =~= Seq::<ProcessInfo>::empty().push(x));
        assert(insert_desc(s, x).to_multiset() =~= s.to_multiset().insert(x));
    }
}

/// Inserting into a descending run keeps it descending.
proof fn lemma_insert_desc_sorted(s: Seq<ProcessInfo>, x: ProcessInfo)
    requires
        sorted_desc(s),
    ensures
        sorted_desc(insert_desc(s, x)),
    decreases s.len(),
{
    broadcast use vstd::seq_lib::group_to_multiset_ensures;

    if s.len() == 0 {
    } else if s[0].cpu >= x.cpu {
        let rest = insert_desc(s.drop_first(), x);
        lemma_insert_desc_sorted(s.drop_first(), x);
        lemma_insert_desc_multiset(s.drop_first(), x);
        let r = insert_desc(s, x);
        assert(r == seq![s[0]] + rest);
        assert forall|k: int| 0 <= k < rest.len() implies s[0].cpu >= rest[k].cpu by {
            assert(rest.contains(rest[k]));
            assert(rest.to_multiset().count(rest[k]) > 0);
            if rest[k] != x {
                assert(s.drop_first().to_multiset().count(rest[k]) > 0);
                assert(s.drop_first().contains(rest[k]));
                let w = choose|w: int|
                    0 <= w < s.drop_first().len() && s.drop_first()[w] == rest[k];
                assert(s[w + 1] == rest[k]);
            }
        }
    } else {
    }
}

/// Sorting keeps the length, yields a descending run, and permutes the
/// input: no process is invented, dropped or duplicated.
pub proof fn lemma_sort_desc_props(s: Seq<ProcessInfo>)
    ensures
        sort_desc(s).len() == s.len(),
        sorted_desc(sort_desc(s)),
        sort_desc(s).to_multiset() == s.to_multiset(),
    decreases s.len(),
{
    broadcast use vstd::seq_lib::group_to_multiset_ensures;

    if s.len() > 0 {
        lemma_sort_desc_props(s.drop_last());
        lemma_insert_desc_multiset(sort_desc(s.drop_last()), s.last());
        lemma_insert_desc_sorted(sort_desc(s.drop_last()), s.last());
        assert(s =~= s.drop_last().push(s.last()));
        assert(s.drop_last().push(s.last()).to_multiset() =~= s.drop_last().to_multiset().insert(
        s.last()));
        assert(sort_desc(s).to_multiset() =~= s.to_multiset());
    }
}

/// Where the scan of a descending run stops is where `insert_desc` places
/// the element: `j` elements at least as busy come first, then `x`, then the
/// rest.
proof fn lemma_insert_desc_at(s: Seq<ProcessInfo>, x: ProcessInfo, j: int)
    requires
        0 <= j <= s.len(),
        forall|k: int| 0 <= k < j ==> s[k].cpu >= x.cpu,
        j < s.len() ==> s[j].cpu < x.cpu,
    ensures
        insert_desc(s, x) == s.subrange(0, j).push(x) + s.subrange(j, s.len() as int),
    decreases j,
{
    if j == 0 {
        if s.len() == 0 {
            assert(insert_desc(s, x) =~= s.subrange(0, 0).push(x) + s.subrange(0, 0));
        } else {
            assert(insert_desc(s, x) == seq![x] + s);
            assert(insert_desc(s, x) =~= s.subrange(0, 0).push(x) + s.subrange(
            0, s.len() as int));
        }
    } else {
        let d = s.drop_first();
        assert forall|k: int| 0 <= k < j - 1 implies d[k].cpu >= x.cpu by {
            assert(s[k + 1].cpu >= x.cpu);
        }
        lemma_insert_desc_at(d, x, j - 1);
        assert(insert_desc(s, x) == seq![s[0]] + insert_desc(d, x));
        assert(insert_desc(s, x) =~= s.subrange(0, j).push(x) + s.subrange(j, s.len() as int));
    }
}

/// Sort the vector in place: highest CPU usage first, ties kept in their
/// original order.
fn sort_by_cpu_desc(v: &mut Vec<ProcessInfo>)
    ensures
        final(v)@ == sort_desc(old(v)@),
{
    let ghost orig = v@;
    let mut i: usize = 0;
    while i < v.len()
        invariant
            i <= v@.len(),
            v@.len() == orig.len(),
            v@.subrange(0, i as int) == sort_desc(orig.subrange(0, i as int)),
            v@.subrange(i as int, orig.len() as int) == orig.subrange(i as int, orig.len() as int),
        decreases v@.len() - i,
    {
        let ghost at_start = v@;
        proof {
            assert(at_start[i as int] == at_start.subrange(i as int, orig.len() as int)[0]);
        }
        let x = v.remove(i);
        let ghost pre = v@;
        let mut j: usize = 0;
        while j < i && v[j].cpu >= x.cpu
            invariant
                j <= i,
                i < orig.len(),
                v@ == pre,
                pre.len() == orig.len() - 1,
                i <= pre.len(),
                forall|k: int| 0 <= k < j ==> v@[k].cpu >= x.cpu,
            decreases i - j,
        {
            j = j + 1;
        }
        v.insert(j, x);
        proof {
            let si = i as int;
            let sj = j as int;
            let prefix = pre.subrange(0, si);
            assert(pre == at_start.remove(si));
            assert(prefix =~= at_start.subrange(0, si));
            assert(prefix == sort_desc(orig.subrange(0, si)));
            assert forall|k: int| 0 <= k < sj implies prefix[k].cpu >= x.cpu by {
                assert(pre[k].cpu >= x.cpu);
            }
            lemma_insert_desc_at(prefix, x, sj);
            assert(x == orig[si]);
            assert(orig.subrange(0, si + 1).drop_last() =~= orig.subrange(0, si));
            assert(orig.subrange(0, si + 1).last() == orig[si]);
            assert(sort_desc(orig.subrange(0, si + 1)) == insert_desc(
                sort_desc(orig.subrange(0, si)),
                orig[si],
            ));
            assert(v@ == pre.insert(sj, x));
            assert(v@.subrange(0, si + 1) =~= prefix.subrange(0, sj).push(x) + prefix.subrange(
            sj, prefix.len() as int));
            assert(v@.subrange(0, si + 1) == sort_desc(orig.subrange(0, si + 1)));
            assert forall|k: int| si + 1 <= k < orig.len() implies v@[k] == orig[k] by {
                assert(v@[k] == pre.subrange(sj, pre.len() as int)[k - sj - 1]);
                assert(pre[k - 1] == at_start.subrange(si + 1, orig.len() as int)[k - 1 - si]);
                assert(at_start.subrange(si as int, orig.len() as int)[k - si] == orig.subrange(
                si as int, orig.len() as int)[k - si]);
            }
            assert(v@.subrange(si + 1, orig.len() as int) =~= orig.subrange(
            si + 1, orig.len() as int));
        }
        i = i + 1;
    }
    proof {
        assert(orig.subrange(0, orig.len() as int) =~= orig);
        assert(v@.subrange(0, v@.len() as int) =~= v@);
    }
}

/// The predicate picking the processes at usage level `c`.
pub open spec fn cpu_is(c: u64) -> spec_fn(ProcessInfo) -> bool {
    |p: ProcessInfo| p.cpu == c
}

/// A sequence none of whose elements satisfies the predicate filters to
/// nothing.
proof fn lemma_filter_none(s: Seq<ProcessInfo>, pred: spec_fn(ProcessInfo) -> bool)
    requires
        forall|i: int| 0 <= i < s.len() ==> !pred(s[i]),
    ensures
        s.filter(pred) == Seq::<ProcessInfo>::empty(),
    decreases s.len(),
{
    reveal(Seq::filter);
    if s.len() > 0 {
        lemma_filter_none(s.drop_last(), pred);
    }
}

proof fn lemma_filter_singleton(e: ProcessInfo, pred: spec_fn(ProcessInfo) -> bool)
    ensures
        seq![e].filter(pred) == if pred(e) {
            seq![e]
        } else {
            Seq::<ProcessInfo>::empty()
        },
{
    reveal_with_fuel(Seq::filter, 2);
    assert(seq![e].drop_last() =~= Seq::<ProcessInfo>::empty());
    assert(Seq::<ProcessInfo>::empty().filter(pred) == Seq::<ProcessInfo>::empty());
    assert(seq![e].filter(pred) == if pred(seq![e].last()) {
        seq![e].drop_last().filter(pred).push(seq![e].last())
    } else {
        seq![e].drop_last().filter(pred)
    });
    if pred(e) {
        assert(Seq::<ProcessInfo>::empty().filter(pred).push(e) =~= seq![e]);
    }
}

/// Inserting `x` into a descending run appends it to its usage level and
/// leaves every other level untouched.
proof fn lemma_insert_desc_filter(s: Seq<ProcessInfo>, x: ProcessInfo, c: u64)
    requires
        sorted_desc(s),
    ensures
        insert_desc(s, x).filter(cpu_is(c)) == if x.cpu == c {
            s.filter(cpu_is(c)).push(x)
        } else {
            s.filter(cpu_is(c))
        },
    decreases s.len(),
{
    let pred = cpu_is(c);
    lemma_filter_singleton(x, pred);
    if s.len() == 0 {
        assert(insert_desc(s, x) == seq![x]);
        assert(s.filter(pred) =~= Seq::<ProcessInfo>::empty());
        if x.cpu == c {
            assert(s.filter(pred).push(x) =~= seq![x]);
        }
    } else if s[0].cpu >= x.cpu {
        let d = s.drop_first();
        lemma_insert_desc_filter(d, x, c);
        lemma_filter_singleton(s[0], pred);
        assert(insert_desc(s, x) == seq![s[0]] + insert_desc(d, x));
        Seq::<ProcessInfo>::filter_distributes_over_add(seq![s[0]], insert_desc(d, x), pred);
        assert(s =~= seq![s[0]] + d);
        Seq::<ProcessInfo>::filter_distributes_over_add(seq![s[0]], d, pred);
        if x.cpu == c {
            assert(seq![s[0]].filter(pred) + d.filter(pred).push(x) =~= (seq![s[0]].filter(pred)
                + d.filter(pred)).push(x));
        }
    } else {
        assert(insert_desc(s, x) == seq![x] + s);
        Seq::<ProcessInfo>::filter_distributes_over_add(seq![x], s, pred);
        if x.cpu == c {
            assert forall|i: int| 0 <= i < s.len() implies !pred(s[i]) by {
                assert(s[0].cpu >= s[i].cpu);
            }
            lemma_filter_none(s, pred);
            assert(seq![x] + Seq::<ProcessInfo>::empty() =~= Seq::<
                ProcessInfo,
            >::empty().push(x));
        } else {
            assert(Seq::<ProcessInfo>::empty() + s.filter(pred) =~= s.filter(pred));
        }
    }
}

/// Ties are stable: at every usage level, the sorted order is exactly the
/// enumeration order of the input.
pub proof fn lemma_sort_desc_stable(s: Seq<ProcessInfo>, c: u64)
    ensures
        sort_desc(s).filter(cpu_is(c)) == s.filter(cpu_is(c)),
    decreases s.len(),
{
    let pred = cpu_is(c);
    if s.len() > 0 {
        let d = s.drop_last();
        let x = s.last();
        lemma_sort_desc_stable(d, c);
        lemma_sort_desc_props(d);
        lemma_insert_desc_filter(sort_desc(d), x, c);
        assert(s =~= d + seq![x]);
        Seq::<ProcessInfo>::filter_distributes_over_add(d, seq![x], pred);
        lemma_filter_singleton(x, pred);
        if x.cpu == c {
            assert(d.filter(pred).push(x) =~= d.filter(pred) + seq![x]);
        } else {
            assert(d.filter(pred) + Seq::<ProcessInfo>::empty() =~= d.filter(pred));
        }
    }
}

/// Select the processes a snapshot carries: all of them in enumeration
/// order, or the `count` highest CPU consumers, descending, ties stable.
pub fn select_processes(processes: Vec<ProcessInfo>, policy: SelectionPolicy) -> (r: Vec<
    ProcessInfo,
>)
    ensures
        r@ == select_spec(processes@, policy),
{
    match policy {
        SelectionPolicy::All => processes,
        SelectionPolicy::TopByCpu { count } => {
            let ghost input = processes@;
            let mut v = processes;
            sort_by_cpu_desc(&mut v);
            proof {
                lemma_sort_desc_props(input);
            }
            v.truncate(count);
            proof {
                if count >= input.len() {
                    assert(v@ == sort_desc(input));
                } else {
                    assert(v@ =~= sort_desc(input).take(count as int));
                }
            }
            v
        },
    }
}

} // verus!
