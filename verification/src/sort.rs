//! Sorting records into the order of the manifest.

use vstd::prelude::*;

use crate::file::FileInformation;
use crate::order::{
    in_order, lemma_in_order_transitive, lemma_precedes_trichotomy, ordered, same_place, Record,
};

verus! {

/// The rows that a list of files stands for.
pub open spec fn records(files: Seq<FileInformation>) -> Seq<Record> {
    files.map_values(|file: FileInformation| file@)
}

/// Whether `sorted` holds the records of `files`, each as often as `files`
/// does, in the order of the manifest.
pub open spec fn is_sorting_of(sorted: Seq<Record>, files: Seq<Record>) -> bool {
    ordered(sorted) && sorted.to_multiset() == files.to_multiset()
}

/// Whether every record stands after all that follow it.
spec fn descending(records: Seq<Record>) -> bool {
    forall|i: int, j: int| 0 <= i < j < records.len() ==> in_order(records[j], records[i])
}

/// Whether each record of `low` may stand before each of `high`.
spec fn all_in_order(low: Seq<Record>, high: Seq<Record>) -> bool {
    forall|i: int, k: int|
        0 <= i < low.len() && 0 <= k < high.len() ==> in_order(#[trigger] low[i], #[trigger] high[k])
}

/// What is left of a list from one place earlier holds one record more.
proof fn lemma_skip_one_less(records: Seq<Record>, n: int)
    requires
        0 < n <= records.len(),
    ensures
        records.skip(n - 1).to_multiset() == records.skip(n).to_multiset().insert(records[n - 1]),
{
    broadcast use vstd::seq_lib::group_to_multiset_ensures;

    let tail = records.skip(n - 1);
    assert(tail.remove(0) =~= records.skip(n));
    assert(tail[0] == records[n - 1]);
    assert(tail.to_multiset().count(tail[0]) > 0) by {
        assert(tail.contains(tail[0]));
    }
    assert(tail.to_multiset() =~= tail.remove(0).to_multiset().insert(tail[0]));
}

/// The rows of a list with one more file are the rows with one more row.
proof fn lemma_records_push(files: Seq<FileInformation>, file: FileInformation)
    ensures
        records(files.push(file)) == records(files).push(file@),
{
    assert(records(files.push(file)) =~= records(files).push(file@));
}

/// The rows of the first files of a list are the first rows of the list.
proof fn lemma_records_take(files: Seq<FileInformation>, n: int)
    requires
        0 <= n <= files.len(),
    ensures
        records(files.subrange(0, n)) == records(files).take(n),
{
    assert(records(files.subrange(0, n)) =~= records(files).take(n));
}

/// A sorting holds as many records as were sorted, and a record is in the
/// one list exactly if it is in the other.
pub proof fn lemma_sorting_keeps_records(sorted: Seq<Record>, files: Seq<Record>)
    requires
        is_sorting_of(sorted, files),
    ensures
        sorted.len() == files.len(),
        forall|record: Record| #[trigger] sorted.contains(record) == files.contains(record),
{
    sorted.to_multiset_ensures();
    files.to_multiset_ensures();
    assert forall|record: Record| #[trigger] sorted.contains(record) == files.contains(record) by {
        assert(sorted.contains(record) <==> sorted.to_multiset().count(record) > 0);
        assert(files.contains(record) <==> files.to_multiset().count(record) > 0);
    }
}

/// Where no two different records have the same moment and name, there is
/// one sorting only: whoever sorts the same records gets the same list.
pub proof fn lemma_sorting_unique(first: Seq<Record>, second: Seq<Record>, files: Seq<Record>)
    requires
        is_sorting_of(first, files),
        is_sorting_of(second, files),
        forall|i: int, j: int|
            0 <= i < files.len() && 0 <= j < files.len() && same_place(files[i], files[j])
                ==> files[i] == files[j],
    ensures
        first == second,
    decreases first.len(),
{
    broadcast use vstd::seq_lib::group_to_multiset_ensures;

    lemma_sorting_keeps_records(first, files);
    lemma_sorting_keeps_records(second, files);
    if first.len() == 0 {
        assert(first =~= second);
    } else {
        let a = first[0];
        let b = second[0];
        assert(first.contains(a));
        assert(second.contains(b));
        assert(files.contains(a));
        assert(files.contains(b));
        assert(first.contains(b));
        assert(second.contains(a));
        let i = choose|i: int| 0 <= i < first.len() && first[i] == b;
        let j = choose|j: int| 0 <= j < second.len() && second[j] == a;
        assert(in_order(a, b)) by {
            if i > 0 {
                assert(in_order(first[0], first[i]));
            } else {
                lemma_precedes_trichotomy(a, a);
            }
        }
        assert(in_order(b, a)) by {
            if j > 0 {
                assert(in_order(second[0], second[j]));
            } else {
                lemma_precedes_trichotomy(b, b);
            }
        }
        lemma_precedes_trichotomy(a, b);
        assert(same_place(a, b));
        let ka = choose|k: int| 0 <= k < files.len() && files[k] == a;
        let kb = choose|k: int| 0 <= k < files.len() && files[k] == b;
        assert(same_place(files[ka], files[kb]));
        assert(a == b);
        let rest = files.remove(ka);
        assert(first.remove(0) =~= first.drop_first());
        assert(second.remove(0) =~= second.drop_first());
        assert(first.drop_first().to_multiset() == rest.to_multiset());
        assert(second.drop_first().to_multiset() == rest.to_multiset());
        assert forall|i: int, j: int|
            0 <= i < rest.len() && 0 <= j < rest.len() && same_place(
                rest[i],
                rest[j],
            ) implies rest[i] == rest[j] by {
            let fi = if i < ka { i } else { i + 1 };
            let fj = if j < ka { j } else { j + 1 };
            assert(rest[i] == files[fi]);
            assert(rest[j] == files[fj]);
        }
        lemma_sorting_unique(first.drop_first(), second.drop_first(), rest);
        assert(first =~= seq![a] + first.drop_first());
        assert(second =~= seq![b] + second.drop_first());
    }
}

/// Turns a list that descends into the same records ascending.
fn reversed(stack: Vec<FileInformation>) -> (turned: Vec<FileInformation>)
    requires
        descending(records(stack@)),
    ensures
        is_sorting_of(records(turned@), records(stack@)),
{
    let mut stack = stack;
    let ghost full = records(stack@);
    let mut turned: Vec<FileInformation> = Vec::new();
    proof {
        assert(full.take(full.len() as int) =~= full);
        assert(full.skip(full.len() as int) =~= Seq::<Record>::empty());
        assert(records(turned@) =~= Seq::<Record>::empty());
    }
    while stack.len() > 0
        invariant
            stack.len() <= full.len(),
            descending(full),
            records(stack@) == full.take(stack.len() as int),
            ordered(records(turned@)),
            all_in_order(records(turned@), full.take(stack.len() as int)),
            records(turned@).to_multiset() == full.skip(stack.len() as int).to_multiset(),
        decreases stack.len(),
    {
        let ghost before = stack@;
        let ghost n = stack.len() as int;
        let ghost done = records(turned@);
        let file = stack.pop().unwrap();
        proof {
            assert(file@ == full[n - 1]) by {
                assert(records(before)[n - 1] == before[n - 1]@);
                assert(full.take(n)[n - 1] == full[n - 1]);
            }
            lemma_records_take(before, n - 1);
            assert(full.take(n).take(n - 1) =~= full.take(n - 1));
            lemma_records_push(turned@, file);
            lemma_skip_one_less(full, n);
            broadcast use vstd::seq_lib::group_to_multiset_ensures;
            assert forall|i: int, j: int| 0 <= i < j < done.push(file@).len() implies in_order(
                done.push(file@)[i],
                done.push(file@)[j],
            ) by {
                if j == done.len() {
                    assert(in_order(done[i], full.take(n)[n - 1]));
                }
            }
            assert forall|i: int, k: int|
                0 <= i < done.push(file@).len() && 0 <= k < full.take(n - 1).len() implies in_order(
                #[trigger] done.push(file@)[i],
                #[trigger] full.take(n - 1)[k],
            ) by {
                if i == done.len() {
                    assert(in_order(full[n - 1], full[k]));
                } else {
                    assert(in_order(done[i], full.take(n)[k]));
                }
            }
        }
        turned.push(file);
    }
    proof {
        assert(full.skip(0) =~= full);
    }
    turned
}

/// Merges two ordered lists into one.
fn merge(left: Vec<FileInformation>, right: Vec<FileInformation>) -> (merged: Vec<FileInformation>)
    requires
        ordered(records(left@)),
        ordered(records(right@)),
    ensures
        ordered(records(merged@)),
        records(merged@).to_multiset() == records(left@).to_multiset().add(
            records(right@).to_multiset(),
        ),
{
    let mut left = left;
    let mut right = right;
    let ghost lower = records(left@);
    let ghost upper = records(right@);
    let mut stack: Vec<FileInformation> = Vec::new();
    proof {
        assert(lower.take(lower.len() as int) =~= lower);
        assert(upper.take(upper.len() as int) =~= upper);
        assert(lower.skip(lower.len() as int) =~= Seq::<Record>::empty());
        assert(upper.skip(upper.len() as int) =~= Seq::<Record>::empty());
        assert(records(stack@) =~= Seq::<Record>::empty());
        assert(Seq::<Record>::empty().to_multiset() =~= Seq::<Record>::empty().to_multiset().add(
            Seq::<Record>::empty().to_multiset(),
        )) by {
            broadcast use vstd::seq_lib::group_to_multiset_ensures;
            broadcast use vstd::multiset::group_multiset_axioms;

        }
    }
    while left.len() > 0 || right.len() > 0
        invariant
            left.len() <= lower.len(),
            right.len() <= upper.len(),
            ordered(lower),
            ordered(upper),
            records(left@) == lower.take(left.len() as int),
            records(right@) == upper.take(right.len() as int),
            descending(records(stack@)),
            all_in_order(lower.take(left.len() as int), records(stack@)),
            all_in_order(upper.take(right.len() as int), records(stack@)),
            records(stack@).to_multiset() == lower.skip(left.len() as int).to_multiset().add(
                upper.skip(right.len() as int).to_multiset(),
            ),
        decreases left.len() + right.len(),
    {
        let ghost n = left.len() as int;
        let ghost m = right.len() as int;
        let ghost piled = records(stack@);
        let ghost left_before = left@;
        let ghost right_before = right@;
        let from_left = if right.len() == 0 {
            true
        } else if left.len() == 0 {
            false
        } else {
            right[right.len() - 1].precedes(&left[left.len() - 1])
        };
        proof {
            if n > 0 {
                assert(records(left_before)[n - 1] == left_before[n - 1]@);
                assert(lower.take(n)[n - 1] == lower[n - 1]);
            }
            if m > 0 {
                assert(records(right_before)[m - 1] == right_before[m - 1]@);
                assert(upper.take(m)[m - 1] == upper[m - 1]);
            }
        }
        if from_left {
            let file = left.pop().unwrap();
            proof {
                let x = lower[n - 1];
                assert(file@ == x);
                lemma_records_take(left_before, n - 1);
                assert(lower.take(n).take(n - 1) =~= lower.take(n - 1));
                lemma_records_push(stack@, file);
                lemma_skip_one_less(lower, n);
                broadcast use vstd::seq_lib::group_to_multiset_ensures;
                broadcast use vstd::multiset::group_multiset_axioms;
                assert(piled.push(x).to_multiset() =~= lower.skip(n - 1).to_multiset().add(
                    upper.skip(m).to_multiset(),
                ));
                assert forall|i: int, j: int| 0 <= i < j < piled.push(x).len() implies in_order(
                    piled.push(x)[j],
                    piled.push(x)[i],
                ) by {
                    if j == piled.len() {
                        assert(in_order(lower.take(n)[n - 1], piled[i]));
                    }
                }
                assert forall|i: int, k: int|
                    0 <= i < lower.take(n - 1).len() && 0 <= k < piled.push(x).len() implies in_order(
                    #[trigger] lower.take(n - 1)[i],
                    #[trigger] piled.push(x)[k],
                ) by {
                    if k == piled.len() {
                        assert(in_order(lower[i], lower[n - 1]));
                    } else {
                        assert(in_order(lower.take(n)[i], piled[k]));
                    }
                }
                assert forall|i: int, k: int|
                    0 <= i < upper.take(m).len() && 0 <= k < piled.push(x).len() implies in_order(
                    #[trigger] upper.take(m)[i],
                    #[trigger] piled.push(x)[k],
                ) by {
                    if k == piled.len() {
                        lemma_precedes_trichotomy(upper[m - 1], x);
                        assert(in_order(upper[m - 1], x));
                        if i < m - 1 {
                            assert(in_order(upper[i], upper[m - 1]));
                            lemma_in_order_transitive(upper[i], upper[m - 1], x);
                        }
                    } else {
                        assert(in_order(upper.take(m)[i], piled[k]));
                    }
                }
            }
            stack.push(file);
        } else {
            let file = right.pop().unwrap();
            proof {
                let x = upper[m - 1];
                assert(file@ == x);
                lemma_records_take(right_before, m - 1);
                assert(upper.take(m).take(m - 1) =~= upper.take(m - 1));
                lemma_records_push(stack@, file);
                lemma_skip_one_less(upper, m);
                broadcast use vstd::seq_lib::group_to_multiset_ensures;
                broadcast use vstd::multiset::group_multiset_axioms;
                assert(piled.push(x).to_multiset() =~= lower.skip(n).to_multiset().add(
                    upper.skip(m - 1).to_multiset(),
                ));
                assert forall|i: int, j: int| 0 <= i < j < piled.push(x).len() implies in_order(
                    piled.push(x)[j],
                    piled.push(x)[i],
                ) by {
                    if j == piled.len() {
                        assert(in_order(upper.take(m)[m - 1], piled[i]));
                    }
                }
                assert forall|i: int, k: int|
                    0 <= i < upper.take(m - 1).len() && 0 <= k < piled.push(x).len() implies in_order(
                    #[trigger] upper.take(m - 1)[i],
                    #[trigger] piled.push(x)[k],
                ) by {
                    if k == piled.len() {
                        assert(in_order(upper[i], upper[m - 1]));
                    } else {
                        assert(in_order(upper.take(m)[i], piled[k]));
                    }
                }
                assert forall|i: int, k: int|
                    0 <= i < lower.take(n).len() && 0 <= k < piled.push(x).len() implies in_order(
                    #[trigger] lower.take(n)[i],
                    #[trigger] piled.push(x)[k],
                ) by {
                    if k == piled.len() {
                        assert(in_order(lower[n - 1], x));
                        if i < n - 1 {
                            assert(in_order(lower[i], lower[n - 1]));
                            lemma_in_order_transitive(lower[i], lower[n - 1], x);
                        }
                    } else {
                        assert(in_order(lower.take(n)[i], piled[k]));
                    }
                }
            }
            stack.push(file);
        }
    }
    proof {
        assert(lower.skip(0) =~= lower);
        assert(upper.skip(0) =~= upper);
    }
    reversed(stack)
}

/// Sorts the files by timestamp, and by name where timestamps are the same
/// moment. Nothing is added and nothing is lost.
pub fn sort(files: Vec<FileInformation>) -> (sorted: Vec<FileInformation>)
    ensures
        is_sorting_of(records(sorted@), records(files@)),
    decreases files@.len(),
{
    let mut files = files;
    let ghost all = files@;
    if files.len() <= 1 {
        return files;
    }
    let half = files.len() / 2;
    let upper = files.split_off(half);
    proof {
        assert(all =~= files@ + upper@);
        assert(records(all) =~= records(files@) + records(upper@));
        vstd::seq_lib::lemma_multiset_commutative(records(files@), records(upper@));
    }
    let lower = sort(files);
    let upper = sort(upper);
    merge(lower, upper)
}

} // verus!
