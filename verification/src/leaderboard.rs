//! How the leaderboard is computed: the rows are gathered into one group
//! for each tool, and the groups are put in the order of their counts.

use vstd::prelude::*;
use crate::message::{stats_views, StatsView, ThankYouStats};
use crate::store::{row_views, Row};
use crate::table::{has_entry, lemma_tally_bounds, tally, tally_noted, RowView, Table};

verus! {

/// The tools of `rows` under `names`, each once, with their counts beside them.
spec fn grouped(rows: Seq<RowView>, names: Seq<String>, counts: Seq<i64>, noted: Seq<i64>) -> bool {
    &&& names.len() == counts.len()
    &&& names.len() == noted.len()
    &&& forall|k: int|
        0 <= k < names.len() ==> {
            &&& tally(rows, (#[trigger] names[k])@) > 0
            &&& tally(rows, names[k]@) == counts[k]
            &&& tally_noted(rows, names[k]@) == noted[k]
        }
    &&& forall|k: int, l: int|
        0 <= k < l < names.len() ==> (#[trigger] names[k])@ != (#[trigger] names[l])@
    &&& forall|program: Seq<char>|
        #![trigger tally(rows, program)]
        tally(rows, program) > 0 ==> exists|k: int|
            0 <= k < names.len() && (#[trigger] names[k])@ == program
}

/// The entry that stands for group `k`.
spec fn group_entry(names: Seq<String>, counts: Seq<i64>, noted: Seq<i64>, k: int) -> StatsView {
    StatsView { program: names[k]@, count: counts[k] as int, note_count: noted[k] as int }
}

/// Whether group `group` has a place in `order`.
spec fn placed(order: Seq<int>, group: int) -> bool {
    exists|j: int| 0 <= j < order.len() && #[trigger] order[j] == group
}

/// `list` holds the groups in the order that `order` gives, each exactly once,
/// with counts that never rise.
spec fn ranked(
    names: Seq<String>,
    counts: Seq<i64>,
    noted: Seq<i64>,
    list: Seq<ThankYouStats>,
    order: Seq<int>,
    done: int,
) -> bool {
    &&& list.len() == done
    &&& order.len() == done
    &&& forall|j: int|
        0 <= j < done ==> 0 <= (#[trigger] order[j]) < done && list[j]@ == group_entry(
            names,
            counts,
            noted,
            order[j],
        )
    &&& forall|i: int, j: int| 0 <= i < j < done ==> (#[trigger] order[i]) != (#[trigger] order[j])
    &&& forall|group: int| 0 <= group < done ==> #[trigger] placed(order, group)
    &&& forall|i: int, j: int|
        0 <= i <= j < done ==> (#[trigger] list[i]).count >= (#[trigger] list[j]).count
}

/// Index of the group named `program`, if there is one.
fn group_of(names: &Vec<String>, program: &String) -> (found: Option<usize>)
    ensures
        match found {
            Some(k) => k < names.len() && names[k as int]@ == program@,
            None => forall|k: int| 0 <= k < names.len() ==> (#[trigger] names[k])@ != program@,
        },
{
    let mut k: usize = 0;
    while k < names.len()
        invariant
            k <= names.len(),
            forall|l: int| 0 <= l < k ==> (#[trigger] names[l])@ != program@,
        decreases names.len() - k,
    {
        if names[k] == *program {
            return Some(k);
        }
        k = k + 1;
    }
    None
}

/// The tools of the table, each once, with the number of their rows and
/// of their rows that carry a note.
fn groups(rows: &Vec<Row>) -> (found: (Vec<String>, Vec<i64>, Vec<i64>))
    requires
        rows.len() <= i64::MAX,
    ensures
        grouped(row_views(rows@), found.0@, found.1@, found.2@),
{
    let ghost all = row_views(rows@);
    let mut names: Vec<String> = Vec::new();
    let mut counts: Vec<i64> = Vec::new();
    let mut noted: Vec<i64> = Vec::new();
    let mut i: usize = 0;
    while i < rows.len()
        invariant
            i <= rows.len(),
            rows.len() <= i64::MAX,
            all == row_views(rows@),
            grouped(all.take(i as int), names@, counts@, noted@),
        decreases rows.len() - i,
    {
        let ghost seen = all.take(i as int);
        let ghost next = all.take(i + 1);
        let row = &rows[i];
        proof {
            assert(next.drop_last() =~= seen);
            assert(next.last() == row@);
            assert forall|k: int| 0 <= k < names.len() implies counts[k] <= i && noted[k]
                <= i by {
                lemma_tally_bounds(seen, (#[trigger] names[k])@);
            }
        }
        let carries: i64 = if row.note.is_some() {
            1
        } else {
            0
        };
        match group_of(&names, &row.program) {
            Some(k) => {
                let count = counts[k] + 1;
                let with_note = noted[k] + carries;
                let ghost counts_before = counts@;
                let ghost noted_before = noted@;
                counts.set(k, count);
                noted.set(k, with_note);
                proof {
                    assert forall|l: int| 0 <= l < names.len() implies {
                        &&& tally(next, (#[trigger] names[l])@) > 0
                        &&& tally(next, names[l]@) == counts[l]
                        &&& tally_noted(next, names[l]@) == noted[l]
                    } by {
                        if l != k {
                            assert(names[l]@ != names[k as int]@);
                            assert(counts[l] == counts_before[l]);
                            assert(noted[l] == noted_before[l]);
                        }
                    }
                    assert forall|program: Seq<char>|
                        #![trigger tally(next, program)]
                        tally(next, program) > 0 implies exists|l: int|
                        0 <= l < names.len() && (#[trigger] names[l])@ == program by {
                        if program == row.program@ {
                            assert(names[k as int]@ == program);
                        } else {
                            assert(tally(seen, program) > 0);
                        }
                    }
                }
            },
            None => {
                let ghost names_before = names@;
                proof {
                    if tally(seen, row.program@) > 0 {
                        let l = choose|l: int|
                            0 <= l < names.len() && (#[trigger] names[l])@ == row.program@;
                        assert(false);
                    }
                    lemma_tally_bounds(seen, row.program@);
                }
                let ghost counts_before = counts@;
                let ghost noted_before = noted@;
                names.push(row.program.clone());
                counts.push(1);
                noted.push(carries);
                proof {
                    assert forall|l: int| 0 <= l < names.len() implies {
                        &&& tally(next, (#[trigger] names[l])@) > 0
                        &&& tally(next, names[l]@) == counts[l]
                        &&& tally_noted(next, names[l]@) == noted[l]
                    } by {
                        if l < names_before.len() {
                            assert(names[l] == names_before[l]);
                            assert(names_before[l]@ != row.program@);
                            assert(counts[l] == counts_before[l]);
                            assert(noted[l] == noted_before[l]);
                        } else {
                            assert(tally(seen, row.program@) == 0);
                            assert(tally_noted(seen, row.program@) == 0);
                        }
                    }
                    assert forall|a: int, b: int| 0 <= a < b < names.len() implies (
                    #[trigger] names[a])@ != (#[trigger] names[b])@ by {
                        if b < names_before.len() {
                            assert(names[a] == names_before[a] && names[b] == names_before[b]);
                        } else {
                            assert(names[a] == names_before[a]);
                        }
                    }
                    assert forall|program: Seq<char>|
                        #![trigger tally(next, program)]
                        tally(next, program) > 0 implies exists|l: int|
                        0 <= l < names.len() && (#[trigger] names[l])@ == program by {
                        if program == row.program@ {
                            assert(names[names.len() - 1]@ == program);
                        } else {
                            assert(tally(seen, program) > 0);
                            let l = choose|l: int|
                                0 <= l < names_before.len() && (#[trigger] names_before[l])@
                                    == program;
                            assert(names[l]@ == program);
                        }
                    }
                }
            },
        }
        i = i + 1;
    }
    assert(all.take(i as int) =~= all);
    (names, counts, noted)
}

/// Index of the first entry of `list` whose count is below `count`.
fn rank_of(list: &Vec<ThankYouStats>, count: i64) -> (at: usize)
    requires
        forall|i: int, j: int|
            0 <= i <= j < list.len() ==> (#[trigger] list[i]).count >= (#[trigger] list[j]).count,
    ensures
        at <= list.len(),
        forall|j: int| 0 <= j < at ==> (#[trigger] list[j]).count >= count,
        forall|j: int| at <= j < list.len() ==> (#[trigger] list[j]).count < count,
{
    let mut at: usize = 0;
    while at < list.len() && list[at].count >= count
        invariant
            at <= list.len(),
            forall|j: int| 0 <= j < at ==> (#[trigger] list[j]).count >= count,
        decreases list.len() - at,
    {
        at = at + 1;
    }
    at
}

/// Puts the groups in the order of their counts, the largest first.
fn rank(names: &Vec<String>, counts: &Vec<i64>, noted: &Vec<i64>) -> (ranking: (
    Vec<ThankYouStats>,
    Ghost<Seq<int>>,
))
    requires
        names.len() == counts.len(),
        names.len() == noted.len(),
    ensures
        ranked(names@, counts@, noted@, ranking.0@, ranking.1@, names.len() as int),
{
    let mut list: Vec<ThankYouStats> = Vec::new();
    let ghost mut order: Seq<int> = Seq::empty();
    let mut k: usize = 0;
    while k < names.len()
        invariant
            k <= names.len(),
            names.len() == counts.len(),
            names.len() == noted.len(),
            ranked(names@, counts@, noted@, list@, order, k as int),
        decreases names.len() - k,
    {
        let entry = ThankYouStats {
            program: names[k].clone(),
            count: counts[k],
            note_count: noted[k],
        };
        let at = rank_of(&list, entry.count);
        let ghost earlier = list@;
        let ghost earlier_order = order;
        list.insert(at, entry);
        proof {
            order = earlier_order.insert(at as int, k as int);
            earlier.insert_ensures(at as int, entry);
            earlier_order.insert_ensures(at as int, k as int);
            assert forall|j: int| 0 <= j < k + 1 implies 0 <= (#[trigger] order[j]) < k + 1
                && list@[j]@ == group_entry(names@, counts@, noted@, order[j]) by {
                if j > at {
                    assert(order[j] == earlier_order[j - 1]);
                    assert(list@[j] == earlier[j - 1]);
                }
            }
            assert forall|i: int, j: int| 0 <= i < j < k + 1 implies (#[trigger] order[i]) != (
            #[trigger] order[j]) by {
                if i > at {
                    assert(order[i] == earlier_order[i - 1]);
                }
                if j > at {
                    assert(order[j] == earlier_order[j - 1]);
                }
            }
            assert forall|group: int| 0 <= group < k + 1 implies #[trigger] placed(
                order,
                group,
            ) by {
                if group == k {
                    assert(order[at as int] == group);
                } else {
                    assert(placed(earlier_order, group));
                    let j = choose|j: int|
                        0 <= j < earlier_order.len() && #[trigger] earlier_order[j] == group;
                    if j < at {
                        assert(order[j] == group);
                    } else {
                        assert(order[j + 1] == earlier_order[j]);
                    }
                }
            }
            assert forall|i: int, j: int| 0 <= i <= j < k + 1 implies (#[trigger] list@[i]).count >= (
            #[trigger] list@[j]).count by {
                if i > at {
                    assert(list@[i] == earlier[i - 1]);
                }
                if j > at {
                    assert(list@[j] == earlier[j - 1]);
                }
            }
        }
        k = k + 1;
    }
    (list, Ghost(order))
}

/// The leaderboard of `rows`, cut to `limit` entries.
pub(crate) fn leaderboard(rows: &Vec<Row>, limit: usize) -> (list: Vec<ThankYouStats>)
    requires
        rows.len() <= i64::MAX,
    ensures
        (Table { ready: true, rows: row_views(rows@) }).is_stats(
            limit as nat,
            stats_views(list@),
        ),
{
    let (names, counts, noted) = groups(rows);
    let (mut list, Ghost(order)) = rank(&names, &counts, &noted);
    let ghost full = list@;
    list.truncate(limit);
    proof {
        let table = Table { ready: true, rows: row_views(rows@) };
        let kept = stats_views(list@);
        assert forall|i: int| 0 <= i < kept.len() implies table.summarises(
            #[trigger] kept[i],
        ) by {
            assert(list@[i] == full[i]);
            assert(full[i]@ == group_entry(names@, counts@, noted@, order[i]));
        }
        assert forall|i: int, j: int| 0 <= i < j < kept.len() implies (#[trigger] kept[i]).program
            != (#[trigger] kept[j]).program by {
            assert(list@[i] == full[i] && list@[j] == full[j]);
            assert(full[i]@ == group_entry(names@, counts@, noted@, order[i]));
            assert(full[j]@ == group_entry(names@, counts@, noted@, order[j]));
            assert(order[i] != order[j]);
        }
        assert forall|i: int, j: int| 0 <= i <= j < kept.len() implies (#[trigger] kept[i]).count
            >= (#[trigger] kept[j]).count by {
            assert(list@[i] == full[i] && list@[j] == full[j]);
            assert(full[i].count >= full[j].count);
        }
        assert forall|program: Seq<char>|
            #![trigger tally(table.rows, program)]
            tally(table.rows, program) > 0 implies has_entry(kept, program) || (kept.len()
            == limit && forall|i: int|
            0 <= i < kept.len() ==> (#[trigger] kept[i]).count >= tally(
                table.rows,
                program,
            )) by {
            let k = choose|k: int| 0 <= k < names.len() && (#[trigger] names[k])@ == program;
            assert(placed(order, k));
            let j = choose|j: int| 0 <= j < order.len() && #[trigger] order[j] == k;
            assert(full[j]@ == group_entry(names@, counts@, noted@, order[j]));
            if j < kept.len() {
                assert(list@[j] == full[j]);
                assert(kept[j].program == program);
            } else {
                assert forall|i: int| 0 <= i < kept.len() implies (#[trigger] kept[i]).count
                    >= tally(table.rows, program) by {
                    assert(list@[i] == full[i]);
                    assert(full[i].count >= full[j].count);
                }
            }
        }
    }
    list
}

} // verus!
