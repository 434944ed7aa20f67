//! The table of notes as a mathematical value, and what holds of it.
//!
//! The table is the sequence of its rows in the order in which they were
//! inserted. Rows are never changed or removed, so the row at position `i`
//! carries the identifier `i + 1`.

use std::time::SystemTime;
use vstd::prelude::*;
use crate::message::StatsView;

verus! {

/// What a `Row` holds, as mathematical values.
pub struct RowView {
    pub id: int,
    pub program: Seq<char>,
    pub note: Option<Seq<char>>,
    pub created: SystemTime,
}

/// The mathematical model of the table: whether it has been created, and its rows.
pub struct Table {
    pub ready: bool,
    pub rows: Seq<RowView>,
}

/// How many of `rows` belong to `program`.
pub open spec fn tally(rows: Seq<RowView>, program: Seq<char>) -> nat
    decreases rows.len(),
{
    if rows.len() == 0 {
        0
    } else {
        tally(rows.drop_last(), program) + if rows.last().program == program {
            1nat
        } else {
            0nat
        }
    }
}

/// How many of `rows` belong to `program` and carry a note.
pub open spec fn tally_noted(rows: Seq<RowView>, program: Seq<char>) -> nat
    decreases rows.len(),
{
    if rows.len() == 0 {
        0
    } else {
        tally_noted(rows.drop_last(), program) + if rows.last().program == program
            && rows.last().note is Some {
            1nat
        } else {
            0nat
        }
    }
}

/// The notes that the rows of `program` carry, in the order of the rows.
pub open spec fn notes_of(rows: Seq<RowView>, program: Seq<char>) -> Seq<Seq<char>>
    decreases rows.len(),
{
    if rows.len() == 0 {
        Seq::empty()
    } else {
        let earlier = notes_of(rows.drop_last(), program);
        match rows.last().note {
            Some(text) => if rows.last().program == program {
                earlier.push(text)
            } else {
                earlier
            },
            None => earlier,
        }
    }
}

/// Whether `list` has an entry for `program`.
pub open spec fn has_entry(list: Seq<StatsView>, program: Seq<char>) -> bool {
    exists|i: int| 0 <= i < list.len() && (#[trigger] list[i]).program == program
}

/// The first `limit` entries of `list`, or all of them if there are fewer.
pub open spec fn capped<A>(list: Seq<A>, limit: nat) -> Seq<A> {
    if list.len() > limit {
        list.take(limit as int)
    } else {
        list
    }
}

impl Table {
    /// A database in which the table has not been created yet.
    pub open spec fn absent() -> Table {
        Table { ready: false, rows: Seq::empty() }
    }

    /// What holds of every table that the operations below can produce.
    pub open spec fn wf(self) -> bool {
        &&& !self.ready ==> self.rows.len() == 0
        &&& self.rows.len() <= i64::MAX
        &&& forall|i: int| 0 <= i < self.rows.len() ==> (#[trigger] self.rows[i]).id == i + 1
    }

    /// The table after it has been created if it was absent.
    pub open spec fn with_schema(self) -> Table {
        Table { ready: true, rows: self.rows }
    }

    /// Whether one more row can be taken: the table exists and an identifier is left.
    pub open spec fn accepts_row(self) -> bool {
        self.ready && self.rows.len() < i64::MAX
    }

    /// The table after one more row has been inserted at time `created`.
    pub open spec fn inserted(
        self,
        program: Seq<char>,
        note: Option<Seq<char>>,
        created: SystemTime,
    ) -> Table {
        Table {
            ready: self.ready,
            rows: self.rows.push(
                RowView { id: self.rows.len() as int + 1, program, note, created },
            ),
        }
    }

    /// Whether `after` is this table with one more row for `program` that
    /// carries `note`, whatever the time of the row.
    pub open spec fn grown_by(self, program: Seq<char>, note: Option<Seq<char>>, after: Table) -> bool {
        exists|created: SystemTime| after == self.inserted(program, note, created)
    }

    /// How many rows belong to `program`.
    pub open spec fn count_for(self, program: Seq<char>) -> nat {
        tally(self.rows, program)
    }

    /// The notes left for `program`, oldest first, at most `limit` of them.
    pub open spec fn detail(self, program: Seq<char>, limit: nat) -> Seq<Seq<char>> {
        capped(notes_of(self.rows, program), limit)
    }

    /// Whether `entry` names a tool of the table and gives its two counts.
    pub open spec fn summarises(self, entry: StatsView) -> bool {
        &&& entry.count > 0
        &&& entry.count == tally(self.rows, entry.program)
        &&& entry.note_count == tally_noted(self.rows, entry.program)
    }

    /// Whether `list` is a leaderboard of the table, cut to `limit` entries:
    /// one entry for each tool with its counts, the most thanked first, and
    /// where entries had to be left out, none of them outranks one that stayed.
    /// Tools with the same count may stand in either order.
    pub open spec fn is_stats(self, limit: nat, list: Seq<StatsView>) -> bool {
        &&& list.len() <= limit
        &&& forall|i: int| 0 <= i < list.len() ==> self.summarises(#[trigger] list[i])
        &&& forall|i: int, j: int|
            0 <= i < j < list.len() ==> (#[trigger] list[i]).program != (#[trigger] list[j]).program
        &&& forall|i: int, j: int|
            0 <= i <= j < list.len() ==> (#[trigger] list[i]).count >= (#[trigger] list[j]).count
        &&& forall|program: Seq<char>|
            #![trigger tally(self.rows, program)]
            tally(self.rows, program) > 0 ==> has_entry(list, program) || (list.len() == limit
                && forall|i: int|
                0 <= i < list.len() ==> (#[trigger] list[i]).count >= tally(self.rows, program))
    }
}

/// No tool has more rows than the table, and no more rows with a note than rows.
pub proof fn lemma_tally_bounds(rows: Seq<RowView>, program: Seq<char>)
    ensures
        tally_noted(rows, program) <= tally(rows, program) <= rows.len(),
    decreases rows.len(),
{
    if rows.len() > 0 {
        lemma_tally_bounds(rows.drop_last(), program);
    }
}

/// Every table that the operations produce is well formed: creating the
/// table and inserting a row keep it so.
pub proof fn law_well_formed(
    table: Table,
    program: Seq<char>,
    note: Option<Seq<char>>,
    created: SystemTime,
)
    requires
        table.wf(),
    ensures
        Table::absent().wf(),
        table.with_schema().wf(),
        table.accepts_row() ==> table.inserted(program, note, created).wf(),
{
}

/// Creating the table a second time changes nothing, and creating it never
/// touches a row.
pub proof fn law_schema_setup_idempotent(table: Table)
    ensures
        table.with_schema().rows == table.rows,
        table.with_schema().with_schema() == table.with_schema(),
        table.with_schema().ready,
{
}

/// A row that is inserted for `program` raises the count of that tool by
/// one and leaves the count of every other tool as it was. Its note, if it
/// has one, is counted and listed last among the notes of the tool.
pub proof fn law_insert_counts(
    table: Table,
    program: Seq<char>,
    note: Option<Seq<char>>,
    created: SystemTime,
    other: Seq<char>,
)
    ensures
        ({
            let after = table.inserted(program, note, created);
            &&& after.count_for(program) == table.count_for(program) + 1
            &&& other != program ==> {
                &&& after.count_for(other) == table.count_for(other)
                &&& tally_noted(after.rows, other) == tally_noted(table.rows, other)
                &&& notes_of(after.rows, other) == notes_of(table.rows, other)
            }
            &&& match note {
                Some(text) => {
                    &&& tally_noted(after.rows, program) == tally_noted(table.rows, program) + 1
                    &&& notes_of(after.rows, program) == notes_of(table.rows, program).push(text)
                },
                None => {
                    &&& tally_noted(after.rows, program) == tally_noted(table.rows, program)
                    &&& notes_of(after.rows, program) == notes_of(table.rows, program)
                },
            }
        }),
{
    let after = table.inserted(program, note, created);
    assert(after.rows.drop_last() =~= table.rows);
}

/// A tool has as many notes as it has rows that carry one.
pub proof fn law_notes_counted(rows: Seq<RowView>, program: Seq<char>)
    ensures
        notes_of(rows, program).len() == tally_noted(rows, program),
    decreases rows.len(),
{
    if rows.len() > 0 {
        law_notes_counted(rows.drop_last(), program);
    }
}

/// Every note that is listed for a tool is the note of one of its rows.
pub proof fn law_notes_belong(rows: Seq<RowView>, program: Seq<char>, j: int)
    requires
        0 <= j < notes_of(rows, program).len(),
    ensures
        exists|i: int|
            0 <= i < rows.len() && (#[trigger] rows[i]).program == program && rows[i].note == Some(
                notes_of(rows, program)[j],
            ),
    decreases rows.len(),
{
    let earlier = notes_of(rows.drop_last(), program);
    if j < earlier.len() {
        law_notes_belong(rows.drop_last(), program, j);
        let i = choose|i: int|
            0 <= i < rows.drop_last().len() && (#[trigger] rows.drop_last()[i]).program == program
                && rows.drop_last()[i].note == Some(earlier[j]);
        assert(rows[i] == rows.drop_last()[i]);
    } else {
        assert(rows[rows.len() - 1].program == program);
    }
}

/// Every note of a row of the tool is listed for it.
pub proof fn law_notes_complete(rows: Seq<RowView>, program: Seq<char>, i: int)
    requires
        0 <= i < rows.len(),
        rows[i].program == program,
        rows[i].note is Some,
    ensures
        notes_of(rows, program).contains(rows[i].note->0),
    decreases rows.len(),
{
    let earlier = notes_of(rows.drop_last(), program);
    if i < rows.len() - 1 {
        law_notes_complete(rows.drop_last(), program, i);
        let j = choose|j: int| 0 <= j < earlier.len() && earlier[j] == rows[i].note->0;
        assert(notes_of(rows, program)[j] == rows[i].note->0);
    } else {
        assert(notes_of(rows, program)[earlier.len() as int] == rows[i].note->0);
    }
}

/// The notes that are handed out for a tool are its first notes, `limit` of
/// them or all if it has fewer.
pub proof fn law_detail_capped(table: Table, program: Seq<char>, limit: nat)
    ensures
        ({
            let all = notes_of(table.rows, program);
            let handed = table.detail(program, limit);
            &&& handed.len() == if tally_noted(table.rows, program) <= limit {
                tally_noted(table.rows, program)
            } else {
                limit
            }
            &&& forall|j: int| 0 <= j < handed.len() ==> handed[j] == all[j]
        }),
{
    law_notes_counted(table.rows, program);
}

/// The tool names of a list, in order.
pub open spec fn names_of(list: Seq<StatsView>) -> Seq<Seq<char>> {
    Seq::new(list.len(), |i: int| list[i].program)
}

/// Names that all differ and all occur in another list are no more than
/// that list holds.
proof fn lemma_distinct_fit(names: Seq<Seq<char>>, others: Seq<Seq<char>>)
    requires
        names.no_duplicates(),
        forall|i: int| 0 <= i < names.len() ==> others.contains(#[trigger] names[i]),
    ensures
        names.len() <= others.len(),
{
    names.unique_seq_to_set();
    others.lemma_cardinality_of_set();
    vstd::seq_lib::seq_to_set_is_finite(others);
    assert forall|name: Seq<char>| names.to_set().contains(name) implies others.to_set().contains(
        name,
    ) by {
        let i = choose|i: int| 0 <= i < names.len() && names[i] == name;
        assert(others.contains(names[i]));
    }
    vstd::set_lib::lemma_len_subset(names.to_set(), others.to_set());
}

/// Of two leaderboards of one table, cut to one limit, neither is longer.
proof fn lemma_stats_fit(table: Table, limit: nat, list: Seq<StatsView>, other: Seq<StatsView>)
    requires
        table.is_stats(limit, list),
        table.is_stats(limit, other),
    ensures
        list.len() <= other.len(),
{
    if list.len() > other.len() {
        let names = names_of(list);
        let others = names_of(other);
        assert forall|i: int, j: int|
            0 <= i < names.len() && 0 <= j < names.len() && i != j implies names[i] != names[j] by {
            if i < j {
                assert(list[i].program != list[j].program);
            } else {
                assert(list[j].program != list[i].program);
            }
        }
        assert forall|i: int| 0 <= i < names.len() implies others.contains(#[trigger] names[i]) by {
            assert(table.summarises(list[i]));
            assert(tally(table.rows, list[i].program) > 0);
            assert(has_entry(other, list[i].program));
            let j = choose|j: int|
                0 <= j < other.len() && (#[trigger] other[j]).program == list[i].program;
            assert(others[j] == names[i]);
        }
        lemma_distinct_fit(names, others);
    }
}

/// Of two leaderboards of one table, cut to one limit, neither has the
/// larger count at any rank.
proof fn lemma_stats_rank(
    table: Table,
    limit: nat,
    list: Seq<StatsView>,
    other: Seq<StatsView>,
    rank: int,
)
    requires
        table.is_stats(limit, list),
        table.is_stats(limit, other),
        list.len() == other.len(),
        0 <= rank < list.len(),
    ensures
        list[rank].count <= other[rank].count,
{
    if list[rank].count > other[rank].count {
        let names = names_of(list).take(rank + 1);
        let others = names_of(other).take(rank);
        assert forall|i: int, j: int|
            0 <= i < names.len() && 0 <= j < names.len() && i != j implies names[i] != names[j] by {
            if i < j {
                assert(list[i].program != list[j].program);
            } else {
                assert(list[j].program != list[i].program);
            }
        }
        assert forall|i: int| 0 <= i < names.len() implies others.contains(#[trigger] names[i]) by {
            let program = list[i].program;
            assert(table.summarises(list[i]));
            assert(list[i].count >= list[rank].count);
            assert(tally(table.rows, program) > 0);
            assert(table.summarises(other[rank]));
            if has_entry(other, program) {
                let j = choose|j: int|
                    0 <= j < other.len() && (#[trigger] other[j]).program == program;
                assert(table.summarises(other[j]));
                if j >= rank {
                    assert(other[rank].count >= other[j].count);
                }
                assert(others[j] == names[i]);
            } else {
                assert(other[rank].count >= tally(table.rows, program));
            }
        }
        lemma_distinct_fit(names, others);
    }
}

/// A table has one leaderboard for each limit, but for the order of tools
/// that were thanked equally often: any two have the same length and the
/// same count at every rank.
pub proof fn law_stats_agree(
    table: Table,
    limit: nat,
    first: Seq<StatsView>,
    second: Seq<StatsView>,
)
    requires
        table.is_stats(limit, first),
        table.is_stats(limit, second),
    ensures
        first.len() == second.len(),
        forall|rank: int|
            0 <= rank < first.len() ==> (#[trigger] first[rank]).count == second[rank].count,
{
    lemma_stats_fit(table, limit, first, second);
    lemma_stats_fit(table, limit, second, first);
    assert forall|rank: int| 0 <= rank < first.len() implies (#[trigger] first[rank]).count
        == second[rank].count by {
        lemma_stats_rank(table, limit, first, second, rank);
        lemma_stats_rank(table, limit, second, first, rank);
    }
}

/// A tool that was thanked is on the leaderboard whenever the leaderboard
/// has room left, and with the counts of the table.
pub proof fn law_stats_entry(table: Table, limit: nat, list: Seq<StatsView>, program: Seq<char>)
    requires
        table.is_stats(limit, list),
        table.count_for(program) > 0,
        list.len() < limit,
    ensures
        exists|i: int|
            0 <= i < list.len() && #[trigger] list[i] == (StatsView {
                program,
                count: table.count_for(program) as int,
                note_count: tally_noted(table.rows, program) as int,
            }),
{
    assert(has_entry(list, program));
    let i = choose|i: int| 0 <= i < list.len() && (#[trigger] list[i]).program == program;
    assert(table.summarises(list[i]));
}

/// The notes of the first `i` rows are the first notes of all the rows.
pub proof fn lemma_notes_grow(rows: Seq<RowView>, program: Seq<char>, i: int)
    requires
        0 <= i <= rows.len(),
    ensures
        notes_of(rows.take(i), program).len() <= notes_of(rows, program).len(),
        notes_of(rows.take(i), program) == notes_of(rows, program).take(
            notes_of(rows.take(i), program).len() as int,
        ),
    decreases rows.len(),
{
    if i == rows.len() {
        assert(rows.take(i) =~= rows);
        assert(notes_of(rows, program).take(notes_of(rows, program).len() as int) =~= notes_of(
            rows,
            program,
        ));
    } else {
        let shorter = rows.drop_last();
        assert(shorter.take(i) =~= rows.take(i));
        lemma_notes_grow(shorter, program, i);
        let part = notes_of(rows.take(i), program);
        assert(part =~= notes_of(rows, program).take(part.len() as int));
    }
}

} // verus!
