//! The table of notes, held in memory, and the questions it answers.

use std::time::SystemTime;
use vstd::prelude::*;
use crate::leaderboard::leaderboard;
use crate::message::{opt_chars, stats_views, texts, ThankYouStats};
use crate::table::{lemma_notes_grow, notes_of, tally, RowView, Table};

verus! {

/// A point in time as the system clock gives it. Nothing in here looks inside.
#[verifier::external_type_specification]
#[verifier::external_body]
pub struct ExSystemTime(std::time::SystemTime);

/// The only failure the table reports: it could not do what was asked.
#[derive(Debug, Clone, Copy, PartialEq, Eq, Structural)]
pub enum StoreError {
    Unavailable,
}

/// One stored note.
#[derive(Debug)]
pub struct Row {
    pub id: i64,
    pub program: String,
    pub note: Option<String>,
    pub created: SystemTime,
}

impl View for Row {
    type V = RowView;

    open spec fn view(&self) -> RowView {
        RowView {
            id: self.id as int,
            program: self.program@,
            note: opt_chars(self.note),
            created: self.created,
        }
    }
}

/// The mathematical values of each row of a list, in order.
pub open spec fn row_views(rows: Seq<Row>) -> Seq<RowView> {
    Seq::new(rows.len(), |i: int| rows[i]@)
}

/// Reads the system clock through `std::time::SystemTime::now`. Nothing is
/// claimed about the time that comes back.
#[verifier::external_body]
fn now() -> SystemTime {
    SystemTime::now()
}

/// The table, held in memory.
pub struct Store {
    ready: bool,
    rows: Vec<Row>,
}

impl View for Store {
    type V = Table;

    closed spec fn view(&self) -> Table {
        Table { ready: self.ready, rows: row_views(self.rows@) }
    }
}

impl Store {
    #[verifier::type_invariant]
    spec fn well_formed(self) -> bool {
        self@.wf()
    }

    /// A store for a database in which the table does not exist yet.
    pub fn new() -> (store: Store)
        ensures
            store@ == Table::absent(),
            store@.wf(),
    {
        let store = Store { ready: false, rows: Vec::new() };
        assert(store@.rows =~= Seq::empty());
        store
    }

    /// Creates the table if it does not exist and leaves it alone if it does.
    /// This never fails and never touches a row.
    pub fn ensure_schema(&mut self) -> (outcome: Result<(), StoreError>)
        ensures
            outcome is Ok,
            final(self)@ == old(self)@.with_schema(),
            final(self)@.wf(),
    {
        proof {
            use_type_invariant(&*self);
        }
        self.ready = true;
        Ok(())
    }

    /// Number of rows in the table.
    pub fn len(&self) -> (n: usize)
        ensures
            n == self@.rows.len(),
    {
        self.rows.len()
    }

    /// The rows of the table, oldest first.
    pub fn rows(&self) -> (rows: &Vec<Row>)
        ensures
            row_views(rows@) == self@.rows,
            self@.wf(),
    {
        proof {
            use_type_invariant(self);
        }
        &self.rows
    }

    /// Inserts one row that is stamped with the time `created`.
    ///
    /// The row is refused, and nothing changes, when the table does not exist
    /// or when no identifier is left for it.
    pub fn insert_at(
        &mut self,
        program: String,
        note: Option<String>,
        created: SystemTime,
    ) -> (outcome: Result<(), StoreError>)
        ensures
            outcome is Ok <==> old(self)@.accepts_row(),
            outcome is Ok ==> final(self)@ == old(self)@.inserted(
                program@,
                opt_chars(note),
                created,
            ),
            outcome is Err ==> final(self)@ == old(self)@,
            final(self)@.wf(),
    {
        proof {
            use_type_invariant(&*self);
        }
        if !self.ready || self.rows.len() as u64 >= i64::MAX as u64 {
            return Err(StoreError::Unavailable);
        }
        let id: i64 = (self.rows.len() as u64 + 1) as i64;
        let ghost before = self@;
        let mut rows: Vec<Row> = Vec::new();
        std::mem::swap(&mut rows, &mut self.rows);
        rows.push(Row { id, program, note, created });
        assert forall|i: int| 0 <= i < rows@.len() implies (#[trigger] rows@[i])@.id == i + 1 by {
            if i < before.rows.len() {
                assert(rows@[i]@ == before.rows[i]);
            }
        }
        self.rows = rows;
        assert(self@.rows =~= before.inserted(program@, opt_chars(note), created).rows);
        Ok(())
    }

    /// Inserts one row, stamped with the current time.
    ///
    /// The row is refused, and nothing changes, when the table does not exist
    /// or when no identifier is left for it. No validation is done here.
    pub fn insert(&mut self, program: String, note: Option<String>) -> (outcome: Result<
        (),
        StoreError,
    >)
        ensures
            outcome is Ok <==> old(self)@.accepts_row(),
            outcome is Ok ==> old(self)@.grown_by(program@, opt_chars(note), final(self)@),
            outcome is Err ==> final(self)@ == old(self)@,
            final(self)@.wf(),
    {
        let created = now();
        self.insert_at(program, note, created)
    }

    /// Number of rows whose tool name is exactly `program`; 0 when the table
    /// does not exist.
    pub fn count_for(&self, program: &str) -> (count: i64)
        ensures
            count == self@.count_for(program@),
    {
        proof {
            use_type_invariant(self);
        }
        let wanted = program.to_owned();
        let mut count: i64 = 0;
        let mut i: usize = 0;
        while i < self.rows.len()
            invariant
                i <= self.rows.len(),
                self.rows.len() <= i64::MAX,
                wanted@ == program@,
                count == tally(self@.rows.take(i as int), program@),
                count <= i,
            decreases self.rows.len() - i,
        {
            assert(self@.rows.take(i + 1).drop_last() =~= self@.rows.take(i as int));
            if self.rows[i].program == wanted {
                count = count + 1;
            }
            i = i + 1;
        }
        assert(self@.rows.take(i as int) =~= self@.rows);
        count
    }

    /// The leaderboard: one entry for each tool with the number of its rows
    /// and of its rows that carry a note, the most thanked first, cut to
    /// `limit` entries. Fails when the table does not exist.
    pub fn stats(&self, limit: usize) -> (outcome: Result<Vec<ThankYouStats>, StoreError>)
        ensures
            outcome is Ok <==> self@.ready,
            outcome matches Ok(list) ==> self@.is_stats(limit as nat, stats_views(list@)),
    {
        if !self.ready {
            return Err(StoreError::Unavailable);
        }
        proof {
            use_type_invariant(self);
        }
        Ok(leaderboard(&self.rows, limit))
    }

    /// The notes left for `program`, oldest first, at most `limit` of them.
    /// Fails when the table does not exist.
    pub fn detail(&self, program: &str, limit: usize) -> (outcome: Result<Vec<String>, StoreError>)
        ensures
            outcome is Ok <==> self@.ready,
            outcome matches Ok(notes) ==> texts(notes@) == self@.detail(program@, limit as nat),
    {
        if !self.ready {
            return Err(StoreError::Unavailable);
        }
        let wanted = program.to_owned();
        let mut notes: Vec<String> = Vec::new();
        let mut i: usize = 0;
        while i < self.rows.len() && notes.len() < limit
            invariant
                i <= self.rows.len(),
                wanted@ == program@,
                notes.len() <= limit,
                texts(notes@) == notes_of(self@.rows.take(i as int), program@),
            decreases self.rows.len() - i,
        {
            assert(self@.rows.take(i + 1).drop_last() =~= self@.rows.take(i as int));
            let row = &self.rows[i];
            if row.program == wanted {
                match &row.note {
                    Some(text) => {
                        let ghost earlier = texts(notes@);
                        notes.push(text.clone());
                        assert(texts(notes@) =~= earlier.push(text@));
                    },
                    None => {},
                }
            }
            i = i + 1;
        }
        proof {
            lemma_notes_grow(self@.rows, program@, i as int);
            if i == self.rows.len() {
                assert(self@.rows.take(i as int) =~= self@.rows);
            }
        }
        Ok(notes)
    }
}

} // verus!
