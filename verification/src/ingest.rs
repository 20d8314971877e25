//! The decisions of a chunked load: which statement to hand to the
//! database next, and what to do when it is accepted or refused.

use vstd::prelude::*;
use crate::insert::{insert_row_sql_batch, insert_text};
use crate::schema::{build_schema, create_table_sql, create_table_text, schema_of, Column, CsvHeader};
use crate::text::{byte_count, byte_len, push_text};

verus! {

/// How far a load has come.
#[derive(Clone, Copy, Debug, PartialEq, Eq, Structural)]
pub enum Phase {
    /// Nothing has been read yet.
    NotStarted,
    /// The columns are known and the statement that creates the table has
    /// been handed out.
    SchemaBuilt,
    /// The table exists and no batch has been handed out yet.
    TableCreated,
    /// At least one batch has been handed out.
    Inserting,
    /// The load has stopped on an error.
    Failed,
    /// Every row has been inserted.
    Completed,
}

/// What the caller reports to the load.
#[derive(Debug)]
pub enum Event {
    /// The header row and the first data row have been read.
    Schema { headers: Vec<String>, sample: Vec<String> },
    /// One more data row has been read.
    Row(Vec<String>),
    /// The source has no more rows.
    EndOfRows,
    /// The database has executed the statement handed out last.
    Accepted,
    /// The database has refused the statement handed out last.
    Rejected,
}

/// What an event stands for.
pub enum EventView {
    Schema { headers: Seq<Seq<char>>, sample: Seq<Seq<char>> },
    Row(Seq<Seq<char>>),
    EndOfRows,
    Accepted,
    Rejected,
}

impl View for Event {
    type V = EventView;

    open spec fn view(&self) -> EventView {
        match self {
            Event::Schema { headers, sample } => EventView::Schema {
                headers: headers.deep_view(),
                sample: sample.deep_view(),
            },
            Event::Row(row) => EventView::Row(row.deep_view()),
            Event::EndOfRows => EventView::EndOfRows,
            Event::Accepted => EventView::Accepted,
            Event::Rejected => EventView::Rejected,
        }
    }
}

/// What the caller is to do next.
#[derive(Clone, Copy, Debug, PartialEq, Eq, Structural)]
pub enum Action {
    /// Execute the current statement, which creates the table, and report
    /// the outcome.
    CreateTable,
    /// Read the next row and report it, or report that there is none.
    ReadRow,
    /// Execute the current statement, which inserts a batch, and report the
    /// outcome.
    Execute,
    /// Write the current statement, which the database refused, to a new
    /// dump file, keep what was inserted before it, and stop.
    Dump,
    /// Make the inserted rows permanent; the load is done.
    Commit,
    /// Stop: no table can be made.
    Abort,
    /// The event has no meaning in this phase; nothing has changed.
    Ignored,
}

/// What a load stands for.
pub struct IngestionView {
    /// The table that is filled.
    pub table: Seq<char>,
    /// The number of rows of a full batch.
    pub batch_size: nat,
    /// Whether every column is typed as text.
    pub force_text: bool,
    pub phase: Phase,
    /// The columns of the table; none before the schema is built.
    pub columns: Seq<Column>,
    /// The rows read and not yet inserted, in the order read.
    pub pending: Seq<Seq<Seq<char>>>,
    /// The statement handed out last.
    pub statement: Seq<char>,
    /// Whether a batch has been handed out and its outcome is not known.
    pub awaiting: bool,
    /// Whether the source has reported its end.
    pub ended: bool,
    /// The number of batches that the database has executed.
    pub batches: nat,
    /// The number of rows in those batches.
    pub rows: nat,
    /// The number of bytes of the statements of those batches.
    pub bytes: nat,
}

/// `n`, or the largest count that fits where `n` is beyond it.
pub open spec fn capped(n: nat) -> nat {
    if n > usize::MAX {
        usize::MAX as nat
    } else {
        n
    }
}

impl IngestionView {
    /// Whether rows are being gathered for the next batch.
    pub open spec fn collecting(self) -> bool {
        self.phase == Phase::TableCreated || (self.phase == Phase::Inserting && !self.awaiting)
    }

    /// The load with its pending rows handed out as a batch.
    pub open spec fn submitted(self) -> IngestionView {
        IngestionView {
            phase: Phase::Inserting,
            awaiting: true,
            statement: insert_text(self.table, self.columns, self.pending),
            ..self
        }
    }

    /// The load after one more row has joined the pending ones or the table
    /// has come to exist: a full batch is handed out, anything less waits
    /// for more rows.
    pub open spec fn gathered(self) -> (IngestionView, Action) {
        if self.pending.len() == self.batch_size {
            (self.submitted(), Action::Execute)
        } else {
            (self, Action::ReadRow)
        }
    }

    /// The load after the database has executed the batch handed out.
    pub open spec fn credited(self) -> IngestionView {
        IngestionView {
            awaiting: false,
            pending: Seq::empty(),
            batches: capped(self.batches + 1),
            rows: capped(self.rows + self.pending.len()),
            bytes: capped(self.bytes + byte_len(self.statement)),
            ..self
        }
    }

    /// What holds of every load that `Ingestion::new` and `Ingestion::step`
    /// make: batches have at least one row; before the first batch nothing
    /// is awaited and the source has not ended; while rows are gathered
    /// there are fewer than a batch of them and the source has not ended; a
    /// batch whose outcome is awaited is full, or the last one and not
    /// empty, and the current statement inserts it; before the table exists
    /// the sample row alone is pending and the current statement creates
    /// the table.
    pub open spec fn wf(self) -> bool {
        &&& self.batch_size > 0
        &&& self.phase == Phase::NotStarted || self.phase == Phase::SchemaBuilt || self.phase
            == Phase::TableCreated ==> !self.awaiting && !self.ended
        &&& self.collecting() ==> self.pending.len() < self.batch_size && !self.ended
        &&& self.phase == Phase::Inserting && self.awaiting ==> {
            &&& 0 < self.pending.len() <= self.batch_size
            &&& self.pending.len() == self.batch_size || self.ended
            &&& self.statement == insert_text(self.table, self.columns, self.pending)
        }
        &&& self.phase == Phase::SchemaBuilt ==> {
            &&& self.pending.len() == 1
            &&& self.statement == create_table_text(self.table, self.columns)
        }
    }

    /// The load and the action after the event `e`.
    pub open spec fn step(self, e: EventView) -> (IngestionView, Action) {
        match self.phase {
            Phase::NotStarted => match e {
                EventView::Schema { headers, sample } => if headers.len() > sample.len() {
                    (IngestionView { phase: Phase::Failed, ..self }, Action::Abort)
                } else {
                    let columns = schema_of(headers, sample, self.force_text);
                    (
                        IngestionView {
                            phase: Phase::SchemaBuilt,
                            columns,
                            pending: seq![sample],
                            statement: create_table_text(self.table, columns),
                            ..self
                        },
                        Action::CreateTable,
                    )
                },
                _ => (self, Action::Ignored),
            },
            Phase::SchemaBuilt => match e {
                EventView::Accepted => (IngestionView { phase: Phase::TableCreated, ..self }).gathered(),
                EventView::Rejected => (IngestionView { phase: Phase::Failed, ..self }, Action::Abort),
                _ => (self, Action::Ignored),
            },
            Phase::TableCreated | Phase::Inserting => if self.awaiting {
                match e {
                    EventView::Accepted => if self.ended {
                        (IngestionView { phase: Phase::Completed, ..self.credited() }, Action::Commit)
                    } else {
                        (self.credited(), Action::ReadRow)
                    },
                    EventView::Rejected => (IngestionView { phase: Phase::Failed, ..self }, Action::Dump),
                    _ => (self, Action::Ignored),
                }
            } else {
                match e {
                    EventView::Row(row) => (IngestionView {
                        pending: self.pending.push(row),
                        ..self
                    }).gathered(),
                    EventView::EndOfRows => if self.pending.len() > 0 {
                        ((IngestionView { ended: true, ..self }).submitted(), Action::Execute)
                    } else {
                        (
                            IngestionView { phase: Phase::Completed, ended: true, ..self },
                            Action::Commit,
                        )
                    },
                    _ => (self, Action::Ignored),
                }
            },
            Phase::Failed | Phase::Completed => (self, Action::Ignored),
        }
    }
}

/// Every step takes a well-formed load to a well-formed load.
pub proof fn lemma_step_keeps_wf(s: IngestionView, e: EventView)
    requires
        s.wf(),
    ensures
        s.step(e).0.wf(),
{
}

/// The state of one load.
#[derive(Debug)]
pub struct Ingestion {
    table: String,
    batch_size: usize,
    force_text: bool,
    phase: Phase,
    headers: Vec<CsvHeader>,
    pending: Vec<Vec<String>>,
    statement: String,
    awaiting: bool,
    ended: bool,
    batches: usize,
    rows: usize,
    bytes: usize,
}

impl View for Ingestion {
    type V = IngestionView;

    closed spec fn view(&self) -> IngestionView {
        IngestionView {
            table: self.table@,
            batch_size: self.batch_size as nat,
            force_text: self.force_text,
            phase: self.phase,
            columns: self.headers.deep_view(),
            pending: self.pending.deep_view(),
            statement: self.statement@,
            awaiting: self.awaiting,
            ended: self.ended,
            batches: self.batches as nat,
            rows: self.rows as nat,
            bytes: self.bytes as nat,
        }
    }
}

/// `a + b`, or the largest count where the sum is beyond it.
pub fn add_capped(a: usize, b: usize) -> (sum: usize)
    ensures
        sum == capped((a + b) as nat),
{
    if a > usize::MAX - b {
        usize::MAX
    } else {
        a + b
    }
}

impl Ingestion {
    /// A load into `table` that has not started, with batches of
    /// `batch_size` rows.
    pub fn new(table: String, batch_size: usize, force_text: bool) -> (load: Self)
        requires
            batch_size > 0,
        ensures
            load@ == (IngestionView {
                table: table@,
                batch_size: batch_size as nat,
                force_text,
                phase: Phase::NotStarted,
                columns: Seq::empty(),
                pending: Seq::empty(),
                statement: Seq::empty(),
                awaiting: false,
                ended: false,
                batches: 0,
                rows: 0,
                bytes: 0,
            }),
            load@.wf(),
    {
        let load = Ingestion {
            table,
            batch_size,
            force_text,
            phase: Phase::NotStarted,
            headers: Vec::new(),
            pending: Vec::new(),
            statement: String::new(),
            awaiting: false,
            ended: false,
            batches: 0,
            rows: 0,
            bytes: 0,
        };
        proof {
            assert(load.headers.deep_view() =~= Seq::empty());
            assert(load.pending.deep_view() =~= Seq::empty());
        }
        load
    }

    /// Hands out the pending rows as a batch.
    fn submit(&mut self)
        ensures
            final(self)@ == old(self)@.submitted(),
    {
        insert_row_sql_batch(
            &mut self.statement,
            self.table.as_str(),
            self.headers.as_slice(),
            self.pending.as_slice(),
        );
        self.phase = Phase::Inserting;
        self.awaiting = true;
    }

    /// Hands out a full batch, or asks for more rows.
    fn gather(&mut self) -> (action: Action)
        ensures
            (final(self)@, action) == old(self)@.gathered(),
    {
        if self.pending.len() == self.batch_size {
            self.submit();
            Action::Execute
        } else {
            Action::ReadRow
        }
    }

    /// Takes the event `event` and says what to do next.
    pub fn step(&mut self, event: Event) -> (action: Action)
        ensures
            (final(self)@, action) == old(self)@.step(event@),
            old(self)@.wf() ==> final(self)@.wf(),
    {
        proof {
            if self@.wf() {
                lemma_step_keeps_wf(self@, event@);
            }
        }
        match self.phase {
            Phase::NotStarted => match event {
                Event::Schema { headers, sample } => {
                    match build_schema(&headers, &sample, self.force_text) {
                        Err(_) => {
                            self.phase = Phase::Failed;
                            Action::Abort
                        },
                        Ok(cols) => {
                            self.statement = create_table_sql(self.table.as_str(), cols.as_slice());
                            self.headers = cols;
                            self.pending.clear();
                            self.pending.push(sample);
                            proof {
                                assert(self.pending.deep_view() =~= seq![sample.deep_view()]);
                            }
                            self.phase = Phase::SchemaBuilt;
                            Action::CreateTable
                        },
                    }
                },
                _ => Action::Ignored,
            },
            Phase::SchemaBuilt => match event {
                Event::Accepted => {
                    self.phase = Phase::TableCreated;
                    self.gather()
                },
                Event::Rejected => {
                    self.phase = Phase::Failed;
                    Action::Abort
                },
                _ => Action::Ignored,
            },
            Phase::TableCreated | Phase::Inserting => {
                if self.awaiting {
                    match event {
                        Event::Accepted => {
                            self.batches = add_capped(self.batches, 1);
                            self.rows = add_capped(self.rows, self.pending.len());
                            self.bytes = add_capped(self.bytes, byte_count(self.statement.as_str()));
                            self.pending.clear();
                            self.awaiting = false;
                            proof {
                                assert(self.pending.deep_view() =~= Seq::empty());
                            }
                            if self.ended {
                                self.phase = Phase::Completed;
                                Action::Commit
                            } else {
                                Action::ReadRow
                            }
                        },
                        Event::Rejected => {
                            self.phase = Phase::Failed;
                            Action::Dump
                        },
                        _ => Action::Ignored,
                    }
                } else {
                    match event {
                        Event::Row(row) => {
                            let ghost before = self.pending.deep_view();
                            self.pending.push(row);
                            proof {
                                assert(self.pending.deep_view() =~= before.push(row.deep_view()));
                            }
                            self.gather()
                        },
                        Event::EndOfRows => {
                            self.ended = true;
                            if self.pending.len() > 0 {
                                self.submit();
                                Action::Execute
                            } else {
                                self.phase = Phase::Completed;
                                Action::Commit
                            }
                        },
                        _ => Action::Ignored,
                    }
                }
            },
            Phase::Failed | Phase::Completed => Action::Ignored,
        }
    }

    /// How far the load has come.
    pub fn phase(&self) -> (phase: Phase)
        ensures
            phase == self@.phase,
    {
        self.phase
    }

    /// The statement handed out last.
    pub fn statement(&self) -> (sql: &str)
        ensures
            sql@ == self@.statement,
    {
        self.statement.as_str()
    }

    /// The columns of the table.
    pub fn headers(&self) -> (cols: &[CsvHeader])
        ensures
            cols.deep_view() == self@.columns,
    {
        self.headers.as_slice()
    }

    /// The number of batches that the database has executed.
    pub fn batches(&self) -> (n: usize)
        ensures
            n == self@.batches,
    {
        self.batches
    }

    /// The number of rows that the database has inserted.
    pub fn inserted_rows(&self) -> (n: usize)
        ensures
            n == self@.rows,
    {
        self.rows
    }

    /// The number of bytes of the statements that the database has
    /// executed for them.
    pub fn inserted_bytes(&self) -> (n: usize)
        ensures
            n == self@.bytes,
    {
        self.bytes
    }
}

/// The name of the dump file for a failure at the time `timestamp`.
pub fn dump_file_name(timestamp: &str) -> (name: String)
    ensures
        name@ == "csvtosql_error_"@ + timestamp@ + ".sql"@,
{
    let mut name = String::new();
    push_text(&mut name, "csvtosql_error_");
    push_text(&mut name, timestamp);
    push_text(&mut name, ".sql");
    name
}

} // verus!
