//! What a whole load hands out: one statement for each batch of the rows,
//! and at most one request for a dump.

use vstd::prelude::*;
use crate::batch::{batch, batch_count, lemma_batch_count};
use crate::ingest::{Action, EventView, IngestionView, Phase};
use crate::insert::insert_text;

verus! {

/// The load after a step, once the database has executed the batch that
/// the step handed out, if it handed one out.
pub open spec fn settled(after: (IngestionView, Action)) -> IngestionView {
    if after.1 == Action::Execute {
        after.0.step(EventView::Accepted).0
    } else {
        after.0
    }
}

/// The statement that a step handed out for execution, if any.
pub open spec fn issued(after: (IngestionView, Action)) -> Seq<Seq<char>> {
    if after.1 == Action::Execute {
        seq![after.0.statement]
    } else {
        Seq::empty()
    }
}

impl IngestionView {
    /// The load after the rows `rows` have arrived one by one and the
    /// database has executed every batch handed out on the way.
    pub open spec fn after_rows(self, rows: Seq<Seq<Seq<char>>>) -> IngestionView
        decreases rows.len(),
    {
        if rows.len() == 0 {
            self
        } else {
            settled(self.after_rows(rows.drop_last()).step(EventView::Row(rows.last())))
        }
    }

    /// The statements handed out while the rows `rows` arrive, in order.
    pub open spec fn issued_by_rows(self, rows: Seq<Seq<Seq<char>>>) -> Seq<Seq<char>>
        decreases rows.len(),
    {
        if rows.len() == 0 {
            Seq::empty()
        } else {
            self.issued_by_rows(rows.drop_last()) + issued(
                self.after_rows(rows.drop_last()).step(EventView::Row(rows.last())),
            )
        }
    }

    /// The statements handed out from the creation of the table to the end
    /// of the source, where the rows `rows` arrive in between and the
    /// database executes every statement.
    pub open spec fn issued_by_load(self, rows: Seq<Seq<Seq<char>>>) -> Seq<Seq<char>> {
        let created = self.step(EventView::Accepted);
        let gathered = settled(created);
        issued(created) + gathered.issued_by_rows(rows) + issued(
            gathered.after_rows(rows).step(EventView::EndOfRows),
        )
    }

    /// The load at the end of the same run.
    pub open spec fn after_load(self, rows: Seq<Seq<Seq<char>>>) -> IngestionView {
        settled(settled(self.step(EventView::Accepted)).after_rows(rows).step(EventView::EndOfRows))
    }
}

/// A load that has failed or is complete stays as it is: every event is
/// ignored.
pub proof fn lemma_stopped_load_ignores(s: IngestionView, e: EventView)
    requires
        s.phase == Phase::Failed || s.phase == Phase::Completed,
    ensures
        s.step(e) == (s, Action::Ignored),
{
}

/// A dump is asked for exactly when the database refuses a batch. The load
/// has then failed, and the statement to dump is the one that was handed
/// out for that batch. With `lemma_stopped_load_ignores`: a load asks for
/// at most one dump.
pub proof fn lemma_dump_follows_refused_batch(s: IngestionView, e: EventView)
    requires
        s.wf(),
    ensures
        s.step(e).1 == Action::Dump <==> s.phase == Phase::Inserting && s.awaiting && e
            == EventView::Rejected,
        s.step(e).1 == Action::Dump ==> {
            &&& s.step(e).0.phase == Phase::Failed
            &&& s.step(e).0.statement == s.statement
            &&& s.statement == insert_text(s.table, s.columns, s.pending)
        },
{
}

/// One more row at a load that gathers rows: where it fills the batch, the
/// batch is handed out and, once executed, no row is pending; where it does
/// not, nothing is handed out and the row is pending too.
pub proof fn lemma_row_joins_batch(s: IngestionView, row: Seq<Seq<char>>)
    requires
        s.wf(),
        s.collecting(),
    ensures
        ({
            let after = s.step(EventView::Row(row));
            let t = settled(after);
            &&& t.wf()
            &&& t.collecting()
            &&& t.table == s.table
            &&& t.columns == s.columns
            &&& t.batch_size == s.batch_size
            &&& s.pending.len() + 1 == s.batch_size ==> {
                &&& issued(after) == seq![insert_text(s.table, s.columns, s.pending.push(row))]
                &&& t.pending == Seq::<Seq<Seq<char>>>::empty()
            }
            &&& s.pending.len() + 1 != s.batch_size ==> {
                &&& issued(after) == Seq::<Seq<char>>::empty()
                &&& t.pending == s.pending.push(row)
            }
        }),
{
}

/// While rows arrive at a load that gathers rows, each statement handed
/// out inserts the next `batch_size` of the rows that were pending or have
/// arrived, and fewer than `batch_size` rows stay pending.
pub proof fn lemma_rows_fill_batches(s: IngestionView, rows: Seq<Seq<Seq<char>>>)
    requires
        s.wf(),
        s.collecting(),
    ensures
        ({
            let t = s.after_rows(rows);
            let out = s.issued_by_rows(rows);
            let all = s.pending + rows;
            &&& t.wf()
            &&& t.collecting()
            &&& t.table == s.table
            &&& t.columns == s.columns
            &&& t.batch_size == s.batch_size
            &&& out.len() * s.batch_size + t.pending.len() == all.len()
            &&& t.pending == all.skip((out.len() * s.batch_size) as int)
            &&& forall|i: int|
                0 <= i < out.len() ==> #[trigger] out[i] == insert_text(
                    s.table,
                    s.columns,
                    batch(all, s.batch_size, i),
                )
        }),
    decreases rows.len(),
{
    let size = s.batch_size;
    let all = s.pending + rows;
    if rows.len() == 0 {
        assert(all =~= s.pending);
        assert(all.skip(0) =~= all);
    } else {
        let earlier = rows.drop_last();
        let row = rows.last();
        let before = s.pending + earlier;
        lemma_rows_fill_batches(s, earlier);
        let t0 = s.after_rows(earlier);
        let out0 = s.issued_by_rows(earlier);
        lemma_row_joins_batch(t0, row);
        let t = s.after_rows(rows);
        let out = s.issued_by_rows(rows);
        let full = out0.len();
        assert(all =~= before.push(row));
        assert(0 <= full * size) by (nonlinear_arith)
            requires
                full >= 0,
                size > 0,
        ;
        assert forall|i: int| 0 <= i < full implies batch(all, size, i) == batch(
            before,
            size,
            i,
        ) by {
            assert(0 <= i * size && i * size + size <= full * size) by (nonlinear_arith)
                requires
                    0 <= i,
                    i + 1 <= full,
                    size > 0,
            ;
            assert(batch(all, size, i) =~= batch(before, size, i));
        }
        if t0.pending.len() + 1 == size {
            assert(out =~= out0.push(insert_text(s.table, s.columns, t0.pending.push(row))));
            assert((full + 1) * size == full * size + size) by (nonlinear_arith);
            assert(t0.pending.push(row) =~= batch(all, size, full as int));
            assert(t.pending =~= all.skip((out.len() * size) as int));
        } else {
            assert(out =~= out0);
            assert(t.pending =~= all.skip((out.len() * size) as int));
        }
    }
}

/// A whole load, from the creation of the table to the end of the source,
/// hands out one statement for each batch of the rows, the sample row first:
/// as many statements as the rows fill batches, the `i`-th inserting the
/// `i`-th batch. Then it is complete.
pub proof fn lemma_load_fills_batches(s: IngestionView, rows: Seq<Seq<Seq<char>>>)
    requires
        s.wf(),
        s.phase == Phase::SchemaBuilt,
    ensures
        ({
            let all = s.pending + rows;
            let out = s.issued_by_load(rows);
            &&& out.len() == batch_count(all.len(), s.batch_size)
            &&& forall|i: int|
                0 <= i < out.len() ==> #[trigger] out[i] == insert_text(
                    s.table,
                    s.columns,
                    batch(all, s.batch_size, i),
                )
            &&& s.after_load(rows).phase == Phase::Completed
            &&& s.after_load(rows).pending.len() == 0
        }),
{
    let size = s.batch_size;
    let all = s.pending + rows;
    let created = s.step(EventView::Accepted);
    let g = settled(created);
    let first = issued(created);
    lemma_rows_fill_batches(g, rows);
    let t = g.after_rows(rows);
    let middle = g.issued_by_rows(rows);
    let ending = t.step(EventView::EndOfRows);
    let out = s.issued_by_load(rows);
    let rest = g.pending + rows;
    let full = first.len() + middle.len();
    assert(full * size == first.len() * size + middle.len() * size) by (nonlinear_arith)
        requires
            full == first.len() + middle.len(),
    ;
    assert(0 <= middle.len() * size) by (nonlinear_arith)
        requires
            middle.len() >= 0,
            size > 0,
    ;
    if size == 1 {
        assert(first =~= seq![insert_text(s.table, s.columns, s.pending)]);
        assert(g.pending =~= Seq::empty());
        assert(rest =~= rows);
        assert(all =~= s.pending + rest);
        assert(s.pending =~= batch(all, size, 0));
        assert forall|i: int| 0 <= i < middle.len() implies batch(rest, size, i) == batch(
            all,
            size,
            i + 1,
        ) by {
            assert(0 <= i * size && i * size + size <= middle.len() * size) by (nonlinear_arith)
                requires
                    0 <= i,
                    i + 1 <= middle.len(),
                    size > 0,
            ;
            assert((i + 1) * size == i * size + size) by (nonlinear_arith);
            assert(batch(rest, size, i) =~= batch(all, size, i + 1));
        }
        assert(t.pending.len() == 0);
    } else {
        assert(first =~= Seq::empty());
        assert(rest =~= all);
    }
    lemma_batch_count(all.len(), size, full as nat, t.pending.len());
    if t.pending.len() > 0 {
        assert(size > 1);
        assert(t.pending =~= batch(all, size, full as int));
    }
    assert(out =~= first + middle + issued(ending));
}

} // verus!
