//! The decisions of the streaming export. A producer turns the rows of the
//! query, one at a time, into indicators that it hands to a first-in,
//! first-out channel, and closes the stream with one `EndOfData`. A consumer
//! takes the indicators in the order they were sent, has each row written and
//! counts it, and stops at `EndOfData`. The caller runs both loops and the
//! channel.

use crate::decode::{decode_row, decoded, fields_fit, NativeField};
use crate::definition::TableDefinition;
use crate::error::Error;
use crate::values::ColumnValue;
use vstd::prelude::*;

verus! {

/// What travels from the producer to the consumer.
#[derive(Debug)]
pub enum RowIndicator {
    /// The end of the rows: the last indicator of a stream.
    EndOfData,
    /// A row's values, one per column in the table's column order.
    MoreToCome(Vec<Option<ColumnValue>>),
}

/// What an indicator carries.
pub enum IndicatorView {
    EndOfData,
    MoreToCome(Seq<Option<ColumnValue>>),
}

impl View for RowIndicator {
    type V = IndicatorView;

    open spec fn view(&self) -> IndicatorView {
        match self {
            RowIndicator::EndOfData => IndicatorView::EndOfData,
            RowIndicator::MoreToCome(v) => IndicatorView::MoreToCome(v@),
        }
    }
}

impl RowIndicator {
    /// Whether this is the end of the rows.
    pub fn is_end(&self) -> (r: bool)
        ensures
            r == (self@ is EndOfData),
    {
        match self {
            RowIndicator::EndOfData => true,
            RowIndicator::MoreToCome(_) => false,
        }
    }
}

/// The views of an optional indicator.
pub open spec fn indicator_view(i: Option<RowIndicator>) -> Option<IndicatorView> {
    match i {
        Some(x) => Some(x@),
        None => None,
    }
}

/// The producer's decision: while the rows last, each decoded row is sent as
/// `MoreToCome`; their end (`None`) is sent as the one `EndOfData`; after that
/// nothing is sent. The state is whether the end was sent.
pub open spec fn producer_step(ended: bool, row: Option<Seq<Option<ColumnValue>>>) -> (
    bool,
    Option<IndicatorView>,
) {
    if ended {
        (true, None)
    } else {
        match row {
            Some(v) => (false, Some(IndicatorView::MoreToCome(v))),
            None => (true, Some(IndicatorView::EndOfData)),
        }
    }
}

/// The producer side of a streaming export.
#[derive(Debug)]
pub struct RowProducer {
    ended: bool,
}

impl View for RowProducer {
    type V = bool;

    /// Whether `EndOfData` was sent.
    closed spec fn view(&self) -> bool {
        self.ended
    }
}

impl RowProducer {
    /// A producer that has sent nothing yet.
    pub fn new() -> (r: RowProducer)
        ensures
            r@ == false,
    {
        RowProducer { ended: false }
    }

    /// Whether `EndOfData` was sent.
    pub fn has_ended(&self) -> (r: bool)
        ensures
            r == self@,
    {
        self.ended
    }

    /// Takes the next decoded row, or `None` at the end of the rows, and says
    /// what to send (see `producer_step`).
    pub fn accept(&mut self, row: Option<Vec<Option<ColumnValue>>>) -> (r: Option<RowIndicator>)
        ensures
            (final(self)@, indicator_view(r)) == producer_step(
                old(self)@,
                match row {
                    Some(v) => Some(v@),
                    None => None,
                },
            ),
    {
        if self.ended {
            return None;
        }
        match row {
            Some(v) => Some(RowIndicator::MoreToCome(v)),
            None => {
                self.ended = true;
                Some(RowIndicator::EndOfData)
            },
        }
    }

    /// Decodes the fields of the next result row of the table's query, read
    /// in the columns' order, or takes the end of the rows (`None`), and says
    /// what to send (see `producer_step`). Fields that do not match the
    /// columns fail, and then no `EndOfData` is sent: the caller stops and
    /// closes the channel, which the consumer sees as a failed stream.
    pub fn emit(&mut self, table: &TableDefinition, row: Option<&[NativeField]>) -> (r: Result<
        Option<RowIndicator>,
        Error,
    >)
        ensures
            ({
                let fails = !old(self)@ && (row matches Some(fs) && !fields_fit(
                    table@.columns,
                    fs@,
                ));
                let input = match row {
                    Some(fs) => Some(decoded(fs@)),
                    None => None,
                };
                match r {
                    Ok(i) => !fails && (final(self)@, indicator_view(i)) == producer_step(
                        old(self)@,
                        input,
                    ),
                    Err(e) => fails && e is DatabaseError && final(self)@ == old(self)@,
                }
            }),
    {
        match row {
            None => Ok(self.accept(None)),
            Some(fields) => {
                if self.ended {
                    return Ok(None);
                }
                let values = decode_row(table.columns(), fields)?;
                Ok(self.accept(Some(values)))
            },
        }
    }
}

/// Where a consumer stands.
#[derive(Debug, Clone, Copy, PartialEq, Eq, Structural)]
pub enum ConsumerPhase {
    /// Waiting for the next indicator.
    Receiving,
    /// `EndOfData` was received: every row was written.
    Terminated,
    /// The stream was closed before `EndOfData`: the producer failed.
    Failed,
}

/// What a consumer knows: its phase and how many rows it has written.
pub struct ConsumerView {
    pub phase: ConsumerPhase,
    pub written: nat,
}

/// What the consumer asks of its caller.
#[derive(Debug)]
pub enum ConsumerAction {
    /// Write this row to the output and take the next indicator.
    Write(Vec<Option<ColumnValue>>),
    /// Every row was written: stop.
    Finish,
    /// The stream broke off: stop and report the failure.
    Fail,
}

/// What an action carries.
pub enum ActionView {
    Write(Seq<Option<ColumnValue>>),
    Finish,
    Fail,
}

impl View for ConsumerAction {
    type V = ActionView;

    open spec fn view(&self) -> ActionView {
        match self {
            ConsumerAction::Write(v) => ActionView::Write(v@),
            ConsumerAction::Finish => ActionView::Finish,
            ConsumerAction::Fail => ActionView::Fail,
        }
    }
}

/// The row count after one more row; it stops at the largest `u64`.
pub open spec fn count_after(written: nat) -> nat {
    if written < u64::MAX {
        written + 1
    } else {
        written
    }
}

/// The consumer's decision on the next thing the channel gives: an
/// indicator, or `None` where the channel was closed. A row is written and
/// counted; `EndOfData` ends the stream; a channel closed before it fails the
/// stream. Once ended or failed, the consumer stays so.
pub open spec fn consumer_step(c: ConsumerView, item: Option<IndicatorView>) -> (
    ConsumerView,
    ActionView,
) {
    match c.phase {
        ConsumerPhase::Terminated => (c, ActionView::Finish),
        ConsumerPhase::Failed => (c, ActionView::Fail),
        ConsumerPhase::Receiving => match item {
            Some(IndicatorView::MoreToCome(v)) => (
                ConsumerView { phase: ConsumerPhase::Receiving, written: count_after(c.written) },
                ActionView::Write(v),
            ),
            Some(IndicatorView::EndOfData) => (
                ConsumerView { phase: ConsumerPhase::Terminated, written: c.written },
                ActionView::Finish,
            ),
            None => (
                ConsumerView { phase: ConsumerPhase::Failed, written: c.written },
                ActionView::Fail,
            ),
        },
    }
}

/// The consumer side of a streaming export, with its row counter.
#[derive(Debug)]
pub struct RowConsumer {
    phase: ConsumerPhase,
    rows_written: u64,
}

impl View for RowConsumer {
    type V = ConsumerView;

    closed spec fn view(&self) -> ConsumerView {
        ConsumerView { phase: self.phase, written: self.rows_written as nat }
    }
}

impl RowConsumer {
    /// A consumer that waits for the first indicator and has written nothing.
    pub fn new() -> (r: RowConsumer)
        ensures
            r@ == (ConsumerView { phase: ConsumerPhase::Receiving, written: 0 }),
    {
        RowConsumer { phase: ConsumerPhase::Receiving, rows_written: 0 }
    }

    /// Where the consumer stands.
    pub fn phase(&self) -> (r: ConsumerPhase)
        ensures
            r == self@.phase,
    {
        self.phase
    }

    /// How many rows were written.
    pub fn rows_written(&self) -> (r: u64)
        ensures
            r as nat == self@.written,
    {
        self.rows_written
    }

    /// Takes what the channel gave (see `consumer_step`).
    pub fn accept(&mut self, item: Option<RowIndicator>) -> (r: ConsumerAction)
        ensures
            (final(self)@, r@) == consumer_step(old(self)@, indicator_view(item)),
    {
        match self.phase {
            ConsumerPhase::Terminated => ConsumerAction::Finish,
            ConsumerPhase::Failed => ConsumerAction::Fail,
            ConsumerPhase::Receiving => match item {
                Some(RowIndicator::MoreToCome(v)) => {
                    self.rows_written = self.rows_written.saturating_add(1);
                    ConsumerAction::Write(v)
                },
                Some(RowIndicator::EndOfData) => {
                    self.phase = ConsumerPhase::Terminated;
                    ConsumerAction::Finish
                },
                None => {
                    self.phase = ConsumerPhase::Failed;
                    ConsumerAction::Fail
                },
            },
        }
    }
}

} // verus!

verus! {

/// A decoded row.
pub type RowValues = Seq<Option<ColumnValue>>;

/// The producer run over its inputs in order: its state after them and the
/// indicators it sent.
pub open spec fn run_producer(ended: bool, inputs: Seq<Option<RowValues>>) -> (
    bool,
    Seq<IndicatorView>,
)
    decreases inputs.len(),
{
    if inputs.len() == 0 {
        (ended, Seq::empty())
    } else {
        let (e, sent) = run_producer(ended, inputs.drop_last());
        let (e2, out) = producer_step(e, inputs.last());
        (
            e2,
            match out {
                Some(i) => sent.push(i),
                None => sent,
            },
        )
    }
}

/// The consumer run over what the channel gives, in order: its state after
/// it and the actions it asked for.
pub open spec fn run_consumer(c: ConsumerView, items: Seq<Option<IndicatorView>>) -> (
    ConsumerView,
    Seq<ActionView>,
)
    decreases items.len(),
{
    if items.len() == 0 {
        (c, Seq::empty())
    } else {
        let (c1, acts) = run_consumer(c, items.drop_last());
        let (c2, a) = consumer_step(c1, items.last());
        (c2, acts.push(a))
    }
}

/// The producer's inputs for a table's rows: each decoded row, then the end.
pub open spec fn row_inputs(rows: Seq<RowValues>) -> Seq<Option<RowValues>> {
    rows.map_values(|r: RowValues| Some(r)).push(None)
}

/// The stream of a table's rows: one `MoreToCome` per row, in order, then one
/// `EndOfData`.
pub open spec fn produced(rows: Seq<RowValues>) -> Seq<IndicatorView> {
    rows.map_values(|r: RowValues| IndicatorView::MoreToCome(r)).push(IndicatorView::EndOfData)
}

/// What a channel gives when it hands on `sent` in order.
pub open spec fn delivered(sent: Seq<IndicatorView>) -> Seq<Option<IndicatorView>> {
    sent.map_values(|i: IndicatorView| Some(i))
}

/// The consumer at the start.
pub open spec fn consumer_start() -> ConsumerView {
    ConsumerView { phase: ConsumerPhase::Receiving, written: 0 }
}

proof fn lemma_run_producer_append(e: bool, a: Seq<Option<RowValues>>, b: Seq<Option<RowValues>>)
    ensures
        run_producer(e, a + b) == (
            run_producer(run_producer(e, a).0, b).0,
            run_producer(e, a).1 + run_producer(run_producer(e, a).0, b).1,
        ),
    decreases b.len(),
{
    if b.len() == 0 {
        assert(a + b =~= a);
        assert(run_producer(e, a).1 + Seq::<IndicatorView>::empty() =~= run_producer(e, a).1);
    } else {
        assert((a + b).drop_last() =~= a + b.drop_last());
        assert((a + b).last() == b.last());
        lemma_run_producer_append(e, a, b.drop_last());
        let mid = run_producer(e, a);
        let rest = run_producer(mid.0, b.drop_last());
        let out = producer_step(rest.0, b.last()).1;
        if out is Some {
            assert(mid.1 + rest.1.push(out->0) =~= (mid.1 + rest.1).push(out->0));
        }
    }
}

proof fn lemma_run_consumer_append(
    c: ConsumerView,
    a: Seq<Option<IndicatorView>>,
    b: Seq<Option<IndicatorView>>,
)
    ensures
        run_consumer(c, a + b) == (
            run_consumer(run_consumer(c, a).0, b).0,
            run_consumer(c, a).1 + run_consumer(run_consumer(c, a).0, b).1,
        ),
    decreases b.len(),
{
    if b.len() == 0 {
        assert(a + b =~= a);
        assert(run_consumer(c, a).1 + Seq::<ActionView>::empty() =~= run_consumer(c, a).1);
    } else {
        assert((a + b).drop_last() =~= a + b.drop_last());
        assert((a + b).last() == b.last());
        lemma_run_consumer_append(c, a, b.drop_last());
        let mid = run_consumer(c, a);
        let rest = run_consumer(mid.0, b.drop_last());
        let act = consumer_step(rest.0, b.last()).1;
        assert(mid.1 + rest.1.push(act) =~= (mid.1 + rest.1).push(act));
    }
}

proof fn lemma_producer_rows(rows: Seq<RowValues>)
    ensures
        run_producer(false, rows.map_values(|r: RowValues| Some(r))) == (
            false,
            rows.map_values(|r: RowValues| IndicatorView::MoreToCome(r)),
        ),
    decreases rows.len(),
{
    if rows.len() > 0 {
        let inputs = rows.map_values(|r: RowValues| Some(r));
        assert(inputs.drop_last() =~= rows.drop_last().map_values(|r: RowValues| Some(r)));
        lemma_producer_rows(rows.drop_last());
        assert(rows.map_values(|r: RowValues| IndicatorView::MoreToCome(r)) =~= rows.drop_last().map_values(
            |r: RowValues| IndicatorView::MoreToCome(r),
        ).push(IndicatorView::MoreToCome(rows.last())));
    } else {
        assert(rows.map_values(|r: RowValues| IndicatorView::MoreToCome(r)) =~= Seq::<
            IndicatorView,
        >::empty());
    }
}

proof fn lemma_producer_after_end(inputs: Seq<Option<RowValues>>)
    ensures
        run_producer(true, inputs) == (true, Seq::<IndicatorView>::empty()),
    decreases inputs.len(),
{
    if inputs.len() > 0 {
        lemma_producer_after_end(inputs.drop_last());
    }
}

/// The producer, given a table's rows and then their end, sends one
/// `MoreToCome` per row in order and then exactly one `EndOfData`, and
/// nothing after it, whatever it is given later.
pub proof fn lemma_producer_stream(rows: Seq<RowValues>, later: Seq<Option<RowValues>>)
    ensures
        run_producer(false, row_inputs(rows) + later) == (true, produced(rows)),
{
    let some_rows = rows.map_values(|r: RowValues| Some(r));
    assert(row_inputs(rows) =~= some_rows + seq![None::<RowValues>]);
    lemma_run_producer_append(false, some_rows, seq![None::<RowValues>]);
    lemma_producer_rows(rows);
    assert(seq![None::<RowValues>].drop_last() =~= Seq::<Option<RowValues>>::empty());
    assert(run_producer(false, Seq::<Option<RowValues>>::empty()) == (
        false,
        Seq::<IndicatorView>::empty(),
    ));
    assert(run_producer(false, seq![None::<RowValues>]) == (
        true,
        Seq::<IndicatorView>::empty().push(IndicatorView::EndOfData),
    ));
    lemma_run_producer_append(false, row_inputs(rows), later);
    lemma_producer_after_end(later);
    assert(produced(rows) + Seq::<IndicatorView>::empty() =~= produced(rows));
    assert(rows.map_values(|r: RowValues| IndicatorView::MoreToCome(r)) + Seq::<
        IndicatorView,
    >::empty().push(IndicatorView::EndOfData) =~= produced(rows));
}

proof fn lemma_consumer_rows(rows: Seq<RowValues>)
    requires
        rows.len() <= u64::MAX,
    ensures
        run_consumer(
            consumer_start(),
            delivered(rows.map_values(|r: RowValues| IndicatorView::MoreToCome(r))),
        ) == (
            ConsumerView { phase: ConsumerPhase::Receiving, written: rows.len() },
            rows.map_values(|r: RowValues| ActionView::Write(r)),
        ),
    decreases rows.len(),
{
    let items = delivered(rows.map_values(|r: RowValues| IndicatorView::MoreToCome(r)));
    if rows.len() > 0 {
        assert(items.drop_last() =~= delivered(
            rows.drop_last().map_values(|r: RowValues| IndicatorView::MoreToCome(r)),
        ));
        lemma_consumer_rows(rows.drop_last());
        assert(rows.map_values(|r: RowValues| ActionView::Write(r)) =~= rows.drop_last().map_values(
            |r: RowValues| ActionView::Write(r),
        ).push(ActionView::Write(rows.last())));
    } else {
        assert(rows.map_values(|r: RowValues| ActionView::Write(r)) =~= Seq::<ActionView>::empty());
    }
}

proof fn lemma_consumer_after_end(c: ConsumerView, items: Seq<Option<IndicatorView>>)
    requires
        c.phase == ConsumerPhase::Terminated,
    ensures
        run_consumer(c, items) == (c, Seq::new(items.len(), |i: int| ActionView::Finish)),
    decreases items.len(),
{
    if items.len() > 0 {
        lemma_consumer_after_end(c, items.drop_last());
        assert(Seq::new(items.len(), |i: int| ActionView::Finish) =~= Seq::new(
            (items.len() - 1) as nat,
            |i: int| ActionView::Finish,
        ).push(ActionView::Finish));
    } else {
        assert(Seq::new(items.len(), |i: int| ActionView::Finish) =~= Seq::<ActionView>::empty());
    }
}

/// The consumer, given the stream of a table's rows in the order it was sent,
/// asks to write each row once, in that order, and nothing else; it then
/// stops at `EndOfData` with its counter at the number of rows, and stays
/// stopped whatever the channel gives after.
pub proof fn lemma_consumer_stream(rows: Seq<RowValues>, later: Seq<Option<IndicatorView>>)
    requires
        rows.len() <= u64::MAX,
    ensures
        ({
            let (c, acts) = run_consumer(consumer_start(), delivered(produced(rows)) + later);
            &&& c == (ConsumerView { phase: ConsumerPhase::Terminated, written: rows.len() })
            &&& acts.len() == rows.len() + 1 + later.len()
            &&& forall|i: int| 0 <= i < rows.len() ==> #[trigger] acts[i] == ActionView::Write(rows[i])
            &&& forall|i: int| rows.len() <= i < acts.len() ==> #[trigger] acts[i] == ActionView::Finish
        }),
{
    let mores = rows.map_values(|r: RowValues| IndicatorView::MoreToCome(r));
    let end = seq![Some(IndicatorView::EndOfData)];
    assert(delivered(produced(rows)) =~= delivered(mores) + end);
    lemma_run_consumer_append(consumer_start(), delivered(mores), end);
    lemma_consumer_rows(rows);
    assert(end.drop_last() =~= Seq::<Option<IndicatorView>>::empty());
    let mid = ConsumerView { phase: ConsumerPhase::Receiving, written: rows.len() };
    assert(run_consumer(mid, Seq::<Option<IndicatorView>>::empty()) == (
        mid,
        Seq::<ActionView>::empty(),
    ));
    assert(run_consumer(mid, end) == (
        ConsumerView { phase: ConsumerPhase::Terminated, written: rows.len() },
        Seq::<ActionView>::empty().push(ActionView::Finish),
    ));
    let first = run_consumer(consumer_start(), delivered(produced(rows)));
    lemma_run_consumer_append(consumer_start(), delivered(produced(rows)), later);
    lemma_consumer_after_end(first.0, later);
    let (c, acts) = run_consumer(consumer_start(), delivered(produced(rows)) + later);
    assert(first.1 =~= rows.map_values(|r: RowValues| ActionView::Write(r)) + Seq::<
        ActionView,
    >::empty().push(ActionView::Finish));
    assert forall|i: int| rows.len() <= i < acts.len() implies #[trigger] acts[i] == ActionView::Finish by {
        if i > rows.len() {
            assert(acts[i] == Seq::new(later.len(), |j: int| ActionView::Finish)[i - rows.len() - 1]);
        }
    }
}

/// A streaming export as a whole: what the producer sends for a table of N
/// rows, handed on in order by the channel, makes the consumer write exactly
/// the N rows, in the order they were read, and end with its counter at N.
/// No row is written after `EndOfData`.
pub proof fn lemma_export_stream(
    rows: Seq<RowValues>,
    later_inputs: Seq<Option<RowValues>>,
    later_items: Seq<Option<IndicatorView>>,
)
    requires
        rows.len() <= u64::MAX,
    ensures
        ({
            let sent = run_producer(false, row_inputs(rows) + later_inputs).1;
            let (c, acts) = run_consumer(consumer_start(), delivered(sent) + later_items);
            &&& sent == produced(rows)
            &&& c == (ConsumerView { phase: ConsumerPhase::Terminated, written: rows.len() })
            &&& forall|i: int| 0 <= i < rows.len() ==> #[trigger] acts[i] == ActionView::Write(rows[i])
            &&& forall|i: int| rows.len() <= i < acts.len() ==> #[trigger] acts[i] == ActionView::Finish
        }),
{
    lemma_producer_stream(rows, later_inputs);
    lemma_consumer_stream(rows, later_items);
}

} // verus!
