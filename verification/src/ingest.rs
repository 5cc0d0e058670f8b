//! Ingestion: what arrives is classified and, where its kind is known,
//! opened as a pane. Nothing that arrives stops what arrives after it.

use crate::data::LoadedFrame;
use crate::frame::{
    classify_columns, frame_clone, frame_columns, try_classify, DISCRIMINANT_COLUMN,
};
use crate::kind::{Kind, ViewMode};
use crate::pane::Pane;
use crate::registry::{PaneRegistry, RegistryView};
use polars_core::frame::DataFrame;
use vstd::prelude::*;

verus! {

broadcast use vstd::std_specs::vec::axiom_spec_into_iter;

/// What became of one arrival.
#[derive(Clone, Debug, PartialEq, Eq)]
pub enum Ingested {
    /// The frame was classified and opened as a pane under this tile id.
    Opened { tile: u64, kind: Kind },
    /// The frame has no distinguishing column; it was dropped without a word.
    Skipped,
    /// The frame's distinguishing column has no known name; the frame was
    /// dropped, and the caller has an error to log.
    Unsupported,
    /// The frame was classified, but the ids have run out.
    Full,
    /// No frame arrived but a failure, to be logged with this message.
    Failed(String),
}

impl RegistryView {
    /// What becomes of a frame that arrives.
    pub open spec fn ingest_outcome(self, frame: DataFrame) -> Ingested {
        let columns = frame_columns(frame);
        if columns.len() <= DISCRIMINANT_COLUMN {
            Ingested::Skipped
        } else {
            match classify_columns(columns) {
                Err(_) => Ingested::Unsupported,
                Ok(kind) => if self.full() {
                    Ingested::Full
                } else {
                    Ingested::Opened { tile: self.next_id(), kind }
                },
            }
        }
    }

    /// What becomes of an arrival, a frame or a failure.
    pub open spec fn arrival_outcome(self, arrival: Result<DataFrame, String>) -> Ingested {
        match arrival {
            Ok(frame) => self.ingest_outcome(frame),
            Err(message) => Ingested::Failed(message),
        }
    }

    /// The registry after a frame was taken in: a frame of a known kind is
    /// open as a pane that shows it in the given way, and nothing else has
    /// changed.
    pub open spec fn ingested(self, frame: DataFrame, view: ViewMode) -> RegistryView {
        match self.ingest_outcome(frame) {
            Ingested::Opened { tile, kind } => self.inserted(
                Pane::spec_loaded(kind, frame, view),
            ),
            _ => self,
        }
    }

    /// The registry after an arrival: a frame is taken in and plotted, a
    /// failure changes nothing.
    pub open spec fn arrived(self, arrival: Result<DataFrame, String>) -> RegistryView {
        match arrival {
            Ok(frame) => self.ingested(frame, ViewMode::Plot),
            Err(_) => self,
        }
    }

    /// The registry after a batch of arrivals, taken in order.
    pub open spec fn batch(self, arrivals: Seq<Result<DataFrame, String>>) -> RegistryView
        decreases arrivals.len(),
    {
        if arrivals.len() == 0 {
            self
        } else {
            self.batch(arrivals.drop_last()).arrived(arrivals.last())
        }
    }

    /// What becomes of each arrival of a batch, in order.
    pub open spec fn batch_outcomes(self, arrivals: Seq<Result<DataFrame, String>>) -> Seq<
        Ingested,
    >
        decreases arrivals.len(),
    {
        if arrivals.len() == 0 {
            Seq::empty()
        } else {
            self.batch_outcomes(arrivals.drop_last()).push(
                self.batch(arrivals.drop_last()).arrival_outcome(arrivals.last()),
            )
        }
    }
}

impl PaneRegistry {
    /// Takes in a frame: classifies it by its schema and opens it as a
    /// pane that shows it in the given way. A frame that cannot be
    /// classified is dropped, and the registry stays as it is.
    pub fn ingest_as(&mut self, frame: DataFrame, view: ViewMode) -> (outcome: Ingested)
        ensures
            outcome == old(self)@.ingest_outcome(frame),
            final(self)@ == old(self)@.ingested(frame, view),
    {
        match try_classify(&frame) {
            None => Ingested::Skipped,
            Some(Err(_)) => Ingested::Unsupported,
            Some(Ok(kind)) => match self.insert(Pane::loaded(kind, frame, view)) {
                Some(tile) => Ingested::Opened { tile, kind },
                None => Ingested::Full,
            },
        }
    }

    /// Takes in a frame that arrived, to be plotted.
    pub fn ingest(&mut self, frame: DataFrame) -> (outcome: Ingested)
        ensures
            outcome == old(self)@.ingest_outcome(frame),
            final(self)@ == old(self)@.ingested(frame, ViewMode::Plot),
    {
        self.ingest_as(frame, ViewMode::Plot)
    }

    /// Takes in an arrival: a frame as `ingest` does, a failure by handing
    /// back its message.
    pub fn ingest_arrival(&mut self, arrival: Result<DataFrame, String>) -> (outcome: Ingested)
        ensures
            outcome == old(self)@.arrival_outcome(arrival),
            final(self)@ == old(self)@.arrived(arrival),
    {
        match arrival {
            Ok(frame) => self.ingest(frame),
            Err(message) => Ingested::Failed(message),
        }
    }

    /// Takes in a batch of arrivals in order, and tells what became of
    /// each. An arrival that fails or cannot be classified has no effect on
    /// those around it.
    pub fn ingest_batch(&mut self, arrivals: Vec<Result<DataFrame, String>>) -> (outcomes: Vec<
        Ingested,
    >)
        ensures
            outcomes@ == old(self)@.batch_outcomes(arrivals@),
            final(self)@ == old(self)@.batch(arrivals@),
    {
        let mut outcomes = Vec::new();
        let ghost before = self@;
        let ghost all = arrivals@;
        for arrival in it: arrivals.into_iter()
            invariant
                it.seq() == all,
                self@ == before.batch(all.take(it.index() as int)),
                outcomes@ == before.batch_outcomes(all.take(it.index() as int)),
        {
            proof {
                let done = it.index() as int;
                assert(all.take(done + 1).drop_last() == all.take(done));
                assert(all.take(done + 1).last() == arrival);
            }
            let outcome = self.ingest_arrival(arrival);
            outcomes.push(outcome);
        }
        proof {
            assert(all.take(all.len() as int) == all);
        }
        outcomes
    }
}

/// A frame as an arrival that did not fail.
pub open spec fn arrival_of(frame: DataFrame) -> Result<DataFrame, String> {
    Ok(frame)
}

impl RegistryView {
    /// The registry after the frames were received, in order.
    pub open spec fn received(self, frames: Seq<DataFrame>) -> RegistryView {
        self.batch(frames.map_values(|frame: DataFrame| arrival_of(frame)))
    }

    /// What becomes of each received frame, in order.
    pub open spec fn received_outcomes(self, frames: Seq<DataFrame>) -> Seq<Ingested> {
        self.batch_outcomes(frames.map_values(|frame: DataFrame| arrival_of(frame)))
    }

    /// The registry after the records were shown: each, in order, is taken
    /// in as a table.
    pub open spec fn shown(self, records: Seq<LoadedFrame>) -> RegistryView
        decreases records.len(),
    {
        if records.len() == 0 {
            self
        } else {
            self.shown(records.drop_last()).ingested(records.last().data, ViewMode::Table)
        }
    }

    /// What becomes of each record that is shown, in order.
    pub open spec fn shown_outcomes(self, records: Seq<LoadedFrame>) -> Seq<Ingested>
        decreases records.len(),
    {
        if records.len() == 0 {
            Seq::empty()
        } else {
            self.shown_outcomes(records.drop_last()).push(
                self.shown(records.drop_last()).ingest_outcome(records.last().data),
            )
        }
    }
}

impl PaneRegistry {
    /// Takes in the frames that were received, in order, and tells what
    /// became of each.
    pub fn ingest_frames(&mut self, frames: Vec<DataFrame>) -> (outcomes: Vec<Ingested>)
        ensures
            outcomes@ == old(self)@.received_outcomes(frames@),
            final(self)@ == old(self)@.received(frames@),
    {
        let mut outcomes = Vec::new();
        let ghost before = self@;
        let ghost all = frames@;
        let ghost wrap = |frame: DataFrame| arrival_of(frame);
        for frame in it: frames.into_iter()
            invariant
                it.seq() == all,
                wrap == |frame: DataFrame| arrival_of(frame),
                self@ == before.batch(all.take(it.index() as int).map_values(wrap)),
                outcomes@ == before.batch_outcomes(all.take(it.index() as int).map_values(wrap)),
        {
            proof {
                let done = it.index() as int;
                let next = all.take(done + 1).map_values(wrap);
                assert(next.drop_last() == all.take(done).map_values(wrap));
                assert(next.last() == arrival_of(frame));
            }
            let outcome = self.ingest(frame);
            outcomes.push(outcome);
        }
        proof {
            assert(all.take(all.len() as int) == all);
        }
        outcomes
    }

    /// Shows the records: each, in order, is taken in as a table, and what
    /// became of each is told. The records keep their frames.
    pub fn show(&mut self, records: &Vec<&LoadedFrame>) -> (outcomes: Vec<Ingested>)
        ensures
            outcomes@ == old(self)@.shown_outcomes(records@.map_values(|r: &LoadedFrame| *r)),
            final(self)@ == old(self)@.shown(records@.map_values(|r: &LoadedFrame| *r)),
    {
        let mut outcomes = Vec::new();
        let ghost before = self@;
        let ghost all = records@.map_values(|r: &LoadedFrame| *r);
        let mut index: usize = 0;
        while index < records.len()
            invariant
                index <= records.len(),
                all == records@.map_values(|r: &LoadedFrame| *r),
                self@ == before.shown(all.take(index as int)),
                outcomes@ == before.shown_outcomes(all.take(index as int)),
            decreases records.len() - index,
        {
            proof {
                assert(all.take(index + 1).drop_last() == all.take(index as int));
                assert(all.take(index + 1).last() == *records@[index as int]);
            }
            let outcome = self.ingest_as(frame_clone(&records[index].data), ViewMode::Table);
            outcomes.push(outcome);
            index += 1;
        }
        proof {
            assert(all.take(all.len() as int) == all);
        }
        outcomes
    }
}

/// A batch can be taken in piece by piece: what comes first is not
/// affected by what comes after it.
pub proof fn lemma_batch_in_pieces(
    view: RegistryView,
    first: Seq<Result<DataFrame, String>>,
    second: Seq<Result<DataFrame, String>>,
)
    ensures
        view.batch(first + second) == view.batch(first).batch(second),
        view.batch_outcomes(first + second) == view.batch_outcomes(first) + view.batch(
            first,
        ).batch_outcomes(second),
    decreases second.len(),
{
    if second.len() == 0 {
        assert(first + second =~= first);
        assert(view.batch_outcomes(first) + Seq::<Ingested>::empty() =~= view.batch_outcomes(
            first,
        ));
    } else {
        let all = first + second;
        assert(all.drop_last() =~= first + second.drop_last());
        assert(all.last() == second.last());
        lemma_batch_in_pieces(view, first, second.drop_last());
        let rest = view.batch(first).batch_outcomes(second.drop_last());
        let last = view.batch(first).batch(second.drop_last()).arrival_outcome(second.last());
        assert((view.batch_outcomes(first) + rest).push(last) =~= view.batch_outcomes(first)
            + rest.push(last));
    }
}

/// A failure in a batch is told and changes nothing else: the registry
/// ends up as if the failure had not been in the batch, and every other
/// arrival has the outcome that it has without it.
pub proof fn lemma_failure_in_batch(
    view: RegistryView,
    before: Seq<Result<DataFrame, String>>,
    message: String,
    after: Seq<Result<DataFrame, String>>,
)
    ensures
        view.batch(before.push(Err(message)) + after) == view.batch(before + after),
        view.batch_outcomes(before.push(Err(message)) + after) == view.batch_outcomes(
            before,
        ).push(Ingested::Failed(message)) + view.batch(before).batch_outcomes(after),
        view.batch_outcomes(before + after) == view.batch_outcomes(before) + view.batch(
            before,
        ).batch_outcomes(after),
{
    let failed = before.push(Err(message));
    assert(failed.drop_last() =~= before);
    assert(view.batch(failed) == view.batch(before));
    lemma_batch_in_pieces(view, failed, after);
    lemma_batch_in_pieces(view, before, after);
}

} // verus!
