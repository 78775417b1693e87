//! Grading cards at once, outside the review queue. The states a card can
//! move to are computed elsewhere, and the answer is applied elsewhere;
//! what is decided here is which state a rating selects, what the answer
//! says, and in which order the work is asked for.

use vstd::prelude::*;

use crate::card::CardId;
use crate::collection::Collection;
use crate::collection::CollectionView;
use crate::collection::Savepoint;
use crate::error::AnkiError;
use crate::error::Failure;
use crate::ops::Op;
use crate::ops::OpOutput;
use crate::timing::TimestampMillis;

verus! {

/// The state a card is in and the four states that an answer can take it
/// to. What a state holds is of no concern here.
#[derive(Debug, PartialEq, Eq)]
pub struct SchedulingStates<S> {
    pub current: S,
    pub again: S,
    pub hard: S,
    pub good: S,
    pub easy: S,
}

#[derive(Clone, Copy, Debug, PartialEq, Eq, Structural)]
pub enum Rating {
    Again,
    Hard,
    Good,
    Easy,
}

/// An answer for the answering subsystem to apply.
#[derive(Debug, PartialEq, Eq)]
pub struct CardAnswer<S> {
    pub card_id: CardId,
    pub current_state: S,
    pub new_state: S,
    pub rating: Rating,
    pub answered_at: TimestampMillis,
    pub milliseconds_taken: u32,
    /// Whether the card was taken from the review queue, so that the queue
    /// is to move on once the answer is applied.
    pub from_queue: bool,
}

/// The rating that a number stands for: 0 to 3, from "again" to "easy".
pub open spec fn rating_of(value: i32) -> Option<Rating> {
    if value == 0 {
        Some(Rating::Again)
    } else if value == 1 {
        Some(Rating::Hard)
    } else if value == 2 {
        Some(Rating::Good)
    } else if value == 3 {
        Some(Rating::Easy)
    } else {
        None
    }
}

impl<S> SchedulingStates<S> {
    /// The state that `rating` selects.
    pub open spec fn target(self, rating: Rating) -> S {
        match rating {
            Rating::Again => self.again,
            Rating::Hard => self.hard,
            Rating::Good => self.good,
            Rating::Easy => self.easy,
        }
    }
}

/// The answer that grades `card_id` with `rating` at the instant `now`: no
/// time was taken over it, and the card does not come from the queue.
pub open spec fn immediate_answer<S>(
    card_id: CardId,
    states: SchedulingStates<S>,
    rating: Rating,
    now: TimestampMillis,
) -> CardAnswer<S> {
    CardAnswer {
        card_id,
        current_state: states.current,
        new_state: states.target(rating),
        rating,
        answered_at: now,
        milliseconds_taken: 0,
        from_queue: false,
    }
}

/// The text of the failure for a rating that is none of 0 to 3.
pub open spec fn invalid_rating() -> Failure {
    Failure::InvalidInput("invalid rating"@)
}

/// The text of the failure for an event that a run does not await.
pub open spec fn unexpected_event() -> Failure {
    Failure::InvalidInput("unexpected grading event"@)
}

/// The answer that grades `card_id` with the rating that `rating` stands
/// for, given the states computed for the card; invalid input where
/// `rating` stands for none.
pub fn answer_for<S>(card_id: CardId, states: SchedulingStates<S>, rating: i32, now: TimestampMillis) -> (result:
    Result<CardAnswer<S>, AnkiError>)
    ensures
        match rating_of(rating) {
            Some(selected) => result == Ok::<CardAnswer<S>, AnkiError>(
                immediate_answer(card_id, states, selected, now),
            ),
            None => result is Err && result->Err_0.is_failure(invalid_rating()),
        },
{
    let (selected, new_state) = if rating == 0 {
        (Rating::Again, states.again)
    } else if rating == 1 {
        (Rating::Hard, states.hard)
    } else if rating == 2 {
        (Rating::Good, states.good)
    } else if rating == 3 {
        (Rating::Easy, states.easy)
    } else {
        return Err(AnkiError::invalid_input("invalid rating"));
    };
    Ok(
        CardAnswer {
            card_id,
            current_state: states.current,
            new_state,
            rating: selected,
            answered_at: now,
            milliseconds_taken: 0,
            from_queue: false,
        },
    )
}

/// How far a run of immediate grading has come.
#[derive(Clone, Copy, Debug, PartialEq, Eq, Structural)]
pub enum GradePhase {
    /// Nothing has been asked for yet.
    Ready,
    /// The states of the card at the current position have been asked for.
    AwaitingStates,
    /// The answer for the card at the current position is being applied.
    AwaitingAnswer,
    /// The run is over, whichever way it ended.
    Finished,
}

enum Progress {
    Ready,
    AwaitingStates(Savepoint),
    AwaitingAnswer(Savepoint),
    Finished,
}

/// One run of immediate grading: the cards to grade, the rating to give
/// each, and how far the run has come.
pub struct GradeNow {
    cids: Vec<CardId>,
    rating: i32,
    position: usize,
    progress: Progress,
}

/// A run of immediate grading as plain data.
pub struct GradeNowView {
    pub cids: Seq<CardId>,
    pub rating: i32,
    /// The place in `cids` of the card that is being graded.
    pub position: int,
    pub phase: GradePhase,
    /// The collection as it was when the run began, while the run lasts.
    pub began_on: Option<CollectionView>,
}

/// What happened outside since the last step.
pub enum GradeEvent<S> {
    /// Nothing yet: the run is to begin.
    Begin,
    /// The states of the card asked for were computed, at the given instant.
    States(SchedulingStates<S>, TimestampMillis),
    /// The answer handed out was applied.
    Answered,
    /// What was asked for failed.
    Failed(AnkiError),
}

/// What is to be done outside next.
pub enum GradeAction<S> {
    /// Compute the states of this card.
    GetStates(CardId),
    /// Apply this answer.
    Answer(CardAnswer<S>),
    /// Nothing more: the run has ended with this result.
    Done(Result<OpOutput<()>, AnkiError>),
}

impl View for GradeNow {
    type V = GradeNowView;

    closed spec fn view(&self) -> GradeNowView {
        GradeNowView {
            cids: self.cids@,
            rating: self.rating,
            position: self.position as int,
            phase: match self.progress {
                Progress::Ready => GradePhase::Ready,
                Progress::AwaitingStates(_) => GradePhase::AwaitingStates,
                Progress::AwaitingAnswer(_) => GradePhase::AwaitingAnswer,
                Progress::Finished => GradePhase::Finished,
            },
            began_on: match self.progress {
                Progress::AwaitingStates(saved) => Some(saved@),
                Progress::AwaitingAnswer(saved) => Some(saved@),
                _ => None,
            },
        }
    }
}

impl GradeNowView {
    /// The run with its operation ended.
    pub open spec fn finished(self) -> GradeNowView {
        GradeNowView { phase: GradePhase::Finished, began_on: None, ..self }
    }

    /// Whether the run stops without a trace of its operation: the
    /// collection is as it was when the run began.
    pub open spec fn abandoned(self, col_after: CollectionView, run_after: GradeNowView) -> bool {
        col_after == self.began_on->0 && run_after == self.finished()
    }

    /// Whether the run goes on from `col` to the card at its position, or,
    /// past the last card, makes its operation permanent.
    pub open spec fn moved_on<S>(
        self,
        col: CollectionView,
        col_after: CollectionView,
        run_after: GradeNowView,
        action: GradeAction<S>,
    ) -> bool {
        if self.position < self.cids.len() {
            &&& col_after == col
            &&& run_after == (GradeNowView { phase: GradePhase::AwaitingStates, ..self })
            &&& action == GradeAction::<S>::GetStates(self.cids[self.position])
        } else {
            &&& col_after == col.committed(self.began_on->0, Op::GradeNow)
            &&& run_after == self.finished()
            &&& action == GradeAction::<S>::Done(
                Ok(OpOutput { output: (), changes: col.op_changes(Op::GradeNow) }),
            )
        }
    }
}

/// One step of a run. A run begins an operation on the collection and
/// asks for the states of its first card. Given the states, it hands out
/// the answer that its rating selects, or, if the rating selects none,
/// fails with invalid input. Once an answer has been applied it goes on to
/// the next card, and past the last card it makes the operation permanent.
/// Whenever it fails, or is told of a failure, or is told of something it
/// does not await, the run is over and the collection is as it was when
/// the run began.
pub open spec fn grading_stepped<S>(
    col: CollectionView,
    run: GradeNowView,
    event: GradeEvent<S>,
    col_after: CollectionView,
    run_after: GradeNowView,
    action: GradeAction<S>,
) -> bool {
    match (run.phase, event) {
        (GradePhase::Ready, GradeEvent::Begin) => (GradeNowView {
            began_on: Some(col),
            ..run
        }).moved_on(col.begun(Op::GradeNow), col_after, run_after, action),
        (GradePhase::AwaitingStates, GradeEvent::States(states, now)) => match rating_of(
            run.rating,
        ) {
            Some(rating) => {
                &&& col_after == col
                &&& run_after == (GradeNowView { phase: GradePhase::AwaitingAnswer, ..run })
                &&& action == GradeAction::Answer(
                    immediate_answer(run.cids[run.position], states, rating, now),
                )
            },
            None => {
                &&& run.abandoned(col_after, run_after)
                &&& action matches GradeAction::Done(Err(err))
                &&& err.is_failure(invalid_rating())
            },
        },
        (GradePhase::AwaitingAnswer, GradeEvent::Answered) => (GradeNowView {
            position: run.position + 1,
            ..run
        }).moved_on(col, col_after, run_after, action),
        (GradePhase::AwaitingStates, GradeEvent::Failed(err)) => {
            &&& run.abandoned(col_after, run_after)
            &&& action == GradeAction::<S>::Done(Err(err))
        },
        (GradePhase::AwaitingAnswer, GradeEvent::Failed(err)) => {
            &&& run.abandoned(col_after, run_after)
            &&& action == GradeAction::<S>::Done(Err(err))
        },
        (GradePhase::AwaitingStates, _) => {
            &&& run.abandoned(col_after, run_after)
            &&& action matches GradeAction::Done(Err(err))
            &&& err.is_failure(unexpected_event())
        },
        (GradePhase::AwaitingAnswer, _) => {
            &&& run.abandoned(col_after, run_after)
            &&& action matches GradeAction::Done(Err(err))
            &&& err.is_failure(unexpected_event())
        },
        _ => {
            &&& col_after == col
            &&& run_after == run.finished()
            &&& action matches GradeAction::Done(Err(err))
            &&& err.is_failure(unexpected_event())
        },
    }
}

/// A run with a rating that is none of 0 to 3 and at least one card asks
/// for the states of its first card, and once it is given them it ends
/// with invalid input; whatever was done to the collection in between,
/// the collection is then as it was before the run began.
pub proof fn lemma_invalid_rating_fails_run<S>(
    col: CollectionView,
    run: GradeNowView,
    col_begun: CollectionView,
    run_begun: GradeNowView,
    first: GradeAction<S>,
    states: SchedulingStates<S>,
    now: TimestampMillis,
    col_meanwhile: CollectionView,
    col_after: CollectionView,
    run_after: GradeNowView,
    second: GradeAction<S>,
)
    requires
        run.phase == GradePhase::Ready,
        run.position == 0,
        run.cids.len() > 0,
        rating_of(run.rating) is None,
        grading_stepped(col, run, GradeEvent::<S>::Begin, col_begun, run_begun, first),
        grading_stepped(
            col_meanwhile,
            run_begun,
            GradeEvent::States(states, now),
            col_after,
            run_after,
            second,
        ),
    ensures
        first == GradeAction::<S>::GetStates(run.cids[0]),
        second matches GradeAction::Done(Err(err)) && err.is_failure(invalid_rating()),
        col_after == col,
        run_after.phase == GradePhase::Finished,
{
}

impl GradeNow {
    /// Whether the run is sound: while it lasts it is at one of its cards,
    /// and what it put aside can end its operation.
    pub closed spec fn wf(&self) -> bool {
        match self.progress {
            Progress::Ready => self.position == 0,
            Progress::AwaitingStates(saved) => self.position < self.cids@.len()
                && saved@.current_step is None && saved@.usn.0 < i32::MAX,
            Progress::AwaitingAnswer(saved) => self.position < self.cids@.len()
                && saved@.current_step is None && saved@.usn.0 < i32::MAX,
            Progress::Finished => true,
        }
    }

    /// A run that is to give each of `cids` the rating that `rating`
    /// stands for.
    pub fn new(cids: Vec<CardId>, rating: i32) -> (run: GradeNow)
        ensures
            run.wf(),
            run@ == (GradeNowView {
                cids: cids@,
                rating,
                position: 0,
                phase: GradePhase::Ready,
                began_on: None,
            }),
    {
        GradeNow { cids, rating, position: 0, progress: Progress::Ready }
    }

    /// How far the run has come.
    pub fn phase(&self) -> (phase: GradePhase)
        ensures
            phase == self@.phase,
    {
        match &self.progress {
            Progress::Ready => GradePhase::Ready,
            Progress::AwaitingStates(_) => GradePhase::AwaitingStates,
            Progress::AwaitingAnswer(_) => GradePhase::AwaitingAnswer,
            Progress::Finished => GradePhase::Finished,
        }
    }
}

impl Collection {
    fn grade_next<S>(&mut self, run: &mut GradeNow, saved: Savepoint) -> (action: GradeAction<S>)
        requires
            old(run).progress is Finished,
            old(run).position <= old(run).cids@.len(),
            saved@.current_step is None,
            saved@.usn.0 < i32::MAX,
        ensures
            final(run).wf(),
            (GradeNowView { began_on: Some(saved@), ..old(run)@ }).moved_on(
                old(self)@,
                final(self)@,
                final(run)@,
                action,
            ),
    {
        if run.position < run.cids.len() {
            let card_id = run.cids[run.position];
            run.progress = Progress::AwaitingStates(saved);
            GradeAction::GetStates(card_id)
        } else {
            GradeAction::Done(self.end_transaction(saved, Op::GradeNow, Ok(())))
        }
    }

    fn grade_abandon<S>(&mut self, saved: Savepoint, err: AnkiError) -> (action: GradeAction<S>)
        requires
            saved@.current_step is None,
            saved@.usn.0 < i32::MAX,
        ensures
            final(self)@ == saved@,
            action == GradeAction::<S>::Done(Err(err)),
    {
        GradeAction::Done(self.end_transaction(saved, Op::GradeNow, Err(err)))
    }

    /// Takes a run of immediate grading one step further: told what
    /// happened outside since the last step, it says what is to be done
    /// next. The whole run is one operation on the collection: it is made
    /// permanent when the last card has been answered, and undone if
    /// anything fails before that. A rating that is none of 0 to 3 never
    /// leads to an answer.
    pub fn grade_now<S>(&mut self, run: &mut GradeNow, event: GradeEvent<S>) -> (action: GradeAction<S>)
        requires
            old(run).wf(),
            old(run)@.phase == GradePhase::Ready && event is Begin ==> old(self)@.current_step is None
                && old(self)@.usn.0 < i32::MAX,
        ensures
            final(run).wf(),
            grading_stepped(old(self)@, old(run)@, event, final(self)@, final(run)@, action),
            rating_of(old(run)@.rating) is None ==> !(action is Answer),
    {
        let mut progress = Progress::Finished;
        std::mem::swap(&mut run.progress, &mut progress);
        match progress {
            Progress::Ready => match event {
                GradeEvent::Begin => {
                    let saved = self.begin_transaction(Op::GradeNow);
                    self.grade_next(run, saved)
                },
                _ => GradeAction::Done(Err(AnkiError::invalid_input("unexpected grading event"))),
            },
            Progress::AwaitingStates(saved) => match event {
                GradeEvent::States(states, now) => {
                    match answer_for(run.cids[run.position], states, run.rating, now) {
                        Ok(answer) => {
                            run.progress = Progress::AwaitingAnswer(saved);
                            GradeAction::Answer(answer)
                        },
                        Err(err) => self.grade_abandon(saved, err),
                    }
                },
                GradeEvent::Failed(err) => self.grade_abandon(saved, err),
                _ => self.grade_abandon(saved, AnkiError::invalid_input("unexpected grading event")),
            },
            Progress::AwaitingAnswer(saved) => match event {
                GradeEvent::Answered => {
                    assert(run.position < run.cids.len());
                    run.position = run.position + 1;
                    self.grade_next(run, saved)
                },
                GradeEvent::Failed(err) => self.grade_abandon(saved, err),
                _ => self.grade_abandon(saved, AnkiError::invalid_input("unexpected grading event")),
            },
            Progress::Finished => GradeAction::Done(
                Err(AnkiError::invalid_input("unexpected grading event")),
            ),
        }
    }
}

} // verus!
