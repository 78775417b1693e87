use anki_sched::card::Card;
use anki_sched::card::CardId;
use anki_sched::card::DeckId;
use anki_sched::card::NoteId;
use anki_sched::card::Usn;
use anki_sched::collection::Collection;
use anki_sched::error::AnkiError;
use anki_sched::ops::Op;
use anki_sched::ops::OpChanges;
use anki_sched::ops::OpOutput;
use anki_sched::ops::StateChanges;
use anki_sched::scheduler::answering::answer_for;
use anki_sched::scheduler::answering::CardAnswer;
use anki_sched::scheduler::answering::GradeAction;
use anki_sched::scheduler::answering::GradeEvent;
use anki_sched::scheduler::answering::GradeNow;
use anki_sched::scheduler::answering::GradePhase;
use anki_sched::scheduler::answering::Rating;
use anki_sched::scheduler::answering::SchedulingStates;
use anki_sched::timing::SchedTimingToday;
use anki_sched::timing::TimestampMillis;
use anki_sched::timing::TimestampSecs;
use anki_sched::undo::UndoableChange;

fn card(id: i64) -> Card {
    let mut card = Card::new(NoteId(id * 10), 0, DeckId(1), id as i32);
    card.id = CardId(id);
    card
}

fn collection() -> Collection {
    let mut col = Collection::new(
        Usn(0),
        SchedTimingToday {
            days_elapsed: 10,
            next_day_at: TimestampSecs(1_700_000_000),
        },
    );
    for id in 1..=4 {
        col.add_card(card(id)).unwrap();
    }
    col
}

fn cards_of(col: &Collection) -> Vec<Card> {
    (1..=9).filter_map(|id| col.get_card(CardId(id))).collect()
}

/// The states that stand in for what the answering subsystem computes: a
/// state is the interval it gives the card.
fn states_of(card: &Card) -> SchedulingStates<u32> {
    SchedulingStates {
        current: card.interval,
        again: 1,
        hard: card.id.0 as u32 * 10 + 2,
        good: card.id.0 as u32 * 10 + 3,
        easy: card.id.0 as u32 * 10 + 4,
    }
}

/// Drives a run to its end as the answering subsystem would.
fn grade(
    col: &mut Collection,
    cids: &[i64],
    rating: i32,
) -> (Result<OpOutput<()>, AnkiError>, Vec<CardAnswer<u32>>) {
    let mut run = GradeNow::new(cids.iter().map(|id| CardId(*id)).collect(), rating);
    assert_eq!(run.phase(), GradePhase::Ready);
    let mut answers = Vec::new();
    let mut action = col.grade_now(&mut run, GradeEvent::Begin);
    loop {
        action = match action {
            GradeAction::GetStates(id) => {
                assert_eq!(run.phase(), GradePhase::AwaitingStates);
                let event = match col.get_card(id) {
                    Some(card) => GradeEvent::States(states_of(&card), TimestampMillis(1000 + id.0)),
                    None => GradeEvent::Failed(AnkiError::not_found("card", id.0.to_string())),
                };
                col.grade_now(&mut run, event)
            }
            GradeAction::Answer(answer) => {
                assert_eq!(run.phase(), GradePhase::AwaitingAnswer);
                let original = col.get_card(answer.card_id).unwrap();
                let mut changed = original;
                changed.interval = answer.new_state;
                col.update_card_inner(&mut changed, original, Usn(0));
                answers.push(answer);
                col.grade_now(&mut run, GradeEvent::Answered)
            }
            GradeAction::Done(result) => {
                assert_eq!(run.phase(), GradePhase::Finished);
                return (result, answers);
            }
        }
    }
}

#[test]
fn each_rating_selects_its_state() {
    let states = || SchedulingStates {
        current: "current",
        again: "again",
        hard: "hard",
        good: "good",
        easy: "easy",
    };
    for (number, rating, state) in [
        (0, Rating::Again, "again"),
        (1, Rating::Hard, "hard"),
        (2, Rating::Good, "good"),
        (3, Rating::Easy, "easy"),
    ] {
        assert_eq!(
            answer_for(CardId(5), states(), number, TimestampMillis(77)),
            Ok(CardAnswer {
                card_id: CardId(5),
                current_state: "current",
                new_state: state,
                rating,
                answered_at: TimestampMillis(77),
                milliseconds_taken: 0,
                from_queue: false,
            })
        );
    }
    for number in [-1, 4, 5, i32::MIN, i32::MAX] {
        assert_eq!(
            answer_for(CardId(5), states(), number, TimestampMillis(77)),
            Err(AnkiError::invalid_input("invalid rating"))
        );
    }
}

#[test]
fn cards_are_graded_in_order_as_one_operation() {
    let mut col = collection();
    let (result, answers) = grade(&mut col, &[3, 1, 4], 2);
    assert_eq!(
        result,
        Ok(OpOutput {
            output: (),
            changes: OpChanges {
                op: Op::GradeNow,
                changes: StateChanges {
                    card: true,
                    config: false,
                    mtime: true
                }
            }
        })
    );
    let graded: Vec<(i64, u32, i64)> = answers
        .iter()
        .map(|a| (a.card_id.0, a.new_state, a.answered_at.0))
        .collect();
    assert_eq!(graded, vec![(3, 33, 1003), (1, 13, 1001), (4, 43, 1004)]);
    assert!(answers.iter().all(|a| !a.from_queue
        && a.milliseconds_taken == 0
        && a.rating == Rating::Good
        && a.current_state == 0));
    assert_eq!(col.get_card(CardId(3)).unwrap().interval, 33);
    assert_eq!(col.get_card(CardId(2)).unwrap(), card(2));
    assert_eq!(col.undo_steps().len(), 1);
    assert_eq!(col.undo_steps()[0].kind, Op::GradeNow);
    assert_eq!(
        col.undo_steps()[0].changes,
        vec![
            UndoableChange::Card(card(3)),
            UndoableChange::Card(card(1)),
            UndoableChange::Card(card(4))
        ]
    );
    assert_eq!(col.usn(), Usn(1));
}

#[test]
fn a_card_named_twice_is_graded_twice() {
    let mut col = collection();
    let (result, answers) = grade(&mut col, &[2, 2], 3);
    assert!(result.is_ok());
    assert_eq!(answers[0].current_state, 0);
    assert_eq!(answers[1].current_state, 24);
}

#[test]
fn invalid_rating_fails_and_touches_no_card() {
    for rating in [-1, 4, 100] {
        let mut col = collection();
        let before = cards_of(&col);
        let (result, answers) = grade(&mut col, &[1, 2], rating);
        assert_eq!(result, Err(AnkiError::invalid_input("invalid rating")));
        assert!(answers.is_empty());
        assert_eq!(cards_of(&col), before);
        assert!(col.undo_steps().is_empty());
        assert_eq!(col.usn(), Usn(0));
    }
}

#[test]
fn no_cards_means_no_rating_is_looked_at() {
    let mut col = collection();
    let (result, answers) = grade(&mut col, &[], 9);
    assert_eq!(
        result,
        Ok(OpOutput {
            output: (),
            changes: OpChanges {
                op: Op::GradeNow,
                changes: StateChanges {
                    card: false,
                    config: false,
                    mtime: false
                }
            }
        })
    );
    assert!(answers.is_empty());
    assert_eq!(col.undo_steps().len(), 1);
    assert_eq!(col.usn(), Usn(1));
}

#[test]
fn failure_after_an_answer_undoes_the_answer() {
    let mut col = collection();
    let before = cards_of(&col);
    let (result, answers) = grade(&mut col, &[1, 77, 2], 1);
    assert_eq!(result, Err(AnkiError::not_found("card", "77".to_string())));
    assert_eq!(answers.len(), 1);
    assert_eq!(cards_of(&col), before);
    assert!(col.undo_steps().is_empty());
    assert_eq!(col.usn(), Usn(0));
}

#[test]
fn missing_first_card_is_reported_before_the_rating() {
    let mut col = collection();
    let (result, answers) = grade(&mut col, &[77], 9);
    assert_eq!(result, Err(AnkiError::not_found("card", "77".to_string())));
    assert!(answers.is_empty());
}

fn is_unexpected(action: GradeAction<u32>) -> bool {
    match action {
        GradeAction::Done(result) => {
            result == Err(AnkiError::invalid_input("unexpected grading event"))
        }
        _ => false,
    }
}

#[test]
fn events_out_of_turn_end_the_run() {
    let mut col = collection();
    let mut run = GradeNow::new(vec![CardId(1)], 2);
    assert!(is_unexpected(col.grade_now(&mut run, GradeEvent::Answered)));
    assert_eq!(run.phase(), GradePhase::Finished);
    assert!(is_unexpected(col.grade_now(&mut run, GradeEvent::Begin)));

    let before = cards_of(&col);
    let mut run = GradeNow::new(vec![CardId(1)], 2);
    let action: GradeAction<u32> = col.grade_now(&mut run, GradeEvent::Begin);
    assert!(matches!(action, GradeAction::GetStates(CardId(1))));
    let original = col.get_card(CardId(1)).unwrap();
    let mut changed = original;
    changed.due = 55;
    col.update_card_inner(&mut changed, original, Usn(0));
    assert!(is_unexpected(col.grade_now(&mut run, GradeEvent::Answered)));
    assert_eq!(run.phase(), GradePhase::Finished);
    assert_eq!(cards_of(&col), before);
    assert!(col.undo_steps().is_empty());

    let mut run = GradeNow::new(vec![CardId(1)], 2);
    let _: GradeAction<u32> = col.grade_now(&mut run, GradeEvent::Begin);
    let action = col.grade_now(
        &mut run,
        GradeEvent::States(states_of(&card(1)), TimestampMillis(1)),
    );
    assert!(matches!(action, GradeAction::Answer(_)));
    assert!(is_unexpected(col.grade_now(&mut run, GradeEvent::Begin)));
    assert_eq!(cards_of(&col), before);
}
