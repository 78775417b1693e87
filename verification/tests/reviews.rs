use anki_sched::card::Card;
use anki_sched::card::CardQueue;
use anki_sched::card::CardType;
use anki_sched::card::DeckId;
use anki_sched::card::FsrsMemoryState;
use anki_sched::card::NoteId;
use anki_sched::error::AnkiError;
use anki_sched::error::InvalidInputError;
use anki_sched::scheduler::reviews::parse_due_date_str;
use anki_sched::scheduler::reviews::DueDateSpecifier;
use anki_sched::scheduler::reviews::IntervalModel;
use anki_sched::timing::is_unix_epoch_timestamp;
use anki_sched::timing::TimestampSecs;

/// An ease multiplier in thousandths.
fn permille(factor: f32) -> u16 {
    (factor * 1000.0).round() as u16
}

#[test]
fn parse() -> Result<(), AnkiError> {
    type S = DueDateSpecifier;
    assert!(parse_due_date_str("").is_err());
    assert!(parse_due_date_str("x").is_err());
    assert!(parse_due_date_str("-5").is_err());
    assert_eq!(
        parse_due_date_str("5")?,
        S {
            min: 5,
            max: 5,
            force_reset: false
        }
    );
    assert_eq!(
        parse_due_date_str("5!")?,
        S {
            min: 5,
            max: 5,
            force_reset: true
        }
    );
    assert_eq!(
        parse_due_date_str("50-70")?,
        S {
            min: 50,
            max: 70,
            force_reset: false
        }
    );
    assert_eq!(
        parse_due_date_str("70-50!")?,
        S {
            min: 50,
            max: 70,
            force_reset: true
        }
    );
    Ok(())
}

#[test]
fn due_date() {
    let mut c = Card::new(NoteId(0), 0, DeckId(0), 0);

    // setting the due date of a new card will convert it
    c.set_due_date(5, 0, 2, permille(1.8), false);
    assert_eq!(c.ctype, CardType::Review);
    assert_eq!(c.due, 7);
    assert_eq!(c.interval, 2);
    assert_eq!(c.ease_factor, 1800);

    // reschedule it again the next day, shifting it from day 7 to day 9
    c.set_due_date(6, 0, 3, permille(2.5), false);
    assert_eq!(c.due, 9);
    assert_eq!(c.interval, 2);
    assert_eq!(c.ease_factor, 1800); // interval doesn't change

    // we can bring cards forward too - return it to its original due date
    c.set_due_date(6, 0, 1, permille(2.4), false);
    assert_eq!(c.due, 7);
    assert_eq!(c.interval, 2);
    assert_eq!(c.ease_factor, 1800); // interval doesn't change

    // we can force the interval to be reset instead of shifted
    c.set_due_date(6, 0, 3, permille(2.3), true);
    assert_eq!(c.due, 9);
    assert_eq!(c.interval, 3);
    assert_eq!(c.ease_factor, 1800); // interval doesn't change

    // should work in a filtered deck
    c.interval = 2;
    c.ease_factor = 0;
    c.original_due = 7;
    c.original_deck_id = DeckId(1);
    c.due = -10000;
    c.queue = CardQueue::New;
    c.set_due_date(6, 0, 1, permille(2.2), false);
    assert_eq!(c.due, 7);
    assert_eq!(c.interval, 2);
    assert_eq!(c.ease_factor, 2200);
    assert_eq!(c.queue, CardQueue::Review);
    assert_eq!(c.original_due, 0);
    assert_eq!(c.original_deck_id, DeckId(0));

    // relearning treated like review
    c.ctype = CardType::Relearn;
    c.original_due = c.due;
    c.due = 12345678;
    c.set_due_date(6, 0, 10, permille(2.1), false);
    assert_eq!(c.due, 16);
    assert_eq!(c.interval, 2);
    assert_eq!(c.ease_factor, 2200); // interval doesn't change
}

#[test]
fn parse_orders_the_two_numbers() {
    let forward = parse_due_date_str("3-9").unwrap();
    let backward = parse_due_date_str("9-3").unwrap();
    assert_eq!(forward, backward);
    assert_eq!(forward.min, 3);
    assert_eq!(forward.max, 9);
    let same = parse_due_date_str("4-4").unwrap();
    assert_eq!((same.min, same.max), (4, 4));
}

#[test]
fn parse_sets_the_flag_only_for_the_mark() {
    for text in ["0", "12", "1-2", "2-1", "007"] {
        assert!(!parse_due_date_str(text).unwrap().force_reset);
        let marked = format!("{}!", text);
        assert!(parse_due_date_str(&marked).unwrap().force_reset);
    }
}

#[test]
fn parse_reads_leading_zeros_and_the_largest_number() {
    assert_eq!(parse_due_date_str("007").unwrap().min, 7);
    assert_eq!(
        parse_due_date_str("0-4294967295").unwrap(),
        DueDateSpecifier {
            min: 0,
            max: 4294967295,
            force_reset: false
        }
    );
    assert_eq!(parse_due_date_str("00000000000000000000012").unwrap().max, 12);
}

#[test]
fn parse_reports_numbers_that_do_not_fit() {
    assert_eq!(parse_due_date_str("4294967296"), Err(AnkiError::ParseNumError));
    assert_eq!(parse_due_date_str("1-4294967296"), Err(AnkiError::ParseNumError));
    assert_eq!(parse_due_date_str("4294967296-1!"), Err(AnkiError::ParseNumError));
    assert_eq!(
        parse_due_date_str("99999999999999999999999999"),
        Err(AnkiError::ParseNumError)
    );
}

#[test]
fn parse_rejects_malformed_text_with_the_text_itself() {
    for text in [
        "", "x", "-5", "5-", "-", "!", "5!!", "1-2-3", "1--2", " 5", "5 ", "+5", "5-x", "1.5",
        "5!6", "\u{663}",
    ] {
        assert_eq!(
            parse_due_date_str(text),
            Err(AnkiError::InvalidInput {
                source: InvalidInputError {
                    message: text.to_string(),
                    source: None
                }
            }),
            "{:?}",
            text
        );
    }
}

fn review_card(interval: u32, ease_factor: u16) -> Card {
    let mut card = Card::new(NoteId(1), 0, DeckId(1), 0);
    card.ctype = CardType::Review;
    card.queue = CardQueue::Review;
    card.due = 40;
    card.interval = interval;
    card.ease_factor = ease_factor;
    card
}

#[test]
fn review_card_keeps_interval_and_ease() {
    let mut card = review_card(12, 2350);
    card.set_due_date(100, 0, 30, 2500, false);
    assert_eq!(card.due, 130);
    assert_eq!(card.interval, 12);
    assert_eq!(card.ease_factor, 2350);
}

#[test]
fn review_card_without_interval_gets_one_day() {
    let mut card = review_card(0, 2350);
    card.set_due_date(100, 0, 30, 2500, false);
    assert_eq!(card.interval, 1);
}

#[test]
fn forced_reset_takes_the_offset_as_interval() {
    let mut card = review_card(12, 2350);
    card.set_due_date(100, 0, 30, 2500, true);
    assert_eq!(card.interval, 30);
    let mut card = review_card(12, 2350);
    card.set_due_date(100, 0, 0, 2500, true);
    assert_eq!(card.interval, 1);
    assert_eq!(card.due, 100);
}

#[test]
fn new_card_becomes_a_review_card_with_the_given_ease() {
    let mut card = Card::new(NoteId(1), 0, DeckId(1), 17);
    card.set_due_date(10, 0, 4, permille(2.5), false);
    assert_eq!(card.ease_factor, 2500);
    assert_eq!(card.ctype, CardType::Review);
    assert_eq!(card.queue, CardQueue::Review);
    assert_eq!(card.interval, 4);
    assert_eq!(card.due, 14);
    assert_eq!(card.original_position, Some(17));
}

#[test]
fn learning_card_takes_the_offset_as_interval() {
    let mut card = review_card(12, 2000);
    card.ctype = CardType::Learn;
    card.queue = CardQueue::Learn;
    card.set_due_date(10, 0, 5, 2500, false);
    assert_eq!(card.interval, 5);
    assert_eq!(card.original_position, None);
}

#[test]
fn filtered_card_returns_home() {
    let mut card = review_card(12, 2350);
    card.deck_id = DeckId(99);
    card.original_deck_id = DeckId(5);
    card.original_due = 44;
    card.due = -3;
    card.set_due_date(100, 0, 2, 2500, false);
    assert_eq!(card.deck_id, DeckId(5));
    assert_eq!(card.original_deck_id, DeckId(0));
    assert_eq!(card.original_due, 0);
    assert_eq!(card.due, 102);

    let mut plain = review_card(12, 2350);
    plain.set_due_date(100, 0, 2, 2500, false);
    assert_eq!(plain.due, card.due);
}

#[test]
fn new_filtered_card_remembers_its_home_position() {
    let mut card = Card::new(NoteId(1), 0, DeckId(99), -100_000);
    card.original_deck_id = DeckId(5);
    card.original_due = 23;
    card.set_due_date(100, 0, 2, 2500, false);
    assert_eq!(card.original_position, Some(23));
}

#[test]
fn new_card_with_negative_due_keeps_the_bits_as_position() {
    let mut card = Card::new(NoteId(1), 0, DeckId(1), -1);
    card.schedule_as_review(3, 9, 2500);
    assert_eq!(card.original_position, Some(u32::MAX));
    assert_eq!(card.last_position(), Some(u32::MAX));
}

fn fitted(mut card: Card) -> Card {
    card.memory_state = Some(FsrsMemoryState {
        stability: 5.0f32.to_bits(),
        difficulty: 3.0f32.to_bits(),
    });
    card
}

#[test]
fn fitted_card_counts_from_its_last_review() {
    let mut card = fitted(review_card(12, 2350));
    card.last_review_time = Some(TimestampSecs(1_000_000));
    assert_eq!(card.interval_model(), IntervalModel::MemoryState);
    // ten days and a bit have passed by the start of the next day
    card.set_due_date(100, 1_000_000 + 10 * 86_400 + 5, 3, 2500, true);
    assert_eq!(card.interval, 13);
    assert_eq!(card.due, 103);
    assert_eq!(card.ease_factor, 2350);
}

#[test]
fn fitted_card_reviewed_in_the_future_counts_no_days() {
    let mut card = fitted(review_card(12, 2350));
    card.last_review_time = Some(TimestampSecs(2_000_000));
    card.set_due_date(100, 1_000_000, 3, 2500, false);
    assert_eq!(card.interval, 3);
}

#[test]
fn fitted_card_never_reviewed_shifts_with_its_due_day() {
    let mut card = fitted(review_card(12, 2350));
    card.due = 105;
    card.set_due_date(100, 0, 9, 2500, false);
    assert_eq!(card.interval, 16);

    let mut card = fitted(review_card(12, 2350));
    card.due = 105;
    card.set_due_date(100, 0, 1, 2500, false);
    assert_eq!(card.interval, 8);

    // brought forward by more than its interval: never below zero
    let mut card = fitted(review_card(2, 2350));
    card.due = 150;
    card.set_due_date(100, 0, 1, 2500, false);
    assert_eq!(card.interval, 0);

    // pushed back beyond what the field holds: never above its range
    let mut card = fitted(review_card(u32::MAX - 1, 2350));
    card.due = 0;
    card.set_due_date(100, 0, 1, 2500, false);
    assert_eq!(card.interval, u32::MAX);
}

#[test]
fn fitted_filtered_card_shifts_from_its_backup_due() {
    let mut card = fitted(review_card(12, 2350));
    card.original_deck_id = DeckId(5);
    card.original_due = 105;
    card.due = -7;
    card.set_due_date(100, 0, 9, 2500, false);
    assert_eq!(card.interval, 16);
}

#[test]
fn fitted_card_with_timestamp_due_is_counted_in_days() {
    let next_day_start: i64 = 1_700_000_000;
    // due two days and a bit after the start of the next day
    let mut card = fitted(review_card(12, 2350));
    card.due = (next_day_start + 2 * 86_400 + 100) as i32;
    card.set_due_date(100, next_day_start, 9, 2500, false);
    assert_eq!(card.interval, 12 + (109 - 102));

    // due a day and a half before it: the gap rounds toward zero
    let mut card = fitted(review_card(12, 2350));
    card.due = (next_day_start - 86_400 - 43_200) as i32;
    card.set_due_date(100, next_day_start, 9, 2500, false);
    assert_eq!(card.interval, 12 + (109 - 99));
}

#[test]
fn timestamps_are_told_from_day_numbers() {
    assert!(!is_unix_epoch_timestamp(0));
    assert!(!is_unix_epoch_timestamp(-5));
    assert!(!is_unix_epoch_timestamp(1_000_000_000));
    assert!(is_unix_epoch_timestamp(1_000_000_001));
    assert!(is_unix_epoch_timestamp(i32::MAX));
}

#[test]
fn elapsed_days_are_whole_and_never_negative() {
    assert_eq!(TimestampSecs(86_400).elapsed_days_since(TimestampSecs(0)), 1);
    assert_eq!(TimestampSecs(86_399).elapsed_days_since(TimestampSecs(0)), 0);
    assert_eq!(TimestampSecs(0).elapsed_days_since(TimestampSecs(86_400)), 0);
    assert_eq!(TimestampSecs(10 * 86_400 + 1).elapsed_days_since(TimestampSecs(-86_400)), 11);
    assert_eq!(
        TimestampSecs(i64::MAX).elapsed_days_since(TimestampSecs(i64::MIN)),
        (u64::MAX / 86_400)
    );
}

#[test]
fn reschedule_limits_are_checked() {
    let card = review_card(12, 2350);
    assert!(card.can_reschedule(100, 0, 30));
    assert!(card.can_reschedule(0, 0, i32::MAX as u32));
    assert!(!card.can_reschedule(1, 0, i32::MAX as u32));
    assert!(!card.can_reschedule(100, 0, u32::MAX));

    let mut old = fitted(review_card(12, 2350));
    old.last_review_time = Some(TimestampSecs(i64::MIN));
    assert!(!old.can_reschedule(100, i64::MAX, 3));
    old.last_review_time = Some(TimestampSecs(0));
    assert!(old.can_reschedule(100, 86_400 * 1000, 3));
}
