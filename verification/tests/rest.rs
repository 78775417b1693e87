use std::collections::HashMap;

use anki_sched::card::Card;
use anki_sched::card::CardId;
use anki_sched::card::DeckId;
use anki_sched::card::NoteId;
use anki_sched::card::Usn;
use anki_sched::collection::Collection;
use anki_sched::decks::Deck;
use anki_sched::decks::DeckConfig;
use anki_sched::decks::DeckConfigId;
use anki_sched::decks::DeckKind;
use anki_sched::error::AnkiError;
use anki_sched::rest::update_schedule;
use anki_sched::rest::with_col;
use anki_sched::rest::AddCardRequest;
use anki_sched::rest::AddCardResponse;
use anki_sched::rest::ApiError;
use anki_sched::rest::DeleteCardsRequest;
use anki_sched::rest::DeleteCardsResponse;
use anki_sched::rest::HttpError;
use anki_sched::rest::SuccessResponse;
use anki_sched::rest::UpdateCardContentRequest;
use anki_sched::rest::UpdateScheduleRequest;
use anki_sched::timing::SchedTimingToday;
use anki_sched::timing::TimestampSecs;

fn collection() -> Collection {
    let mut col = Collection::new(
        Usn(0),
        SchedTimingToday {
            days_elapsed: 20,
            next_day_at: TimestampSecs(1_700_000_000),
        },
    );
    col.add_deck_config(DeckConfig {
        id: DeckConfigId(1),
        initial_ease: 2500,
    })
    .unwrap();
    col.add_deck(Deck {
        id: DeckId(1),
        kind: DeckKind::Normal {
            config_id: DeckConfigId(1),
        },
    })
    .unwrap();
    let mut card = Card::new(NoteId(1), 0, DeckId(1), 0);
    card.id = CardId(11);
    col.add_card(card).unwrap();
    col
}

fn request(due: &str) -> UpdateScheduleRequest {
    UpdateScheduleRequest {
        due: due.to_string(),
    }
}

#[test]
fn errors_map_to_statuses() {
    assert_eq!(
        ApiError::Anki(AnkiError::not_found("card", "1".to_string())).status(),
        404
    );
    assert_eq!(ApiError::Anki(AnkiError::invalid_input("x")).status(), 400);
    assert_eq!(ApiError::Anki(AnkiError::Existing).status(), 500);
    assert_eq!(ApiError::Anki(AnkiError::UndoEmpty).status(), 500);
    assert_eq!(ApiError::Anki(AnkiError::ParseNumError).status(), 500);
    assert_eq!(ApiError::Anki(AnkiError::Interrupted).status(), 500);
    assert_eq!(ApiError::Json("expected a string".to_string()).status(), 400);
    assert_eq!(
        ApiError::Http(HttpError {
            code: 503,
            context: "closed".to_string()
        })
        .status(),
        503
    );
}

#[test]
fn errors_are_told_in_words() {
    assert_eq!(
        ApiError::Anki(AnkiError::invalid_input("bad days")).message(),
        "bad days"
    );
    assert_eq!(
        ApiError::Anki(AnkiError::not_found("card", "7".to_string())).message(),
        "No such card: '7'"
    );
    assert_eq!(ApiError::Anki(AnkiError::Existing).message(), "Existing");
    assert_eq!(
        ApiError::Anki(AnkiError::ParseNumError).message(),
        "parse_num_error"
    );
    assert_eq!(
        ApiError::Anki(AnkiError::InvalidRegex {
            info: "unclosed group".to_string()
        })
        .message(),
        "<pre>unclosed group</pre>"
    );
    assert_eq!(
        ApiError::Json("expected a string".to_string()).message(),
        "expected a string"
    );
    assert_eq!(
        ApiError::Http(HttpError {
            code: 503,
            context: "closed".to_string()
        })
        .message(),
        "closed"
    );
}

#[test]
fn errors_convert_into_api_errors() {
    assert_eq!(
        ApiError::from(AnkiError::Existing),
        ApiError::Anki(AnkiError::Existing)
    );
    let http = || HttpError {
        code: 500,
        context: "no collection".to_string(),
    };
    assert_eq!(ApiError::from(http()), ApiError::Http(http()));
}

#[test]
fn payloads_hold_what_was_sent() {
    let fields: HashMap<String, String> = [("Front".to_string(), "bonjour".to_string())]
        .into_iter()
        .collect();
    let add = AddCardRequest {
        deck_name: "French".to_string(),
        notetype_name: "Basic".to_string(),
        fields: fields.clone(),
        tags: vec!["greeting".to_string()],
    };
    assert_eq!(add.fields.get("Front").map(String::as_str), Some("bonjour"));
    assert_eq!(add.tags, vec!["greeting".to_string()]);
    let update = UpdateCardContentRequest { fields, tags: None };
    assert_eq!(update.fields, add.fields);
    assert_eq!(update.tags, None);
    assert_eq!(
        AddCardResponse {
            card_ids: vec![3, 4]
        }
        .card_ids,
        DeleteCardsRequest {
            card_ids: vec![3, 4]
        }
        .card_ids
    );
    let deleted = DeleteCardsResponse {
        success: true,
        deleted_count: 2,
    };
    assert!(deleted.success);
    assert_eq!(deleted.deleted_count, 2);
}

#[test]
fn wrapped_due_is_unwrapped() {
    for (due, expected) in [
        ("+5d", "5"),
        ("+3-9!d", "3-9!"),
        ("+d", ""),
        ("5", "5"),
        ("+5", "+5"),
        ("5d", "5d"),
        ("+", "+"),
        ("d", "d"),
        ("", ""),
        ("+\u{663}d", "\u{663}"),
        ("++5dd", "+5d"),
    ] {
        assert_eq!(request(due).due_str(), expected, "{:?}", due);
    }
}

#[test]
fn schedule_update_moves_the_card() {
    let mut col = collection();
    assert_eq!(
        update_schedule(&mut col, 11, &request("+4d")),
        Some(Ok(SuccessResponse { success: true }))
    );
    assert_eq!(col.get_card(CardId(11)).unwrap().due, 24);
    assert_eq!(
        update_schedule(&mut col, 11, &request("6!")),
        Some(Ok(SuccessResponse { success: true }))
    );
    assert_eq!(col.get_card(CardId(11)).unwrap().due, 26);
    assert_eq!(col.get_card(CardId(11)).unwrap().interval, 6);
}

#[test]
fn schedule_update_reports_what_went_wrong() {
    let mut col = collection();
    assert_eq!(
        update_schedule(&mut col, 12, &request("+4d")),
        Some(Err(AnkiError::not_found("card", "12".to_string())))
    );
    assert_eq!(
        update_schedule(&mut col, 11, &request("+d")),
        Some(Err(AnkiError::invalid_input("")))
    );
    assert_eq!(
        update_schedule(&mut col, 11, &request("tomorrow")),
        Some(Err(AnkiError::invalid_input("tomorrow")))
    );
    assert_eq!(col.get_card(CardId(11)).unwrap().due, 0);
}

#[test]
fn schedule_update_of_a_missing_card_is_reported_whatever_the_days() {
    let mut col = collection();
    assert_eq!(
        update_schedule(&mut col, 12, &request("+4294967295d")),
        Some(Err(AnkiError::not_found("card", "12".to_string())))
    );
}

#[test]
fn schedule_update_beyond_the_fields_is_not_begun() {
    let mut col = collection();
    assert_eq!(update_schedule(&mut col, 11, &request("+4294967295d")), None);
    assert_eq!(update_schedule(&mut col, 11, &request("2147483628")), None);
    assert_eq!(col.get_card(CardId(11)).unwrap().due, 0);
    assert!(col.undo_steps().is_empty());
    assert_eq!(
        update_schedule(&mut col, 11, &request("2147483627")),
        Some(Ok(SuccessResponse { success: true }))
    );
    assert_eq!(col.get_card(CardId(11)).unwrap().due, i32::MAX);

    let mut col = collection();
    let inside = with_col(&mut col, |col| {
        col.transact(anki_sched::ops::Op::UpdateCard, |col| {
            Ok(update_schedule(col, 11, &request("1")))
        })
    });
    assert_eq!(inside.map(|out| out.output), Ok(None));
}

#[test]
fn operations_run_for_a_request_report_api_errors() {
    let mut col = collection();
    let found = with_col(&mut col, |col| {
        col.get_card(CardId(11))
            .ok_or(AnkiError::not_found("card", "11".to_string()))
    });
    assert_eq!(found.map(|card| card.id), Ok(CardId(11)));
    let missing = with_col(&mut col, |col| {
        col.get_card(CardId(12))
            .ok_or(AnkiError::not_found("card", "12".to_string()))
    });
    assert_eq!(
        missing,
        Err(ApiError::Anki(AnkiError::not_found("card", "12".to_string())))
    );
    let changed = with_col(&mut col, |col| {
        update_schedule(col, 11, &request("+2d")).unwrap()
    });
    assert_eq!(changed, Ok(SuccessResponse { success: true }));
    assert_eq!(col.get_card(CardId(11)).unwrap().due, 22);
}
