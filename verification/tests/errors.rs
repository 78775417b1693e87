use anki_sched::error::AnkiError;
use anki_sched::error::CardTypeError;
use anki_sched::error::CardTypeErrorDetails;
use anki_sched::error::HelpPage;
use anki_sched::error::InvalidInputError;
use anki_sched::error::NotFoundError;
use anki_sched::error::TemplateError;
use anki_sched::text::chars_of;
use anki_sched::text::decimal_string;

#[test]
fn codes_name_the_kind() {
    assert_eq!(AnkiError::invalid_input("x").code(), "invalid_input");
    assert_eq!(AnkiError::not_found("card", "1".to_string()).code(), "not_found");
    assert_eq!(AnkiError::ParseNumError.code(), "parse_num_error");
    assert_eq!(AnkiError::Existing.code(), "existing");
    assert_eq!(AnkiError::UndoEmpty.code(), "undo_empty");
    assert_eq!(
        AnkiError::TemplateError {
            info: String::new()
        }
        .code(),
        "template_error"
    );
    assert_eq!(
        AnkiError::FsrsInsufficientReviews { count: 3 }.code(),
        "fsrs_insufficient_reviews"
    );
    assert_eq!(
        AnkiError::FsrsUnableToDetermineDesiredRetention.code(),
        "fsrs_unable_to_determine_desired_retention"
    );
    assert_eq!(
        AnkiError::InvalidCertificateFormat.code(),
        "invalid_certificate_format"
    );
}

#[test]
fn constructors_fill_the_fields() {
    assert_eq!(
        AnkiError::invalid_input("bad"),
        AnkiError::InvalidInput {
            source: InvalidInputError {
                message: "bad".to_string(),
                source: None
            }
        }
    );
    assert_eq!(
        AnkiError::not_found("deck", "12".to_string()),
        AnkiError::NotFound {
            source: NotFoundError {
                entity: "deck".to_string(),
                identifier: "12".to_string()
            }
        }
    );
}

#[test]
fn context_tells_what_was_missing() {
    assert_eq!(
        AnkiError::not_found("card", "123".to_string()).context(),
        "No such card: '123'"
    );
    assert_eq!(AnkiError::invalid_input("bad").context(), "");
    let with_source = AnkiError::InvalidInput {
        source: InvalidInputError {
            message: "bad".to_string(),
            source: Some("the cause".to_string()),
        },
    };
    assert_eq!(with_source.context(), "the cause");
    assert_eq!(AnkiError::Interrupted.context(), "");
}

fn card_type_error(source: CardTypeErrorDetails) -> AnkiError {
    AnkiError::CardTypeError {
        source: CardTypeError {
            notetype: "Basic".to_string(),
            ordinal: 0,
            source,
        },
    }
}

#[test]
fn help_pages_exist_for_card_type_errors_only() {
    assert_eq!(
        card_type_error(CardTypeErrorDetails::TemplateParseError).help_page(),
        Some(HelpPage::CardTypeTemplateError)
    );
    assert_eq!(
        card_type_error(CardTypeErrorDetails::NoSuchField {
            field: "Front".to_string()
        })
        .help_page(),
        Some(HelpPage::CardTypeTemplateError)
    );
    assert_eq!(
        card_type_error(CardTypeErrorDetails::Duplicate { index: 1 }).help_page(),
        Some(HelpPage::CardTypeDuplicate)
    );
    assert_eq!(
        card_type_error(CardTypeErrorDetails::NoFrontField).help_page(),
        Some(HelpPage::CardTypeNoFrontField)
    );
    assert_eq!(
        card_type_error(CardTypeErrorDetails::MissingCloze).help_page(),
        Some(HelpPage::CardTypeMissingCloze)
    );
    assert_eq!(AnkiError::invalid_input("x").help_page(), None);
    assert_eq!(AnkiError::Deleted.help_page(), None);
}

#[test]
fn template_errors_compare_by_content() {
    assert_eq!(
        TemplateError::NoClosingBrackets("{{".to_string()),
        TemplateError::NoClosingBrackets("{{".to_string())
    );
    assert_ne!(
        TemplateError::ConditionalNotOpen {
            closed: "a".to_string(),
            currently_open: None
        },
        TemplateError::ConditionalNotOpen {
            closed: "a".to_string(),
            currently_open: Some("b".to_string())
        }
    );
}

#[test]
fn integers_are_written_in_decimal() {
    for n in [
        0i64,
        1,
        9,
        10,
        11,
        99,
        100,
        1234567890,
        -1,
        -10,
        -9876,
        i64::MAX,
        i64::MIN,
        i64::MIN + 1,
    ] {
        assert_eq!(decimal_string(n), n.to_string());
    }
}

#[test]
fn strings_are_split_into_their_characters() {
    assert_eq!(chars_of(""), Vec::<char>::new());
    assert_eq!(chars_of("5-7!"), vec!['5', '-', '7', '!']);
    assert_eq!(chars_of("a\u{663}\u{1F600}"), vec!['a', '\u{663}', '\u{1F600}']);
}

#[test]
fn messages_that_need_no_translation_are_given() {
    assert_eq!(
        AnkiError::invalid_input("bad days").plain_message(),
        Some("bad days".to_string())
    );
    assert_eq!(
        AnkiError::TemplateError {
            info: "Field not found".to_string()
        }
        .plain_message(),
        Some("Field not found".to_string())
    );
    assert_eq!(
        AnkiError::InvalidRegex {
            info: "unclosed group".to_string()
        }
        .plain_message(),
        Some("<pre>unclosed group</pre>".to_string())
    );
    assert_eq!(
        AnkiError::JsonError {
            info: "expected `,` at line 1".to_string()
        }
        .plain_message(),
        Some("JsonError { info: \"expected `,` at line 1\" }".to_string())
    );
}

#[test]
fn errors_of_no_concern_to_a_user_are_written_for_debugging() {
    for err in [
        AnkiError::JsonError {
            info: "a \"quoted\" word\n\ta \\ and \u{7f}\u{e9}".to_string(),
        },
        AnkiError::ProtoError {
            info: String::new(),
        },
        AnkiError::ProtoError {
            info: "buffer underflow".to_string(),
        },
        AnkiError::Interrupted,
        AnkiError::CollectionNotOpen,
        AnkiError::CollectionAlreadyOpen,
        AnkiError::Existing,
        AnkiError::InvalidServiceIndex,
        AnkiError::InvalidMethodIndex,
        AnkiError::UndoEmpty,
        AnkiError::InvalidCertificateFormat,
    ] {
        assert_eq!(err.plain_message(), Some(format!("{:?}", err)));
    }
}

#[test]
fn messages_for_the_translator_are_not_given() {
    for err in [
        AnkiError::not_found("card", "1".to_string()),
        AnkiError::ParseNumError,
        AnkiError::Deleted,
        AnkiError::MultipleNotetypesSelected,
        AnkiError::DatabaseCheckRequired,
        AnkiError::MediaCheckRequired,
        AnkiError::InvalidId,
        AnkiError::FsrsParamsInvalid,
        AnkiError::FsrsInsufficientData,
        AnkiError::FsrsInsufficientReviews { count: 3 },
        AnkiError::FsrsUnableToDetermineDesiredRetention,
        AnkiError::SchedulerUpgradeRequired,
        AnkiError::CardTypeError {
            source: CardTypeError {
                notetype: "Basic".to_string(),
                ordinal: 0,
                source: CardTypeErrorDetails::NoFrontField,
            },
        },
    ] {
        assert_eq!(err.plain_message(), None, "{:?}", err);
    }
}
