//! The error taxonomy of the scheduling core.

use vstd::prelude::*;
use vstd::string::*;

use crate::text::debug_string;
use crate::text::debug_text;
use crate::text::text_of;

verus! {

/// The caller supplied something that cannot be acted on. Recoverable by
/// correcting the input; nothing is ever partially applied.
#[derive(Debug, PartialEq, Eq)]
pub struct InvalidInputError {
    /// What was wrong, in words, or the offending input itself.
    pub message: String,
    /// The text of an underlying error, where there was one.
    pub source: Option<String>,
}

/// A requested entity does not exist.
#[derive(Debug, PartialEq, Eq)]
pub struct NotFoundError {
    /// The kind of entity, in lower case ("card", "deck", ...).
    pub entity: String,
    /// The identifier that was looked for, as written.
    pub identifier: String,
}

#[derive(Debug, PartialEq, Eq)]
pub enum TemplateError {
    NoClosingBrackets(String),
    ConditionalNotClosed(String),
    ConditionalNotOpen { closed: String, currently_open: Option<String> },
    FieldNotFound { filters: String, field: String },
    NoSuchConditional(String),
}

#[derive(Debug, PartialEq, Eq)]
pub struct CardTypeError {
    pub notetype: String,
    pub ordinal: usize,
    pub source: CardTypeErrorDetails,
}

#[derive(Debug, PartialEq, Eq)]
pub enum CardTypeErrorDetails {
    TemplateParseError,
    Duplicate { index: usize },
    NoFrontField,
    NoSuchField { field: String },
    MissingCloze,
}

/// The manual page that explains an error.
#[derive(Clone, Copy, Debug, PartialEq, Eq, Structural)]
pub enum HelpPage {
    CardTypeDuplicate,
    CardTypeNoFrontField,
    CardTypeMissingCloze,
    CardTypeTemplateError,
}

#[derive(Debug, PartialEq, Eq)]
#[allow(inconsistent_fields)]
pub enum AnkiError {
    InvalidInput { source: InvalidInputError },
    TemplateError { info: String },
    CardTypeError { source: CardTypeError },
    JsonError { info: String },
    ProtoError { info: String },
    ParseNumError,
    Interrupted,
    CollectionNotOpen,
    CollectionAlreadyOpen,
    NotFound { source: NotFoundError },
    /// An absent card or note in a context where absence is expected.
    Deleted,
    Existing,
    InvalidRegex { info: String },
    UndoEmpty,
    MultipleNotetypesSelected,
    DatabaseCheckRequired,
    MediaCheckRequired,
    InvalidId,
    InvalidMethodIndex,
    InvalidServiceIndex,
    FsrsParamsInvalid,
    FsrsInsufficientData,
    FsrsInsufficientReviews { count: usize },
    FsrsUnableToDetermineDesiredRetention,
    SchedulerUpgradeRequired,
    InvalidCertificateFormat,
}

/// What the scheduling operations themselves can fail with, as plain data.
pub enum Failure {
    /// Invalid input, with its message.
    InvalidInput(Seq<char>),
    /// A missing entity: its type name and its identifier.
    NotFound(Seq<char>, Seq<char>),
    /// A number that does not fit its type.
    ParseNum,
}

impl InvalidInputError {
    pub open spec fn spec_context(&self) -> Seq<char> {
        match self.source {
            Some(text) => text@,
            None => Seq::empty(),
        }
    }

    /// The text of the underlying error, or nothing.
    pub fn context(&self) -> (text: String)
        ensures
            text@ == self.spec_context(),
    {
        match &self.source {
            Some(text) => text.clone(),
            None => String::new(),
        }
    }
}

impl NotFoundError {
    pub open spec fn spec_context(&self) -> Seq<char> {
        "No such "@ + self.entity@ + ": '"@ + self.identifier@ + "'"@
    }

    /// A sentence naming what was missing.
    pub fn context(&self) -> (text: String)
        ensures
            text@ == self.spec_context(),
    {
        let mut text = String::from_str("No such ");
        text.append(self.entity.as_str());
        text.append(": '");
        text.append(self.identifier.as_str());
        text.append("'");
        text
    }
}

impl AnkiError {
    /// Whether this error is the given failure of a scheduling operation.
    pub open spec fn is_failure(&self, failure: Failure) -> bool {
        match failure {
            Failure::InvalidInput(message) => {
                &&& self matches AnkiError::InvalidInput { source }
                &&& source.message@ == message
                &&& source.source is None
            },
            Failure::NotFound(entity, identifier) => {
                &&& self matches AnkiError::NotFound { source }
                &&& source.entity@ == entity
                &&& source.identifier@ == identifier
            },
            Failure::ParseNum => self is ParseNumError,
        }
    }

    /// An invalid-input error carrying `message`.
    pub fn invalid_input(message: &str) -> (err: AnkiError)
        ensures
            err.is_failure(Failure::InvalidInput(message@)),
    {
        AnkiError::InvalidInput {
            source: InvalidInputError { message: String::from_str(message), source: None },
        }
    }

    /// A not-found error for the entity `entity` with `identifier`.
    pub fn not_found(entity: &str, identifier: String) -> (err: AnkiError)
        ensures
            err.is_failure(Failure::NotFound(entity@, identifier@)),
    {
        AnkiError::NotFound {
            source: NotFoundError { entity: String::from_str(entity), identifier },
        }
    }

    pub open spec fn spec_code(&self) -> Seq<char> {
        match self {
            AnkiError::InvalidInput { .. } => "invalid_input"@,
            AnkiError::TemplateError { .. } => "template_error"@,
            AnkiError::CardTypeError { .. } => "card_type_error"@,
            AnkiError::JsonError { .. } => "json_error"@,
            AnkiError::ProtoError { .. } => "proto_error"@,
            AnkiError::ParseNumError => "parse_num_error"@,
            AnkiError::Interrupted => "interrupted"@,
            AnkiError::CollectionNotOpen => "collection_not_open"@,
            AnkiError::CollectionAlreadyOpen => "collection_already_open"@,
            AnkiError::NotFound { .. } => "not_found"@,
            AnkiError::Deleted => "deleted"@,
            AnkiError::Existing => "existing"@,
            AnkiError::InvalidRegex { .. } => "invalid_regex"@,
            AnkiError::UndoEmpty => "undo_empty"@,
            AnkiError::MultipleNotetypesSelected => "multiple_notetypes_selected"@,
            AnkiError::DatabaseCheckRequired => "database_check_required"@,
            AnkiError::MediaCheckRequired => "media_check_required"@,
            AnkiError::InvalidId => "invalid_id"@,
            AnkiError::InvalidMethodIndex => "invalid_method_index"@,
            AnkiError::InvalidServiceIndex => "invalid_service_index"@,
            AnkiError::FsrsParamsInvalid => "fsrs_params_invalid"@,
            AnkiError::FsrsInsufficientData => "fsrs_insufficient_data"@,
            AnkiError::FsrsInsufficientReviews { .. } => "fsrs_insufficient_reviews"@,
            AnkiError::FsrsUnableToDetermineDesiredRetention => "fsrs_unable_to_determine_desired_retention"@,
            AnkiError::SchedulerUpgradeRequired => "scheduler_upgrade_required"@,
            AnkiError::InvalidCertificateFormat => "invalid_certificate_format"@,
        }
    }

    /// A stable machine-readable name for the kind of error.
    pub fn code(&self) -> (code: &'static str)
        ensures
            code@ == self.spec_code(),
    {
        match self {
            AnkiError::InvalidInput { .. } => "invalid_input",
            AnkiError::TemplateError { .. } => "template_error",
            AnkiError::CardTypeError { .. } => "card_type_error",
            AnkiError::JsonError { .. } => "json_error",
            AnkiError::ProtoError { .. } => "proto_error",
            AnkiError::ParseNumError => "parse_num_error",
            AnkiError::Interrupted => "interrupted",
            AnkiError::CollectionNotOpen => "collection_not_open",
            AnkiError::CollectionAlreadyOpen => "collection_already_open",
            AnkiError::NotFound { .. } => "not_found",
            AnkiError::Deleted => "deleted",
            AnkiError::Existing => "existing",
            AnkiError::InvalidRegex { .. } => "invalid_regex",
            AnkiError::UndoEmpty => "undo_empty",
            AnkiError::MultipleNotetypesSelected => "multiple_notetypes_selected",
            AnkiError::DatabaseCheckRequired => "database_check_required",
            AnkiError::MediaCheckRequired => "media_check_required",
            AnkiError::InvalidId => "invalid_id",
            AnkiError::InvalidMethodIndex => "invalid_method_index",
            AnkiError::InvalidServiceIndex => "invalid_service_index",
            AnkiError::FsrsParamsInvalid => "fsrs_params_invalid",
            AnkiError::FsrsInsufficientData => "fsrs_insufficient_data",
            AnkiError::FsrsInsufficientReviews { .. } => "fsrs_insufficient_reviews",
            AnkiError::FsrsUnableToDetermineDesiredRetention => {
                "fsrs_unable_to_determine_desired_retention"
            },
            AnkiError::SchedulerUpgradeRequired => "scheduler_upgrade_required",
            AnkiError::InvalidCertificateFormat => "invalid_certificate_format",
        }
    }

    pub open spec fn spec_help_page(&self) -> Option<HelpPage> {
        match self {
            AnkiError::CardTypeError { source } => Some(
                match source.source {
                    CardTypeErrorDetails::TemplateParseError => HelpPage::CardTypeTemplateError,
                    CardTypeErrorDetails::NoSuchField { .. } => HelpPage::CardTypeTemplateError,
                    CardTypeErrorDetails::Duplicate { .. } => HelpPage::CardTypeDuplicate,
                    CardTypeErrorDetails::NoFrontField => HelpPage::CardTypeNoFrontField,
                    CardTypeErrorDetails::MissingCloze => HelpPage::CardTypeMissingCloze,
                },
            ),
            _ => None,
        }
    }

    /// The manual page for this error; only card-type errors have one.
    pub fn help_page(&self) -> (page: Option<HelpPage>)
        ensures
            page == self.spec_help_page(),
    {
        match self {
            AnkiError::CardTypeError { source } => Some(
                match &source.source {
                    CardTypeErrorDetails::TemplateParseError => HelpPage::CardTypeTemplateError,
                    CardTypeErrorDetails::NoSuchField { .. } => HelpPage::CardTypeTemplateError,
                    CardTypeErrorDetails::Duplicate { .. } => HelpPage::CardTypeDuplicate,
                    CardTypeErrorDetails::NoFrontField => HelpPage::CardTypeNoFrontField,
                    CardTypeErrorDetails::MissingCloze => HelpPage::CardTypeMissingCloze,
                },
            ),
            _ => None,
        }
    }

    pub open spec fn spec_plain_message(&self) -> Option<Seq<char>> {
        match self {
            AnkiError::InvalidInput { source } => Some(source.message@),
            AnkiError::TemplateError { info } => Some(info@),
            AnkiError::InvalidRegex { info } => Some("<pre>"@ + info@ + "</pre>"@),
            AnkiError::JsonError { info } => Some(
                "JsonError { info: "@ + debug_text(info@) + " }"@,
            ),
            AnkiError::ProtoError { info } => Some(
                "ProtoError { info: "@ + debug_text(info@) + " }"@,
            ),
            AnkiError::Interrupted => Some("Interrupted"@),
            AnkiError::CollectionNotOpen => Some("CollectionNotOpen"@),
            AnkiError::CollectionAlreadyOpen => Some("CollectionAlreadyOpen"@),
            AnkiError::Existing => Some("Existing"@),
            AnkiError::InvalidServiceIndex => Some("InvalidServiceIndex"@),
            AnkiError::InvalidMethodIndex => Some("InvalidMethodIndex"@),
            AnkiError::UndoEmpty => Some("UndoEmpty"@),
            AnkiError::InvalidCertificateFormat => Some("InvalidCertificateFormat"@),
            _ => None,
        }
    }

    /// The message of the error, where it can be given without a
    /// translation: the message of an invalid input; the text of a template
    /// error, which was translated where it arose; the text of an invalid
    /// pattern, marked as preformatted; and, for the kinds that are of no
    /// concern to a user, the error as it is written for debugging. For
    /// every other kind the wording is for the translator, and nothing is
    /// given.
    pub fn plain_message(&self) -> (text: Option<String>)
        ensures
            text_of(text) == self.spec_plain_message(),
    {
        match self {
            AnkiError::InvalidInput { source } => Some(source.message.clone()),
            AnkiError::TemplateError { info } => Some(info.clone()),
            AnkiError::InvalidRegex { info } => {
                let mut text = String::from_str("<pre>");
                text.append(info.as_str());
                text.append("</pre>");
                Some(text)
            },
            AnkiError::JsonError { info } => {
                let mut text = String::from_str("JsonError { info: ");
                text.append(debug_string(info.as_str()).as_str());
                text.append(" }");
                Some(text)
            },
            AnkiError::ProtoError { info } => {
                let mut text = String::from_str("ProtoError { info: ");
                text.append(debug_string(info.as_str()).as_str());
                text.append(" }");
                Some(text)
            },
            AnkiError::Interrupted => Some(String::from_str("Interrupted")),
            AnkiError::CollectionNotOpen => Some(String::from_str("CollectionNotOpen")),
            AnkiError::CollectionAlreadyOpen => Some(String::from_str("CollectionAlreadyOpen")),
            AnkiError::Existing => Some(String::from_str("Existing")),
            AnkiError::InvalidServiceIndex => Some(String::from_str("InvalidServiceIndex")),
            AnkiError::InvalidMethodIndex => Some(String::from_str("InvalidMethodIndex")),
            AnkiError::UndoEmpty => Some(String::from_str("UndoEmpty")),
            AnkiError::InvalidCertificateFormat => Some(
                String::from_str("InvalidCertificateFormat"),
            ),
            _ => None,
        }
    }

    pub open spec fn spec_context(&self) -> Seq<char> {
        match self {
            AnkiError::InvalidInput { source } => source.spec_context(),
            AnkiError::NotFound { source } => source.spec_context(),
            _ => Seq::empty(),
        }
    }

    /// Further detail for the two kinds that carry any; empty otherwise.
    pub fn context(&self) -> (text: String)
        ensures
            text@ == self.spec_context(),
    {
        match self {
            AnkiError::InvalidInput { source } => source.context(),
            AnkiError::NotFound { source } => source.context(),
            _ => String::new(),
        }
    }
}

} // verus!
