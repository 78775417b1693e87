//! What a request layer over the collection has to decide: which status an
//! error maps to, what a schedule update asks for, and how an operation is
//! run for a request.

use std::collections::HashMap;
use vstd::prelude::*;
use vstd::string::*;

use crate::card::CardId;
use crate::collection::Collection;
use crate::error::AnkiError;
use crate::ops::OpOutput;
use crate::scheduler::due_dates::can_set_due_date;
use crate::scheduler::due_dates::set_due_date_ended;

verus! {

/// A failure of the transport itself, with the status to answer with.
#[derive(Debug, PartialEq, Eq)]
pub struct HttpError {
    pub code: u16,
    pub context: String,
}

#[derive(Debug, PartialEq, Eq)]
pub enum ApiError {
    /// The collection refused the operation.
    Anki(AnkiError),
    /// The request body could not be read; this is what was wrong with it.
    Json(String),
    Http(HttpError),
}

/// The request to add a note with its cards: where, of which type, and
/// with what in its fields.
#[derive(Debug, PartialEq, Eq)]
pub struct AddCardRequest {
    pub deck_name: String,
    pub notetype_name: String,
    /// The content of each field, by the field's name.
    pub fields: HashMap<String, String>,
    pub tags: Vec<String>,
}

#[derive(Debug, PartialEq, Eq)]
pub struct AddCardResponse {
    /// The cards that were made for the note.
    pub card_ids: Vec<i64>,
}

/// The request to change what a card's note holds.
#[derive(Debug, PartialEq, Eq)]
pub struct UpdateCardContentRequest {
    /// The new content of each field that is to change, by the field's name.
    pub fields: HashMap<String, String>,
    /// The new tags, where they are to change.
    pub tags: Option<Vec<String>>,
}

#[derive(Debug, PartialEq, Eq)]
pub struct DeleteCardsRequest {
    pub card_ids: Vec<i64>,
}

#[derive(Clone, Copy, Debug, PartialEq, Eq, Structural)]
pub struct DeleteCardsResponse {
    pub success: bool,
    pub deleted_count: usize,
}

/// The request to move a card's due date.
#[derive(Debug, PartialEq, Eq)]
pub struct UpdateScheduleRequest {
    /// A due-date specifier, or one wrapped as `+<specifier>d`.
    pub due: String,
}

#[derive(Clone, Copy, Debug, PartialEq, Eq, Structural)]
pub struct SuccessResponse {
    pub success: bool,
}

impl From<AnkiError> for ApiError {
    fn from(err: AnkiError) -> (api: ApiError) {
        ApiError::Anki(err)
    }
}

impl vstd::std_specs::convert::FromSpecImpl<AnkiError> for ApiError {
    open spec fn obeys_from_spec() -> bool {
        true
    }

    open spec fn from_spec(err: AnkiError) -> ApiError {
        ApiError::Anki(err)
    }
}

impl From<HttpError> for ApiError {
    fn from(err: HttpError) -> (api: ApiError) {
        ApiError::Http(err)
    }
}

impl vstd::std_specs::convert::FromSpecImpl<HttpError> for ApiError {
    open spec fn obeys_from_spec() -> bool {
        true
    }

    open spec fn from_spec(err: HttpError) -> ApiError {
        ApiError::Http(err)
    }
}

impl ApiError {
    pub open spec fn spec_status(&self) -> u16 {
        match self {
            ApiError::Anki(AnkiError::NotFound { .. }) => 404,
            ApiError::Anki(AnkiError::InvalidInput { .. }) => 400,
            ApiError::Anki(_) => 500,
            ApiError::Json(_) => 400,
            ApiError::Http(err) => err.code,
        }
    }

    /// The status to answer with: not found for an error of that name, bad
    /// request for invalid input and for a request body that could not be
    /// read, the transport's own status for its own failures, and an
    /// internal error for every other error of the collection.
    #[verifier::when_used_as_spec(spec_status)]
    pub fn status(&self) -> (code: u16)
        ensures
            code == self.spec_status(),
    {
        match self {
            ApiError::Anki(AnkiError::NotFound { .. }) => 404,
            ApiError::Anki(AnkiError::InvalidInput { .. }) => 400,
            ApiError::Anki(_) => 500,
            ApiError::Json(_) => 400,
            ApiError::Http(err) => err.code,
        }
    }
}

impl ApiError {
    pub open spec fn spec_message(&self) -> Seq<char> {
        match self {
            ApiError::Anki(err) => match err.spec_plain_message() {
                Some(text) => text,
                None => if err.spec_context().len() > 0 {
                    err.spec_context()
                } else {
                    err.spec_code()
                },
            },
            ApiError::Json(body_text) => body_text@,
            ApiError::Http(err) => err.context@,
        }
    }

    /// What the response says in words. For an error of the collection it
    /// is the error's message where that needs no translation, and else
    /// its context or, where it has none, its code. For a request body that
    /// could not be read it is what was wrong with it, and for a failure
    /// of the transport its context.
    pub fn message(&self) -> (text: String)
        ensures
            text@ == self.spec_message(),
    {
        match self {
            ApiError::Anki(err) => match err.plain_message() {
                Some(text) => text,
                None => {
                    let context = err.context();
                    if context.as_str().unicode_len() > 0 {
                        context
                    } else {
                        String::from_str(err.code())
                    }
                },
            },
            ApiError::Json(body_text) => body_text.clone(),
            ApiError::Http(err) => err.context.clone(),
        }
    }
}

/// The result of `op` as a request layer reports it.
pub open spec fn reported<T>(inner: Result<T, AnkiError>) -> Result<T, ApiError> {
    match inner {
        Ok(value) => Ok(value),
        Err(err) => Err(ApiError::Anki(err)),
    }
}

/// Runs `op` on the collection and reports a failure of it as an error of
/// the request layer.
pub fn with_col<F, T>(col: &mut Collection, op: F) -> (result: Result<T, ApiError>) where
    F: FnOnce(&mut Collection) -> Result<T, AnkiError>,

    requires
        forall|target: &mut Collection| target@ == old(col)@ ==> #[trigger] op.requires((target,)),
    ensures
        exists|target: &mut Collection, inner: Result<T, AnkiError>|
            {
                &&& target@ == old(col)@
                &&& final(target)@ == final(col)@
                &&& #[trigger] op.ensures((target,), inner)
                &&& result == reported(inner)
            },
{
    match op(col) {
        Ok(value) => Ok(value),
        Err(err) => Err(ApiError::Anki(err)),
    }
}

/// The specifier inside `+<specifier>d`; any other text is its own
/// specifier.
pub open spec fn unwrapped_due(due: Seq<char>) -> Seq<char> {
    if due.len() >= 2 && due[0] == '+' && due.last() == 'd' {
        due.subrange(1, due.len() - 1)
    } else {
        due
    }
}

/// The success response for a schedule update that went through, or the
/// error it ended with.
pub open spec fn schedule_response(inner: Result<OpOutput<()>, AnkiError>) -> Result<
    SuccessResponse,
    AnkiError,
> {
    match inner {
        Ok(_) => Ok(SuccessResponse { success: true }),
        Err(err) => Err(err),
    }
}

impl UpdateScheduleRequest {
    /// The due-date specifier that the request asks for.
    pub fn due_str(&self) -> (text: String)
        ensures
            text@ == unwrapped_due(self.due@),
    {
        let due = self.due.as_str();
        let len = due.unicode_len();
        if len >= 2 && due.get_char(0) == '+' && due.get_char(len - 1) == 'd' {
            due.substring_char(1, len - 1).to_owned()
        } else {
            self.due.clone()
        }
    }
}

/// Sets the due date of one card as `payload` asks. Nothing is done, and
/// nothing handed back, where the collection cannot be asked to.
pub fn update_schedule(col: &mut Collection, card_id: i64, payload: &UpdateScheduleRequest) -> (result:
    Option<Result<SuccessResponse, AnkiError>>)
    ensures
        result is Some <==> can_set_due_date(
            old(col)@,
            seq![CardId(card_id)],
            unwrapped_due(payload.due@),
        ),
        result matches Some(response) ==> exists|inner: Result<OpOutput<()>, AnkiError>|
            {
                &&& #[trigger] set_due_date_ended(
                    old(col)@,
                    seq![CardId(card_id)],
                    unwrapped_due(payload.due@),
                    None,
                    final(col)@,
                    inner,
                )
                &&& response == schedule_response(inner)
            },
        result is None ==> final(col)@ == old(col)@,
{
    let mut cids: Vec<CardId> = Vec::new();
    cids.push(CardId(card_id));
    assert(cids@ =~= seq![CardId(card_id)]);
    let due = payload.due_str();
    match col.checked_set_due_date(cids.as_slice(), due.as_str(), None) {
        Some(inner) => {
            proof {
                assert(set_due_date_ended(
                    old(col)@,
                    seq![CardId(card_id)],
                    unwrapped_due(payload.due@),
                    None,
                    col@,
                    inner,
                ));
            }
            Some(
                match inner {
                    Ok(_) => Ok(SuccessResponse { success: true }),
                    Err(err) => Err(err),
                },
            )
        },
        None => None,
    }
}

} // verus!
