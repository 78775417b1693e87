//! Setting due dates by hand: the specifier a user types, and what it does
//! to one card.

use vstd::prelude::*;

use crate::card::Card;
use crate::card::CardQueue;
use crate::card::CardType;
use crate::card::DeckId;
use crate::error::AnkiError;
use crate::error::Failure;
use crate::text::chars_of;
use crate::timing::div_toward_zero;
use crate::timing::elapsed_days;
use crate::timing::is_unix_epoch_timestamp;
use crate::timing::TimestampSecs;
use crate::timing::SECS_PER_DAY;

verus! {

/// Which of the two scheduling models governs a card.
#[derive(Clone, Copy, Debug, PartialEq, Eq, Structural)]
pub enum IntervalModel {
    /// The card has a fitted memory state: intervals follow elapsed time.
    MemoryState,
    /// The card has none: intervals follow the ease-factor rules.
    EaseFactor,
}

/// `value` held between `low` and `high`.
pub open spec fn clamped(value: int, low: int, high: int) -> int {
    if value < low {
        low
    } else if value > high {
        high
    } else {
        value
    }
}

impl Card {
    pub open spec fn spec_interval_model(&self) -> IntervalModel {
        if self.memory_state is Some {
            IntervalModel::MemoryState
        } else {
            IntervalModel::EaseFactor
        }
    }

    /// The scheduling model that applies to this card.
    #[verifier::when_used_as_spec(spec_interval_model)]
    pub fn interval_model(&self) -> (model: IntervalModel)
        ensures
            model == self.spec_interval_model(),
    {
        if self.memory_state.is_some() {
            IntervalModel::MemoryState
        } else {
            IntervalModel::EaseFactor
        }
    }

    /// The due value from which a never-reviewed card's interval is shifted,
    /// as a day number: a due value that is a raw timestamp is first turned
    /// into the day it falls on, counted from `today` and `next_day_start`.
    pub open spec fn reference_due(self, today: u32, next_day_start: i64) -> int {
        let due = self.original_or_current_due();
        if is_unix_epoch_timestamp(due) {
            today + div_toward_zero(due - next_day_start, SECS_PER_DAY as int)
        } else {
            due as int
        }
    }

    /// The interval a card gets when it is made due `days_from_today` days
    /// from `today`.
    pub open spec fn rescheduled_interval(
        self,
        today: u32,
        next_day_start: i64,
        days_from_today: u32,
        force_reset: bool,
    ) -> int {
        match self.interval_model() {
            IntervalModel::MemoryState => match self.last_review_time {
                Some(reviewed) => elapsed_days(next_day_start as int, reviewed.0 as int)
                    + days_from_today,
                None => clamped(
                    self.interval + (today + days_from_today - self.reference_due(
                        today,
                        next_day_start,
                    )),
                    0,
                    u32::MAX as int,
                ),
            },
            IntervalModel::EaseFactor => if force_reset || !(self.ctype == CardType::Review
                || self.ctype == CardType::Relearn) {
                if days_from_today < 1 {
                    1
                } else {
                    days_from_today as int
                }
            } else if self.interval < 1 {
                1
            } else {
                self.interval as int
            },
        }
    }

    /// Whether the new due day and interval fit the fields that hold them.
    pub open spec fn can_be_rescheduled(
        self,
        today: u32,
        next_day_start: i64,
        days_from_today: u32,
    ) -> bool {
        &&& today + days_from_today <= i32::MAX
        &&& self.memory_state is Some ==> (self.last_review_time matches Some(reviewed)
            ==> elapsed_days(next_day_start as int, reviewed.0 as int) + days_from_today
            <= u32::MAX)
    }

    /// The card as a review card with the given schedule: out of any
    /// filtered deck, its queue position remembered, and the ease factor
    /// taken over only where the card had none.
    pub open spec fn scheduled_as_review(self, interval: u32, due: i32, ease_factor: u16) -> Card {
        Card {
            original_position: self.last_position(),
            interval,
            due,
            ctype: CardType::Review,
            queue: CardQueue::Review,
            ease_factor: if self.ease_factor == 0 {
                ease_factor
            } else {
                self.ease_factor
            },
            ..self.unparked()
        }
    }

    /// The card made due `days_from_today` days from `today`.
    pub open spec fn rescheduled(
        self,
        today: u32,
        next_day_start: i64,
        days_from_today: u32,
        ease_factor: u16,
        force_reset: bool,
    ) -> Card {
        self.scheduled_as_review(
            self.rescheduled_interval(today, next_day_start, days_from_today, force_reset) as u32,
            (today + days_from_today) as i32,
            ease_factor,
        )
    }

    /// Makes the card due in `days_from_today` days, converting it into a
    /// review card if it is none. Under the ease-factor model a review or
    /// relearning card keeps its interval unless `force_reset` is set; under
    /// the memory-state model the interval follows the time since the last
    /// review, or shifts with the due day where there was none. `ease_factor`,
    /// in thousandths, is used only if the card has no ease factor yet.
    pub fn set_due_date(
        &mut self,
        today: u32,
        next_day_start: i64,
        days_from_today: u32,
        ease_factor: u16,
        force_reset: bool,
    )
        requires
            old(self).can_be_rescheduled(today, next_day_start, days_from_today),
        ensures
            *final(self) == old(self).rescheduled(
                today,
                next_day_start,
                days_from_today,
                ease_factor,
                force_reset,
            ),
            final(self).due == today + days_from_today,
            final(self).ctype == CardType::Review,
            final(self).queue == CardQueue::Review,
            final(self).ease_factor == if old(self).ease_factor == 0 {
                ease_factor
            } else {
                old(self).ease_factor
            },
            old(self).memory_state is None ==> final(self).interval == if force_reset || !(old(
                self,
            ).ctype == CardType::Review || old(self).ctype == CardType::Relearn) {
                if days_from_today < 1 {
                    1
                } else {
                    days_from_today
                }
            } else if old(self).interval < 1 {
                1
            } else {
                old(self).interval
            },
            final(self).original_deck_id == DeckId(0),
            old(self).is_filtered() ==> final(self).original_due == 0 && final(self).deck_id == old(
                self,
            ).original_deck_id,
            !old(self).is_filtered() ==> final(self).original_due == old(self).original_due
                && final(self).deck_id == old(self).deck_id,
    {
        let new_due = (today as i64 + days_from_today as i64) as i32;
        let new_interval: u32 = match self.interval_model() {
            IntervalModel::MemoryState => match self.last_review_time {
                Some(reviewed) => {
                    let elapsed = TimestampSecs(next_day_start).elapsed_days_since(reviewed);
                    (elapsed + days_from_today as u64) as u32
                },
                None => {
                    let due = self.original_or_current_due();
                    let reference: i128 = if is_unix_epoch_timestamp(due) {
                        let gap: i128 = due as i128 - next_day_start as i128;
                        let offset: i128 = if gap >= 0 {
                            gap / 86_400
                        } else {
                            -((-gap) / 86_400)
                        };
                        today as i128 + offset
                    } else {
                        due as i128
                    };
                    let shifted: i128 = self.interval as i128 + (new_due as i128 - reference);
                    if shifted < 0 {
                        0
                    } else if shifted > u32::MAX as i128 {
                        u32::MAX
                    } else {
                        shifted as u32
                    }
                },
            },
            IntervalModel::EaseFactor => {
                let keeps_interval = match self.ctype {
                    CardType::Review | CardType::Relearn => !force_reset,
                    _ => false,
                };
                let wanted = if keeps_interval {
                    self.interval
                } else {
                    days_from_today
                };
                if wanted < 1 {
                    1
                } else {
                    wanted
                }
            },
        };
        self.schedule_as_review(new_interval, new_due, ease_factor);
    }

    /// Turns the card into a review card with the given interval and due
    /// day. Its queue position is remembered first, and it is taken out of
    /// a filtered deck before the schedule is overwritten. An ease factor
    /// that is already set is left alone.
    pub fn schedule_as_review(&mut self, interval: u32, due: i32, ease_factor: u16)
        ensures
            *final(self) == old(self).scheduled_as_review(interval, due, ease_factor),
    {
        self.original_position = self.last_position();
        self.remove_from_filtered_deck_before_reschedule();
        self.interval = interval;
        self.due = due;
        self.ctype = CardType::Review;
        self.queue = CardQueue::Review;
        if self.ease_factor == 0 {
            self.ease_factor = ease_factor;
        }
    }
}

/// A range of day offsets from today, and whether intervals are to be reset.
#[derive(Clone, Copy, Debug, PartialEq, Eq, Structural)]
pub struct DueDateSpecifier {
    pub min: u32,
    pub max: u32,
    pub force_reset: bool,
}

/// Whether `c` is one of the ten decimal digits.
pub open spec fn is_digit(c: char) -> bool {
    '0' <= c && c <= '9'
}

/// The number that the digit `c` stands for.
pub open spec fn digit_value(c: char) -> int {
    c as int - '0' as int
}

/// A non-empty run of decimal digits.
pub open spec fn is_number(s: Seq<char>) -> bool {
    s.len() > 0 && forall|i: int| 0 <= i < s.len() ==> is_digit(#[trigger] s[i])
}

/// The value of a run of decimal digits.
pub open spec fn number_value(s: Seq<char>) -> int
    decreases s.len(),
{
    if s.len() == 0 {
        0
    } else {
        number_value(s.drop_last()) * 10 + digit_value(s.last())
    }
}

/// Whether the text ends with the force-reset marker.
pub open spec fn has_reset_mark(s: Seq<char>) -> bool {
    s.len() > 0 && s.last() == '!'
}

/// The text without its force-reset marker.
pub open spec fn without_reset_mark(s: Seq<char>) -> Seq<char> {
    if has_reset_mark(s) {
        s.drop_last()
    } else {
        s
    }
}

/// Whether `s` is two numbers with a hyphen at index `at` between them.
pub open spec fn is_range_split_at(s: Seq<char>, at: int) -> bool {
    &&& 0 <= at < s.len()
    &&& s[at] == '-'
    &&& is_number(s.take(at))
    &&& is_number(s.skip(at + 1))
}

/// The specifier for the two numbers written, whatever their order.
pub open spec fn specifier_of(first: int, second: int, force_reset: bool) -> Result<
    DueDateSpecifier,
    Failure,
> {
    if first > u32::MAX || second > u32::MAX {
        Err(Failure::ParseNum)
    } else if first <= second {
        Ok(DueDateSpecifier { min: first as u32, max: second as u32, force_reset })
    } else {
        Ok(DueDateSpecifier { min: second as u32, max: first as u32, force_reset })
    }
}

/// What a due-date string means: `<min>[-<max>][!]`, the two numbers in
/// either order. Anything else is invalid input, reported with the string
/// itself; a number too large for 32 bits is a number-parsing failure.
pub open spec fn parsed_due_date(s: Seq<char>) -> Result<DueDateSpecifier, Failure> {
    let body = without_reset_mark(s);
    if is_number(body) {
        specifier_of(number_value(body), number_value(body), has_reset_mark(s))
    } else if exists|at: int| is_range_split_at(body, at) {
        let at = choose|at: int| is_range_split_at(body, at);
        specifier_of(
            number_value(body.take(at)),
            number_value(body.skip(at + 1)),
            has_reset_mark(s),
        )
    } else {
        Err(Failure::InvalidInput(s))
    }
}

/// Whether `result` is what `expected` describes.
pub open spec fn parse_result_is(
    result: Result<DueDateSpecifier, AnkiError>,
    expected: Result<DueDateSpecifier, Failure>,
) -> bool {
    match expected {
        Ok(spec) => result == Ok::<DueDateSpecifier, AnkiError>(spec),
        Err(failure) => result is Err && result->Err_0.is_failure(failure),
    }
}

proof fn lemma_number_value_bounds(s: Seq<char>)
    requires
        forall|i: int| 0 <= i < s.len() ==> is_digit(#[trigger] s[i]),
    ensures
        number_value(s) >= 0,
    decreases s.len(),
{
    if s.len() > 0 {
        lemma_number_value_bounds(s.drop_last());
    }
}

proof fn lemma_number_value_grows(s: Seq<char>, k: int)
    requires
        forall|i: int| 0 <= i < s.len() ==> is_digit(#[trigger] s[i]),
        0 <= k <= s.len(),
    ensures
        number_value(s.take(k)) <= number_value(s),
    decreases s.len() - k,
{
    if k == s.len() {
        assert(s.take(k) =~= s);
    } else {
        lemma_number_value_grows(s.drop_last(), k);
        assert(s.drop_last().take(k) =~= s.take(k));
        lemma_number_value_bounds(s.drop_last());
    }
}

fn is_digit_char(c: char) -> (r: bool)
    ensures
        r == is_digit(c),
{
    '0' <= c && c <= '9'
}

/// The index of the first character at or after `from` that is no digit.
fn digits_end(chars: &Vec<char>, from: usize, to: usize) -> (end: usize)
    requires
        from <= to <= chars@.len(),
    ensures
        from <= end <= to,
        forall|i: int| from <= i < end ==> is_digit(#[trigger] chars@[i]),
        end < to ==> !is_digit(chars@[end as int]),
{
    let mut end = from;
    while end < to && is_digit_char(chars[end])
        invariant
            from <= end <= to <= chars@.len(),
            forall|i: int| from <= i < end ==> is_digit(#[trigger] chars@[i]),
        decreases to - end,
    {
        end = end + 1;
    }
    end
}

/// The value of the digits in `chars[from..to]`, or nothing where it does
/// not fit in 32 bits.
fn number_in(chars: &Vec<char>, from: usize, to: usize) -> (value: Option<u32>)
    requires
        from <= to <= chars@.len(),
        forall|i: int| from <= i < to ==> is_digit(#[trigger] chars@[i]),
    ensures
        match value {
            Some(v) => v == number_value(chars@.subrange(from as int, to as int)),
            None => number_value(chars@.subrange(from as int, to as int)) > u32::MAX,
        },
{
    let ghost digits = chars@.subrange(from as int, to as int);
    let mut value: u64 = 0;
    let mut at = from;
    while at < to
        invariant
            from <= at <= to <= chars@.len(),
            digits == chars@.subrange(from as int, to as int),
            forall|i: int| from <= i < to ==> is_digit(#[trigger] chars@[i]),
            value == number_value(digits.take(at - from)),
            value <= u32::MAX,
        decreases to - at,
    {
        let digit = chars[at] as u32 - '0' as u32;
        assert(digits.take(at + 1 - from).drop_last() =~= digits.take(at - from));
        assert(digits.take(at + 1 - from).last() == chars@[at as int]);
        value = value * 10 + digit as u64;
        at = at + 1;
        if value > u32::MAX as u64 {
            proof {
                lemma_number_value_grows(digits, at - from);
            }
            return None;
        }
    }
    assert(digits.take(to - from) =~= digits);
    Some(value as u32)
}

fn ordered(first: u32, second: u32, force_reset: bool) -> (spec: DueDateSpecifier)
    ensures
        specifier_of(first as int, second as int, force_reset) == Ok::<DueDateSpecifier, Failure>(
            spec,
        ),
{
    if first <= second {
        DueDateSpecifier { min: first, max: second, force_reset }
    } else {
        DueDateSpecifier { min: second, max: first, force_reset }
    }
}

/// Parses `<min>[-<max>][!]`: one or two unsigned decimal numbers and an
/// optional trailing force-reset marker. The range is normalised, so the
/// numbers may come in either order.
pub fn parse_due_date_str(s: &str) -> (result: Result<DueDateSpecifier, AnkiError>)
    ensures
        parse_result_is(result, parsed_due_date(s@)),
        result matches Ok(spec) ==> spec.min <= spec.max && spec.force_reset == has_reset_mark(s@),
{
    let chars = chars_of(s);
    let len = chars.len();
    let force_reset = len > 0 && chars[len - 1] == '!';
    let end = if force_reset {
        len - 1
    } else {
        len
    };
    let ghost body = without_reset_mark(s@);
    assert(body =~= chars@.take(end as int));
    let first_end = digits_end(&chars, 0, end);
    if first_end == 0 {
        assert(!is_number(body)) by {
            if body.len() > 0 {
                assert(!is_digit(body[0]));
            }
        }
        assert forall|at: int| !is_range_split_at(body, at) by {
            if is_range_split_at(body, at) {
                assert(body.take(at)[0] == body[0]);
            }
        }
        return Err(AnkiError::invalid_input(s));
    }
    assert(chars@.subrange(0, first_end as int) =~= body.take(first_end as int));
    if first_end == end {
        assert(body.take(first_end as int) =~= body);
        return match number_in(&chars, 0, end) {
            Some(value) => Ok(ordered(value, value, force_reset)),
            None => Err(AnkiError::ParseNumError),
        };
    }
    assert(!is_number(body)) by {
        assert(!is_digit(body[first_end as int]));
    }
    assert forall|at: int| is_range_split_at(body, at) implies at == first_end by {
        if at < first_end {
            assert(is_digit(body[at]));
        }
        if at > first_end {
            assert(body.take(at)[first_end as int] == body[first_end as int]);
        }
    }
    let second_end = if chars[first_end] == '-' {
        digits_end(&chars, first_end + 1, end)
    } else {
        0
    };
    if chars[first_end] != '-' || first_end + 1 == end || second_end != end {
        assert(!is_range_split_at(body, first_end as int)) by {
            if chars[first_end as int] == '-' && first_end + 1 < end {
                let rest = body.skip(first_end + 1);
                assert(rest[second_end - first_end - 1] == body[second_end as int]);
            }
        }
        return Err(AnkiError::invalid_input(s));
    }
    assert(chars@.subrange(first_end + 1, end as int) =~= body.skip(first_end + 1));
    assert(is_range_split_at(body, first_end as int)) by {
        assert forall|i: int| 0 <= i < body.skip(first_end + 1).len() implies is_digit(
            #[trigger] body.skip(first_end + 1)[i],
        ) by {
            assert(body.skip(first_end + 1)[i] == chars@[first_end + 1 + i]);
        }
    }
    let first = number_in(&chars, 0, first_end);
    let second = number_in(&chars, first_end + 1, end);
    match (first, second) {
        (Some(first), Some(second)) => Ok(ordered(first, second, force_reset)),
        _ => Err(AnkiError::ParseNumError),
    }
}

/// A string of two numbers around a hyphen, with or without the trailing
/// marker, parses to the range between the two numbers, whichever comes
/// first, provided both fit in 32 bits.
pub proof fn lemma_parse_two_numbers(first: Seq<char>, second: Seq<char>, marked: bool)
    requires
        is_number(first),
        is_number(second),
        number_value(first) <= u32::MAX,
        number_value(second) <= u32::MAX,
    ensures
        ({
            let range = first + seq!['-'] + second;
            let text = if marked {
                range.push('!')
            } else {
                range
            };
            let low = if number_value(first) <= number_value(second) {
                number_value(first)
            } else {
                number_value(second)
            };
            let high = if number_value(first) <= number_value(second) {
                number_value(second)
            } else {
                number_value(first)
            };
            parsed_due_date(text) == Ok::<DueDateSpecifier, Failure>(
                DueDateSpecifier { min: low as u32, max: high as u32, force_reset: marked },
            )
        }),
{
    let range = first + seq!['-'] + second;
    let text = if marked {
        range.push('!')
    } else {
        range
    };
    let at = first.len() as int;
    assert(is_digit(second[second.len() - 1]));
    assert(range.last() == second[second.len() - 1]);
    if marked {
        assert(text.drop_last() =~= range);
    }
    assert(without_reset_mark(text) == range);
    assert(has_reset_mark(text) == marked);
    assert(range[at] == '-');
    assert(!is_number(range));
    assert(range.take(at) =~= first);
    assert(range.skip(at + 1) =~= second);
    assert(is_range_split_at(range, at));
    assert forall|other: int| is_range_split_at(range, other) implies other == at by {
        if other < at {
            assert(is_digit(first[other]));
        }
        if other > at {
            assert(range.take(other)[at] == range[at]);
        }
    }
    lemma_number_value_bounds(first);
    lemma_number_value_bounds(second);
}

/// A string of one number, with or without the trailing marker, parses to
/// the range that holds just that number, provided it fits in 32 bits.
pub proof fn lemma_parse_one_number(number: Seq<char>, marked: bool)
    requires
        is_number(number),
        number_value(number) <= u32::MAX,
    ensures
        ({
            let text = if marked {
                number.push('!')
            } else {
                number
            };
            parsed_due_date(text) == Ok::<DueDateSpecifier, Failure>(
                DueDateSpecifier {
                    min: number_value(number) as u32,
                    max: number_value(number) as u32,
                    force_reset: marked,
                },
            )
        }),
{
    let text = if marked {
        number.push('!')
    } else {
        number
    };
    assert(is_digit(number[number.len() - 1]));
    if marked {
        assert(text.drop_last() =~= number);
    }
    assert(without_reset_mark(text) == number);
    lemma_number_value_bounds(number);
}

/// A string that does not start with a digit is rejected as invalid input,
/// reported with the string itself: the empty string, a string without
/// digits, a number written with a minus sign.
pub proof fn lemma_parse_needs_leading_digit(text: Seq<char>)
    requires
        text.len() == 0 || !is_digit(text[0]),
    ensures
        parsed_due_date(text) == Err::<DueDateSpecifier, Failure>(Failure::InvalidInput(text)),
{
    let body = without_reset_mark(text);
    if body.len() > 0 {
        assert(body[0] == text[0]);
    }
    assert forall|at: int| !is_range_split_at(body, at) by {
        if is_range_split_at(body, at) {
            assert(body.take(at)[0] == body[0]);
        }
    }
}

/// A string in which no digit follows the hyphen is rejected as invalid
/// input, with or without the trailing marker.
pub proof fn lemma_parse_needs_digit_after_hyphen(text: Seq<char>)
    requires
        without_reset_mark(text).len() > 0,
        without_reset_mark(text).last() == '-',
    ensures
        parsed_due_date(text) == Err::<DueDateSpecifier, Failure>(Failure::InvalidInput(text)),
{
    let body = without_reset_mark(text);
    assert(!is_digit(body[body.len() - 1]));
    assert forall|at: int| !is_range_split_at(body, at) by {
        if is_range_split_at(body, at) {
            let rest = body.skip(at + 1);
            assert(rest[rest.len() - 1] == body[body.len() - 1]);
        }
    }
}

/// Whatever parses has its reset flag set exactly when the string ends
/// with the marker, and a lower bound that is not above the upper one.
pub proof fn lemma_parsed_flag_and_order(text: Seq<char>)
    ensures
        parsed_due_date(text) matches Ok(spec) ==> spec.force_reset == has_reset_mark(text)
            && spec.min <= spec.max,
{
    let body = without_reset_mark(text);
    if is_number(body) {
        lemma_number_value_bounds(body);
    } else if exists|at: int| is_range_split_at(body, at) {
        let at = choose|at: int| is_range_split_at(body, at);
        lemma_number_value_bounds(body.take(at));
        lemma_number_value_bounds(body.skip(at + 1));
    }
}

/// Under the ease-factor model, without a forced reset, a review or
/// relearning card whose interval is at least one day keeps that interval
/// and an ease factor that was set; only its due day moves.
pub proof fn lemma_reschedule_keeps_interval(
    card: Card,
    today: u32,
    next_day_start: i64,
    days_from_today: u32,
    ease_factor: u16,
)
    requires
        card.memory_state is None,
        card.ctype == CardType::Review || card.ctype == CardType::Relearn,
        card.interval >= 1,
        today + days_from_today <= i32::MAX,
    ensures
        ({
            let after = card.rescheduled(today, next_day_start, days_from_today, ease_factor, false);
            &&& after.due == today + days_from_today
            &&& after.interval == card.interval
            &&& card.ease_factor != 0 ==> after.ease_factor == card.ease_factor
        }),
{
}

/// Under the ease-factor model a forced reset gives the card an interval
/// of the requested number of days, and of one day at the least.
pub proof fn lemma_forced_reset_interval(
    card: Card,
    today: u32,
    next_day_start: i64,
    days_from_today: u32,
    ease_factor: u16,
)
    requires
        card.memory_state is None,
    ensures
        ({
            let after = card.rescheduled(today, next_day_start, days_from_today, ease_factor, true);
            after.interval == if days_from_today < 1 {
                1
            } else {
                days_from_today as int
            }
        }),
{
}

/// A card without an ease factor takes the one supplied, and any card comes
/// out as a review card in the review queue.
pub proof fn lemma_reschedule_converts_to_review(
    card: Card,
    today: u32,
    next_day_start: i64,
    days_from_today: u32,
    ease_factor: u16,
    force_reset: bool,
)
    ensures
        ({
            let after = card.rescheduled(
                today,
                next_day_start,
                days_from_today,
                ease_factor,
                force_reset,
            );
            &&& after.ctype == CardType::Review
            &&& after.queue == CardQueue::Review
            &&& card.ease_factor == 0 ==> after.ease_factor == ease_factor
            &&& card.ease_factor != 0 ==> after.ease_factor == card.ease_factor
        }),
{
}

/// A card parked in a filtered deck comes out in its home deck with both
/// backups cleared, and with the due day any other card would get.
pub proof fn lemma_reschedule_leaves_filtered_deck(
    card: Card,
    today: u32,
    next_day_start: i64,
    days_from_today: u32,
    ease_factor: u16,
    force_reset: bool,
)
    requires
        card.is_filtered(),
        today + days_from_today <= i32::MAX,
    ensures
        ({
            let after = card.rescheduled(
                today,
                next_day_start,
                days_from_today,
                ease_factor,
                force_reset,
            );
            &&& after.original_deck_id == DeckId(0)
            &&& after.original_due == 0
            &&& after.deck_id == card.original_deck_id
            &&& after.due == today + days_from_today
        }),
{
}

} // verus!
