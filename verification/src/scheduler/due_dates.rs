//! Setting the due date of many cards at once.

use vstd::prelude::*;

use crate::card::Card;
use crate::card::CardId;
use crate::card::Usn;
use crate::collection::card_keys;
use crate::collection::cards_with_ids;
use crate::collection::distinct_keys;
use crate::collection::lemma_card_updated_keeps_ids;
use crate::collection::lemma_distinct_key_index;
use crate::collection::transaction_ended;
use crate::collection::Collection;
use crate::collection::CollectionView;
use crate::config::StringKey;
use crate::error::AnkiError;
use crate::error::Failure;
use crate::ops::Op;
use crate::ops::OpChanges;
use crate::ops::OpOutput;
use crate::random::sample_inclusive;
use crate::random::thread_rng;
use crate::revlog::RevlogEntry;
use crate::scheduler::ease_cache::initial_ease_of;
use crate::scheduler::ease_cache::DeckEaseCache;
use crate::scheduler::reviews::parse_due_date_str;
use crate::scheduler::reviews::parsed_due_date;
use crate::scheduler::reviews::DueDateSpecifier;
use crate::text::decimal_string;
use crate::text::int_decimal;
use crate::timing::TimestampSecs;
use crate::undo::ChangeView;
use crate::undo::StepView;

verus! {

/// Whether `at` is the first place in `cids` that names a card which is
/// not stored.
pub open spec fn is_first_missing_at(col: CollectionView, cids: Seq<CardId>, at: int) -> bool {
    &&& 0 <= at < cids.len()
    &&& col.get_card(cids[at]) is None
    &&& forall|earlier: int| 0 <= earlier < at ==> col.get_card(#[trigger] cids[earlier]) is Some
}

/// The first of `cids` that names a card which is not stored.
pub open spec fn first_missing(col: CollectionView, cids: Seq<CardId>) -> Option<CardId> {
    if exists|at: int| is_first_missing_at(col, cids, at) {
        Some(cids[choose|at: int| is_first_missing_at(col, cids, at)])
    } else {
        None
    }
}

/// The initial ease factor that the home deck of `card` gives.
pub open spec fn home_ease(col: CollectionView, card: Card) -> Result<u16, Failure> {
    initial_ease_of(col.decks, col.deck_configs, card.original_or_current_deck_id())
}

/// Whether `at` is the first place in `found` whose card has a home deck
/// that gives no initial ease factor.
pub open spec fn is_first_without_ease_at(col: CollectionView, found: Seq<Card>, at: int) -> bool {
    &&& 0 <= at < found.len()
    &&& home_ease(col, found[at]) is Err
    &&& forall|earlier: int| 0 <= earlier < at ==> home_ease(col, #[trigger] found[earlier]) is Ok
}

/// Whether each of the first `count` offsets lies in the range of `spec`,
/// and there are no more of them.
pub open spec fn offsets_within(offsets: Seq<u32>, spec: DueDateSpecifier, count: int) -> bool {
    &&& offsets.len() == count
    &&& forall|k: int| 0 <= k < count ==> spec.min <= #[trigger] offsets[k] <= spec.max
}

/// The card that is stored in place of `original` when it is rescheduled
/// by `offset` days: made due that many days from today, with the initial
/// ease factor of its home deck to fall back on, and stamped with `usn`.
#[verifier::opaque]
pub open spec fn rescheduled_card(
    before: CollectionView,
    original: Card,
    offset: u32,
    force_reset: bool,
    usn: Usn,
) -> Card {
    Card {
        usn,
        ..original.rescheduled(
            before.timing.days_elapsed,
            before.timing.next_day_at.0,
            offset,
            home_ease(before, original)->Ok_0,
            force_reset,
        )
    }
}

/// The entry that the review log gets when `original` is rescheduled by
/// `offset` days.
#[verifier::opaque]
pub open spec fn rescheduled_entry(
    before: CollectionView,
    original: Card,
    offset: u32,
    force_reset: bool,
    usn: Usn,
) -> RevlogEntry {
    RevlogEntry::manually_scheduled(
        rescheduled_card(before, original, offset, force_reset, usn),
        original.interval,
        usn,
    )
}

/// What the undo step of the operation holds once the first `count` of
/// `found` have been rescheduled: for each card in turn, the log entry that
/// was added and then the card as it was.
pub open spec fn recorded_changes(
    before: CollectionView,
    found: Seq<Card>,
    offsets: Seq<u32>,
    force_reset: bool,
    usn: Usn,
    count: nat,
) -> Seq<ChangeView> {
    Seq::new(
        2 * count,
        |k: int|
            if k % 2 == 0 {
                ChangeView::Revlog(
                    rescheduled_entry(before, found[k / 2], offsets[k / 2], force_reset, usn),
                )
            } else {
                ChangeView::Card(found[k / 2])
            },
    )
}

/// A step with `changes` added at its end.
pub open spec fn step_extended(step: Option<StepView>, changes: Seq<ChangeView>) -> Option<StepView> {
    match step {
        Some(step) => Some(StepView { kind: step.kind, changes: step.changes + changes }),
        None => None,
    }
}

/// The collection after one card has been rescheduled in it: an entry in
/// the review log tells of it with the interval from before, and the card
/// is stored in its new state in place of `original`.
pub open spec fn card_rescheduled(
    state: CollectionView,
    before: CollectionView,
    original: Card,
    offset: u32,
    force_reset: bool,
    usn: Usn,
) -> CollectionView {
    state.revlog_added(rescheduled_entry(before, original, offset, force_reset, usn)).card_updated(
        rescheduled_card(before, original, offset, force_reset, usn),
        original,
    )
}

/// The collection after the first `count` of `found` have been
/// rescheduled in turn, the card at place `k` by `offsets[k]` days.
pub open spec fn cards_rescheduled(
    before: CollectionView,
    found: Seq<Card>,
    offsets: Seq<u32>,
    force_reset: bool,
    usn: Usn,
    count: nat,
) -> CollectionView
    decreases count,
{
    if count == 0 {
        before
    } else {
        card_rescheduled(
            cards_rescheduled(before, found, offsets, force_reset, usn, (count - 1) as nat),
            before,
            found[count - 1],
            offsets[count - 1],
            force_reset,
            usn,
        )
    }
}

/// What setting due dates does to a collection in which an operation has
/// begun, given the day offset drawn for each card. If one of `cids` names
/// no stored card, the first such id is reported as not found. Otherwise
/// the stored cards named by `cids` are taken in the order in which they
/// are stored; the first whose home deck gives no initial ease factor makes
/// the whole fail with that lookup's failure. Otherwise each is
/// rescheduled, and `days` is stored under `context` where one is given.
pub open spec fn due_dates_set(
    before: CollectionView,
    cids: Seq<CardId>,
    spec: DueDateSpecifier,
    days: Seq<char>,
    context: Option<StringKey>,
    usn: Usn,
    offsets: Seq<u32>,
) -> Result<CollectionView, Failure> {
    let found = before.cards_for_ids(cids);
    if exists|at: int| is_first_missing_at(before, cids, at) {
        let at = choose|at: int| is_first_missing_at(before, cids, at);
        Err(Failure::NotFound("card"@, int_decimal(cids[at].0 as int)))
    } else if exists|at: int| is_first_without_ease_at(before, found, at) {
        let at = choose|at: int| is_first_without_ease_at(before, found, at);
        Err(home_ease(before, found[at])->Err_0)
    } else {
        let rescheduled = cards_rescheduled(
            before,
            found,
            offsets,
            spec.force_reset,
            usn,
            found.len(),
        );
        Ok(
            match context {
                Some(key) => rescheduled.config_string_set(key, days),
                None => rescheduled,
            },
        )
    }
}

/// Whether the home deck of each of the first `count` of `found` gives an
/// initial ease factor.
pub open spec fn eases_found(col: CollectionView, found: Seq<Card>, count: int) -> bool {
    forall|j: int| 0 <= j < count ==> home_ease(col, #[trigger] found[j]) is Ok
}

/// Whether every stored card named by `cids` that rescheduling gets to can
/// be made due up to `spec.max` days from today without a field running
/// over. Rescheduling gets to a card if its home deck and those of the
/// cards before it give an initial ease factor.
#[verifier::opaque]
pub open spec fn due_dates_fit(col: CollectionView, cids: Seq<CardId>, spec: DueDateSpecifier) -> bool {
    forall|k: int|
        0 <= k < col.cards_for_ids(cids).len() && eases_found(col, col.cards_for_ids(cids), k + 1)
            ==> (#[trigger] col.cards_for_ids(cids)[k]).can_be_rescheduled(
            col.timing.days_elapsed,
            col.timing.next_day_at.0,
            spec.max,
        )
}

/// Whether `set_due_date` can be asked for on `col`. A string that does
/// not parse and an empty list of cards can always be handed in: nothing is
/// begun for them. Otherwise an operation is begun, so none may be running
/// and the update sequence number must be able to move on; and where every
/// id names a stored card, so that cards are rescheduled, the due days and
/// intervals this may lead to must fit their fields.
pub open spec fn can_set_due_date(col: CollectionView, cids: Seq<CardId>, days: Seq<char>) -> bool {
    parsed_due_date(days) matches Ok(spec) ==> cids.len() > 0 ==> {
        &&& col.current_step is None
        &&& col.usn.0 < i32::MAX
        &&& first_missing(col, cids) is None ==> due_dates_fit(col, cids, spec)
    }
}

/// What the body of the operation leaves behind: for some offsets in the
/// range of `spec`, one per card, either the collection that
/// `due_dates_set` describes, or its failure.
pub open spec fn rescheduling_ended(
    before: CollectionView,
    after: CollectionView,
    inner: Result<(), AnkiError>,
    cids: Seq<CardId>,
    spec: DueDateSpecifier,
    days: Seq<char>,
    context: Option<StringKey>,
    usn: Usn,
) -> bool {
    exists|offsets: Seq<u32>| #[trigger]
        offsets_within(offsets, spec, before.cards_for_ids(cids).len() as int) && match due_dates_set(
            before,
            cids,
            spec,
            days,
            context,
            usn,
            offsets,
        ) {
            Ok(done) => inner is Ok && after == done,
            Err(failure) => inner is Err && inner->Err_0.is_failure(failure),
        }
}

/// What `set_due_date` does. A string that does not parse fails as the
/// parser says, and an empty list of cards succeeds at once; either way
/// nothing is touched and no operation is begun. Otherwise one operation
/// runs: for some offsets in the range written, one per card, the
/// collection is as `due_dates_set` describes and then made permanent, or,
/// if that fails, exactly as it was before.
pub open spec fn set_due_date_ended(
    before: CollectionView,
    cids: Seq<CardId>,
    days: Seq<char>,
    context: Option<StringKey>,
    after: CollectionView,
    result: Result<OpOutput<()>, AnkiError>,
) -> bool {
    match parsed_due_date(days) {
        Err(failure) => after == before && result is Err && result->Err_0.is_failure(failure),
        Ok(spec) => if cids.len() == 0 {
            after == before && result == Ok::<OpOutput<()>, AnkiError>(
                OpOutput { output: (), changes: OpChanges::none() },
            )
        } else {
            exists|offsets: Seq<u32>| #[trigger]
                offsets_within(offsets, spec, before.cards_for_ids(cids).len() as int)
                    && match due_dates_set(
                    before.begun(Op::SetDueDate),
                    cids,
                    spec,
                    days,
                    context,
                    before.usn,
                    offsets,
                ) {
                    Ok(done) => {
                        &&& after == done.committed(before, Op::SetDueDate)
                        &&& result == Ok::<OpOutput<()>, AnkiError>(
                            OpOutput { output: (), changes: done.op_changes(Op::SetDueDate) },
                        )
                    },
                    Err(failure) => after == before && result is Err && result->Err_0.is_failure(failure),
                }
        },
    }
}

proof fn lemma_first_missing_found(col: CollectionView, cids: Seq<CardId>, at: int)
    requires
        is_first_missing_at(col, cids, at),
    ensures
        first_missing(col, cids) == Some(cids[at]),
        (choose|at: int| is_first_missing_at(col, cids, at)) == at,
{
    let chosen = choose|at: int| is_first_missing_at(col, cids, at);
    if chosen < at {
        assert(col.get_card(cids[chosen]) is Some);
    }
    if at < chosen {
        assert(col.get_card(cids[at]) is Some);
    }
}

proof fn lemma_reached_card_fits(
    col: CollectionView,
    cids: Seq<CardId>,
    spec: DueDateSpecifier,
    at: int,
)
    requires
        due_dates_fit(col, cids, spec),
        0 <= at < col.cards_for_ids(cids).len(),
        eases_found(col, col.cards_for_ids(cids), at + 1),
    ensures
        col.cards_for_ids(cids)[at].can_be_rescheduled(
            col.timing.days_elapsed,
            col.timing.next_day_at.0,
            spec.max,
        ),
{
    reveal(due_dates_fit);
}

proof fn lemma_fit_among_same_cards(
    first: CollectionView,
    second: CollectionView,
    cids: Seq<CardId>,
    spec: DueDateSpecifier,
)
    requires
        first.cards == second.cards,
        first.decks == second.decks,
        first.deck_configs == second.deck_configs,
        first.timing == second.timing,
        due_dates_fit(first, cids, spec),
    ensures
        due_dates_fit(second, cids, spec),
{
    reveal(due_dates_fit);
    let found = first.cards_for_ids(cids);
    assert forall|k: int| eases_found(second, found, k) implies eases_found(first, found, k) by {
        assert forall|j: int| 0 <= j < k implies home_ease(first, #[trigger] found[j]) is Ok by {
            assert(home_ease(second, found[j]) is Ok);
        }
    }
}

proof fn lemma_first_missing_among_same_cards(
    first: CollectionView,
    second: CollectionView,
    cids: Seq<CardId>,
)
    requires
        first.cards == second.cards,
    ensures
        first_missing(first, cids) is None <==> first_missing(second, cids) is None,
{
    assert forall|at: int| is_first_missing_at(first, cids, at) == is_first_missing_at(
        second,
        cids,
        at,
    ) by {
        if 0 <= at < cids.len() {
            assert forall|earlier: int| 0 <= earlier < at implies (first.get_card(
                #[trigger] cids[earlier],
            ) is Some) == (second.get_card(cids[earlier]) is Some) by {}
        }
    }
}

proof fn lemma_missing_has_first(col: CollectionView, cids: Seq<CardId>, at: int)
    requires
        0 <= at < cids.len(),
        col.get_card(cids[at]) is None,
    ensures
        exists|first: int| is_first_missing_at(col, cids, first),
    decreases at,
{
    if forall|earlier: int| 0 <= earlier < at ==> col.get_card(#[trigger] cids[earlier]) is Some {
        assert(is_first_missing_at(col, cids, at));
    } else {
        let earlier = choose|earlier: int|
            0 <= earlier < at && !(col.get_card(#[trigger] cids[earlier]) is Some);
        lemma_missing_has_first(col, cids, earlier);
    }
}

/// Setting due dates is all or nothing: when it fails, for whatever
/// reason, the collection is exactly as it was before.
pub proof fn lemma_failed_batch_changes_nothing(
    before: CollectionView,
    cids: Seq<CardId>,
    days: Seq<char>,
    context: Option<StringKey>,
    after: CollectionView,
    result: Result<OpOutput<()>, AnkiError>,
)
    requires
        set_due_date_ended(before, cids, days, context, after, result),
        result is Err,
    ensures
        after == before,
{
}

/// With an empty list of cards, setting due dates changes nothing and
/// begins no operation: it succeeds with an empty description of changes
/// if the string parses, and fails as the parser does if not.
pub proof fn lemma_empty_batch_changes_nothing(
    before: CollectionView,
    days: Seq<char>,
    context: Option<StringKey>,
    after: CollectionView,
    result: Result<OpOutput<()>, AnkiError>,
)
    requires
        set_due_date_ended(before, Seq::<CardId>::empty(), days, context, after, result),
    ensures
        after == before,
        parsed_due_date(days) is Ok ==> result == Ok::<OpOutput<()>, AnkiError>(
            OpOutput { output: (), changes: OpChanges::none() },
        ),
        parsed_due_date(days) matches Err(failure) ==> result is Err && result->Err_0.is_failure(failure),
{
}

/// Where one of the ids names no stored card, setting due dates fails as
/// a whole: the first such id is reported as not found, and no card, log
/// entry, setting or undo step differs from before.
pub proof fn lemma_missing_card_fails_batch(
    before: CollectionView,
    cids: Seq<CardId>,
    days: Seq<char>,
    context: Option<StringKey>,
    after: CollectionView,
    result: Result<OpOutput<()>, AnkiError>,
    at: int,
)
    requires
        set_due_date_ended(before, cids, days, context, after, result),
        parsed_due_date(days) is Ok,
        0 <= at < cids.len(),
        before.get_card(cids[at]) is None,
    ensures
        after == before,
        first_missing(before, cids) matches Some(id) && result is Err && result->Err_0.is_failure(
            Failure::NotFound("card"@, int_decimal(id.0 as int)),
        ),
{
    let begun = before.begun(Op::SetDueDate);
    lemma_missing_has_first(before, cids, at);
    let first = choose|first: int| is_first_missing_at(before, cids, first);
    assert(is_first_missing_at(begun, cids, first)) by {
        assert forall|earlier: int| 0 <= earlier < first implies begun.get_card(
            #[trigger] cids[earlier],
        ) is Some by {
            assert(before.get_card(cids[earlier]) is Some);
        }
    }
    lemma_first_missing_found(begun, cids, first);
    lemma_first_missing_found(before, cids, first);
}

proof fn lemma_first_without_ease_found(col: CollectionView, found: Seq<Card>, at: int)
    requires
        is_first_without_ease_at(col, found, at),
    ensures
        (choose|at: int| is_first_without_ease_at(col, found, at)) == at,
{
    let chosen = choose|at: int| is_first_without_ease_at(col, found, at);
    if chosen < at {
        assert(home_ease(col, found[chosen]) is Ok);
    }
    if at < chosen {
        assert(home_ease(col, found[at]) is Ok);
    }
}

proof fn lemma_rescheduled_reads_prefix(
    before: CollectionView,
    found: Seq<Card>,
    first: Seq<u32>,
    second: Seq<u32>,
    force_reset: bool,
    usn: Usn,
    count: nat,
)
    requires
        count <= first.len(),
        count <= second.len(),
        forall|k: int| 0 <= k < count ==> first[k] == second[k],
    ensures
        cards_rescheduled(before, found, first, force_reset, usn, count) == cards_rescheduled(
            before,
            found,
            second,
            force_reset,
            usn,
            count,
        ),
    decreases count,
{
    if count > 0 {
        lemma_rescheduled_reads_prefix(
            before,
            found,
            first,
            second,
            force_reset,
            usn,
            (count - 1) as nat,
        );
    }
}

proof fn lemma_cards_with_ids(cards: Seq<Card>, cids: Seq<CardId>)
    requires
        distinct_keys(card_keys(cards)),
    ensures
        forall|j: int|
            0 <= j < cards_with_ids(cards, cids).len() ==> cids.contains(
                (#[trigger] cards_with_ids(cards, cids)[j]).id,
            ) && cards.contains(cards_with_ids(cards, cids)[j]),
        forall|j: int, k: int|
            0 <= j < k < cards_with_ids(cards, cids).len() ==> (#[trigger] cards_with_ids(
                cards,
                cids,
            )[j]).id != (#[trigger] cards_with_ids(cards, cids)[k]).id,
        forall|i: int|
            0 <= i < cards.len() && cids.contains((#[trigger] cards[i]).id) ==> cards_with_ids(
                cards,
                cids,
            ).contains(cards[i]),
    decreases cards.len(),
{
    if cards.len() > 0 {
        let earlier = cards.drop_last();
        let last = cards.len() - 1;
        assert(card_keys(earlier) =~= card_keys(cards).drop_last());
        lemma_cards_with_ids(earlier, cids);
        let found_earlier = cards_with_ids(earlier, cids);
        let found = cards_with_ids(cards, cids);
        assert forall|j: int| 0 <= j < found.len() implies cids.contains((#[trigger] found[j]).id)
            && cards.contains(found[j]) by {
            if j < found_earlier.len() {
                assert(found[j] == found_earlier[j]);
                assert(earlier.contains(found_earlier[j]));
                let i = choose|i: int| 0 <= i < earlier.len() && earlier[i] == found_earlier[j];
                assert(cards[i] == found[j]);
            } else {
                assert(cards[last] == found[j]);
            }
        }
        assert forall|j: int, k: int| 0 <= j < k < found.len() implies (#[trigger] found[j]).id != (
        #[trigger] found[k]).id by {
            if k >= found_earlier.len() {
                assert(found[j] == found_earlier[j]);
                assert(earlier.contains(found_earlier[j]));
                let i = choose|i: int| 0 <= i < earlier.len() && earlier[i] == found_earlier[j];
                assert(card_keys(cards)[i] != card_keys(cards)[last]);
            } else {
                assert(found[j] == found_earlier[j] && found[k] == found_earlier[k]);
            }
        }
        assert forall|i: int| 0 <= i < cards.len() && cids.contains((#[trigger] cards[i]).id)
        implies found.contains(cards[i]) by {
            if i < earlier.len() {
                assert(earlier[i] == cards[i]);
                assert(found_earlier.contains(earlier[i]));
                let j = choose|j: int| 0 <= j < found_earlier.len() && found_earlier[j] == earlier[i];
                assert(found[j] == cards[i]);
            } else {
                assert(found[found.len() - 1] == cards[i]);
            }
        }
    }
}

proof fn lemma_rescheduled_card_keeps_id(
    before: CollectionView,
    original: Card,
    offset: u32,
    force_reset: bool,
    usn: Usn,
)
    ensures
        rescheduled_card(before, original, offset, force_reset, usn).id == original.id,
{
    reveal(rescheduled_card);
}

proof fn lemma_update_in_place(
    before: CollectionView,
    earlier: CollectionView,
    original: Card,
    card: Card,
    entry: RevlogEntry,
    place: int,
)
    requires
        distinct_keys(card_keys(before.cards)),
        card_keys(earlier.cards) == card_keys(before.cards),
        earlier.cards.len() == before.cards.len(),
        0 <= place < before.cards.len(),
        before.cards[place] == original,
        card.id == original.id,
    ensures
        ({
            let state = earlier.revlog_added(entry).card_updated(card, original);
            &&& state.cards == earlier.cards.update(place, card)
            &&& card_keys(state.cards) == card_keys(before.cards)
        }),
{
    let logged = earlier.revlog_added(entry);
    assert(card_keys(before.cards)[place] == original.id.0);
    lemma_distinct_key_index(card_keys(before.cards), place);
    assert(logged.card_index(card.id) == Some(place));
    lemma_card_updated_keeps_ids(logged, card, original);
}

proof fn lemma_update_is_logged(earlier: CollectionView, original: Card, card: Card, entry: RevlogEntry)
    ensures
        ({
            let state = earlier.revlog_added(entry).card_updated(card, original);
            &&& state.decks == earlier.decks
            &&& state.deck_configs == earlier.deck_configs
            &&& state.config == earlier.config
            &&& state.revlog == earlier.revlog.push(entry)
            &&& state.current_step == step_extended(
                earlier.current_step,
                seq![ChangeView::Revlog(entry), ChangeView::Card(original)],
            )
        }),
{
    match earlier.current_step {
        Some(step) => {
            assert(step.changes.push(ChangeView::Revlog(entry)).push(ChangeView::Card(original))
                =~= step.changes + seq![ChangeView::Revlog(entry), ChangeView::Card(original)]);
        },
        None => {},
    }
}

/// What rescheduling leaves alone, and what it adds to the review log and
/// to the step of the operation.
proof fn lemma_cards_rescheduled_log(
    before: CollectionView,
    found: Seq<Card>,
    offsets: Seq<u32>,
    force_reset: bool,
    usn: Usn,
    count: nat,
)
    ensures
        ({
            let state = cards_rescheduled(before, found, offsets, force_reset, usn, count);
            &&& state.decks == before.decks
            &&& state.deck_configs == before.deck_configs
            &&& state.config == before.config
            &&& state.revlog == before.revlog + Seq::new(
                count,
                |j: int| rescheduled_entry(before, found[j], offsets[j], force_reset, usn),
            )
            &&& state.current_step == step_extended(
                before.current_step,
                recorded_changes(before, found, offsets, force_reset, usn, count),
            )
        }),
    decreases count,
{
    let state = cards_rescheduled(before, found, offsets, force_reset, usn, count);
    let recorded = recorded_changes(before, found, offsets, force_reset, usn, count);
    if count == 0 {
        assert(state.revlog =~= before.revlog + Seq::new(
            count,
            |j: int| rescheduled_entry(before, found[j], offsets[j], force_reset, usn),
        ));
        match before.current_step {
            Some(step) => {
                assert(step.changes + recorded =~= step.changes);
            },
            None => {},
        }
    } else {
        let last = (count - 1) as nat;
        lemma_cards_rescheduled_log(before, found, offsets, force_reset, usn, last);
        let earlier = cards_rescheduled(before, found, offsets, force_reset, usn, last);
        let original = found[last as int];
        let card = rescheduled_card(before, original, offsets[last as int], force_reset, usn);
        let entry = rescheduled_entry(before, original, offsets[last as int], force_reset, usn);
        lemma_update_is_logged(earlier, original, card, entry);
        assert(state.revlog =~= before.revlog + Seq::new(
            count,
            |j: int| rescheduled_entry(before, found[j], offsets[j], force_reset, usn),
        ));
        match before.current_step {
            Some(step) => {
                assert(step.changes + recorded_changes(
                    before,
                    found,
                    offsets,
                    force_reset,
                    usn,
                    last,
                ) + seq![ChangeView::Revlog(entry), ChangeView::Card(original)] =~= step.changes
                    + recorded);
            },
            None => {},
        }
    }
}

/// What rescheduling does to the stored cards, where their ids are
/// distinct.
proof fn lemma_cards_rescheduled(
    before: CollectionView,
    cids: Seq<CardId>,
    offsets: Seq<u32>,
    force_reset: bool,
    usn: Usn,
    count: nat,
)
    requires
        before.wf(),
        count <= before.cards_for_ids(cids).len(),
        count <= offsets.len(),
    ensures
        ({
            let found = before.cards_for_ids(cids);
            let state = cards_rescheduled(before, found, offsets, force_reset, usn, count);
            &&& card_keys(state.cards) == card_keys(before.cards)
            &&& state.cards.len() == before.cards.len()
            &&& forall|i: int, j: int|
                0 <= i < before.cards.len() && 0 <= j < count && #[trigger] found[j]
                    == #[trigger] before.cards[i] ==> state.cards[i] == rescheduled_card(
                    before,
                    before.cards[i],
                    offsets[j],
                    force_reset,
                    usn,
                )
            &&& forall|i: int|
                0 <= i < before.cards.len() && (forall|j: int|
                    0 <= j < count ==> (#[trigger] found[j]).id != before.cards[i].id)
                    ==> #[trigger] state.cards[i] == before.cards[i]
        }),
    decreases count,
{
    let found = before.cards_for_ids(cids);
    let state = cards_rescheduled(before, found, offsets, force_reset, usn, count);
    if count > 0 {
        let last = (count - 1) as nat;
        lemma_cards_rescheduled(before, cids, offsets, force_reset, usn, last);
        lemma_cards_with_ids(before.cards, cids);
        let earlier = cards_rescheduled(before, found, offsets, force_reset, usn, last);
        let original = found[last as int];
        let card = rescheduled_card(before, original, offsets[last as int], force_reset, usn);
        let entry = rescheduled_entry(before, original, offsets[last as int], force_reset, usn);
        assert(state == earlier.revlog_added(entry).card_updated(card, original));
        assert(before.cards.contains(original));
        let place = choose|place: int|
            0 <= place < before.cards.len() && before.cards[place] == original;
        lemma_rescheduled_card_keeps_id(before, original, offsets[last as int], force_reset, usn);
        lemma_update_in_place(before, earlier, original, card, entry, place);
        assert(state.cards == earlier.cards.update(place, card));
        assert forall|i: int, j: int|
            0 <= i < before.cards.len() && 0 <= j < count && #[trigger] found[j]
                == #[trigger] before.cards[i] implies state.cards[i] == rescheduled_card(
            before,
            before.cards[i],
            offsets[j],
            force_reset,
            usn,
        ) by {
            if j == last {
                if i != place {
                    assert(card_keys(before.cards)[i] == card_keys(before.cards)[place]);
                }
            } else {
                assert(found[j].id != found[last as int].id);
                assert(i != place);
            }
        }
        assert forall|i: int|
            0 <= i < before.cards.len() && (forall|j: int|
                0 <= j < count ==> (#[trigger] found[j]).id != before.cards[i].id)
        implies #[trigger] state.cards[i] == before.cards[i] by {
            assert(found[last as int].id != before.cards[i].id);
            assert(i != place);
        }
    }
}

/// Among cards with distinct ids, setting due dates that goes through
/// gives each card named the schedule that `Card::set_due_date` gives it
/// for the offset drawn for it, with the initial ease factor of its home
/// deck to fall back on and the stamp of the operation, and leaves each
/// other card as it was. The review log grows by one entry for each card
/// named, in the order in which the cards are stored, and the step of the
/// operation records each of those entries and, after it, the card as it
/// was stored before; a setting that was written is recorded last, with
/// the value it had.
pub proof fn lemma_batch_reschedules_named_cards(
    before: CollectionView,
    cids: Seq<CardId>,
    spec: DueDateSpecifier,
    days: Seq<char>,
    context: Option<StringKey>,
    usn: Usn,
    offsets: Seq<u32>,
    at: int,
)
    requires
        before.wf(),
        offsets.len() == before.cards_for_ids(cids).len(),
        due_dates_set(before, cids, spec, days, context, usn, offsets) is Ok,
        0 <= at < before.cards.len(),
    ensures
        ({
            let done = due_dates_set(before, cids, spec, days, context, usn, offsets)->Ok_0;
            let found = before.cards_for_ids(cids);
            let card = before.cards[at];
            &&& done.cards.len() == before.cards.len()
            &&& !cids.contains(card.id) ==> done.cards[at] == card
            &&& cids.contains(card.id) ==> exists|j: int|
                0 <= j < found.len() && #[trigger] found[j] == card && done.cards[at]
                    == rescheduled_card(before, card, offsets[j], spec.force_reset, usn)
            &&& done.revlog == before.revlog + Seq::new(
                found.len(),
                |j: int| rescheduled_entry(before, found[j], offsets[j], spec.force_reset, usn),
            )
            &&& done.current_step == step_extended(
                before.current_step,
                recorded_changes(before, found, offsets, spec.force_reset, usn, found.len())
                    + match context {
                    Some(key) => seq![ChangeView::Config(key, before.get_config_string(key))],
                    None => Seq::empty(),
                },
            )
            &&& done.config == match context {
                Some(key) => before.config.insert(key, days),
                None => before.config,
            }
        }),
{
    let found = before.cards_for_ids(cids);
    let card = before.cards[at];
    let recorded = recorded_changes(before, found, offsets, spec.force_reset, usn, found.len());
    match (before.current_step, context) {
        (Some(step), Some(key)) => {
            assert(step.changes + (recorded + seq![
                ChangeView::Config(key, before.get_config_string(key)),
            ]) =~= (step.changes + recorded).push(
                ChangeView::Config(key, before.get_config_string(key)),
            ));
        },
        (Some(step), None) => {
            assert(recorded + Seq::<ChangeView>::empty() =~= recorded);
        },
        _ => {},
    }
    lemma_cards_rescheduled(before, cids, offsets, spec.force_reset, usn, found.len());
    lemma_cards_rescheduled_log(before, found, offsets, spec.force_reset, usn, found.len());
    lemma_cards_with_ids(before.cards, cids);
    if cids.contains(card.id) {
        assert(found.contains(card));
        let j = choose|j: int| 0 <= j < found.len() && found[j] == card;
        assert(found[j] == before.cards[at]);
    } else {
        assert forall|j: int| 0 <= j < found.len() implies (#[trigger] found[j]).id != card.id by {
            assert(cids.contains(found[j].id));
        }
    }
}

/// Setting due dates keeps ids distinct.
pub proof fn lemma_batch_keeps_ids_distinct(
    before: CollectionView,
    cids: Seq<CardId>,
    spec: DueDateSpecifier,
    days: Seq<char>,
    context: Option<StringKey>,
    usn: Usn,
    offsets: Seq<u32>,
)
    requires
        before.wf(),
        offsets.len() == before.cards_for_ids(cids).len(),
    ensures
        due_dates_set(before, cids, spec, days, context, usn, offsets) matches Ok(done)
            ==> done.wf(),
{
    let found = before.cards_for_ids(cids);
    lemma_cards_rescheduled(before, cids, offsets, spec.force_reset, usn, found.len());
    lemma_cards_rescheduled_log(before, found, offsets, spec.force_reset, usn, found.len());
}

impl Card {
    /// Whether the card can be made due `days_from_today` days from
    /// `today` without a field running over.
    pub fn can_reschedule(&self, today: u32, next_day_start: i64, days_from_today: u32) -> (fits: bool)
        ensures
            fits == self.can_be_rescheduled(today, next_day_start, days_from_today),
    {
        if today as u64 + days_from_today as u64 > 0x7fff_ffff {
            return false;
        }
        match (self.memory_state, self.last_review_time) {
            (Some(_), Some(reviewed)) => {
                let elapsed = TimestampSecs(next_day_start).elapsed_days_since(reviewed);
                elapsed <= 0xffff_ffff && elapsed + days_from_today as u64 <= 0xffff_ffff
            },
            _ => true,
        }
    }
}

impl Collection {
    /// The first of `cids` that names a card which is not stored.
    pub fn first_missing_card(&self, cids: &[CardId]) -> (missing: Option<CardId>)
        ensures
            missing == first_missing(self@, cids@),
    {
        let mut at: usize = 0;
        while at < cids.len()
            invariant
                at <= cids@.len(),
                forall|earlier: int|
                    0 <= earlier < at ==> self@.get_card(#[trigger] cids@[earlier]) is Some,
            decreases cids@.len() - at,
        {
            if self.get_card(cids[at]).is_none() {
                proof {
                    lemma_first_missing_found(self@, cids@, at as int);
                }
                return Some(cids[at]);
            }
            at = at + 1;
        }
        assert forall|at: int| !is_first_missing_at(self@, cids@, at) by {
            if is_first_missing_at(self@, cids@, at) {
                assert(self@.get_card(cids@[at]) is Some);
            }
        }
        None
    }

    /// Whether the cards named by `cids` that rescheduling gets to can be
    /// made due up to `spec.max` days from today.
    pub fn can_set_due_date(&self, cids: &[CardId], spec: &DueDateSpecifier) -> (fits: bool)
        ensures
            fits == due_dates_fit(self@, cids@, *spec),
    {
        proof {
            reveal(due_dates_fit);
        }
        let timing = self.timing_today();
        let found = self.all_cards_for_ids(cids);
        let mut cache = DeckEaseCache::new();
        let mut at: usize = 0;
        while at < found.len()
            invariant
                at <= found@.len(),
                found@ == self@.cards_for_ids(cids@),
                timing == self@.timing,
                cache.agrees_with(self@.decks, self@.deck_configs),
                eases_found(self@, found@, at as int),
                forall|k: int|
                    0 <= k < at ==> (#[trigger] found@[k]).can_be_rescheduled(
                        timing.days_elapsed,
                        timing.next_day_at.0,
                        spec.max,
                    ),
            decreases found@.len() - at,
        {
            match cache.initial_ease(self, found[at].original_or_current_deck_id()) {
                Ok(_) => {},
                Err(_) => {
                    proof {
                        reveal(due_dates_fit);
                        assert(home_ease(self@, found@[at as int]) is Err);
                    }
                    return true;
                },
            }
            assert(eases_found(self@, found@, at + 1));
            if !found[at].can_reschedule(timing.days_elapsed, timing.next_day_at.0, spec.max) {
                proof {
                    reveal(due_dates_fit);
                }
                return false;
            }
            at = at + 1;
        }
        true
    }

    /// Reschedules the stored cards named by `cids`, each by a day offset
    /// drawn afresh from the range of `spec`, inside an operation that has
    /// begun. Stops at the first failure; what was changed up to then is
    /// for the operation to undo.
    fn reschedule_cards(
        &mut self,
        cids: &[CardId],
        spec: DueDateSpecifier,
        days: &str,
        context: Option<StringKey>,
        usn: Usn,
    ) -> (inner: Result<(), AnkiError>)
        requires
            spec.min <= spec.max,
            first_missing(old(self)@, cids@) is None ==> due_dates_fit(old(self)@, cids@, spec),
        ensures
            rescheduling_ended(old(self)@, final(self)@, inner, cids@, spec, days@, context, usn),
    {
        let ghost before = self@;
        let timing = self.timing_today();
        let found = self.all_cards_for_ids(cids);
        let ghost any_offsets = Seq::new(found@.len(), |k: int| spec.min);
        assert(offsets_within(any_offsets, spec, found@.len() as int));
        match self.first_missing_card(cids) {
            Some(missing) => {
                proof {
                    let at = choose|at: int| is_first_missing_at(before, cids@, at);
                    assert(cids@[at] == missing);
                }
                return Err(AnkiError::not_found("card", decimal_string(missing.0)));
            },
            None => {},
        }
        let mut rng = thread_rng();
        let mut cache = DeckEaseCache::new();
        let ghost mut offsets: Seq<u32> = Seq::empty();
        let mut at: usize = 0;
        while at < found.len()
            invariant
                at <= found@.len(),
                spec.min <= spec.max,
                before == old(self)@,
                found@ == before.cards_for_ids(cids@),
                due_dates_fit(before, cids@, spec),
                timing == before.timing,
                offsets_within(offsets, spec, at as int),
                self@ == cards_rescheduled(
                    before,
                    found@,
                    offsets,
                    spec.force_reset,
                    usn,
                    at as nat,
                ),
                self@.decks == before.decks,
                self@.deck_configs == before.deck_configs,
                cache.agrees_with(before.decks, before.deck_configs),
                forall|earlier: int|
                    0 <= earlier < at ==> home_ease(before, #[trigger] found@[earlier]) is Ok,
                !exists|miss: int| is_first_missing_at(before, cids@, miss),
                offsets_within(any_offsets, spec, found@.len() as int),
            decreases found@.len() - at,
        {
            let mut card = found[at];
            let deck_id = card.original_deck_id.or(card.deck_id);
            let ease_factor = match cache.initial_ease(&*self, deck_id) {
                Ok(ease_factor) => ease_factor,
                Err(err) => {
                    proof {
                        assert(is_first_without_ease_at(before, found@, at as int));
                        lemma_first_without_ease_found(before, found@, at as int);
                        assert(due_dates_set(before, cids@, spec, days@, context, usn, any_offsets)
                            == Err::<CollectionView, Failure>(
                            home_ease(before, found@[at as int])->Err_0,
                        ));
                    }
                    return Err(err);
                },
            };
            let original = card;
            let days_from_today = sample_inclusive(&mut rng, spec.min, spec.max);
            proof {
                assert(eases_found(before, found@, at + 1));
                lemma_reached_card_fits(before, cids@, spec, at as int);
            }
            card.set_due_date(
                timing.days_elapsed,
                timing.next_day_at.0,
                days_from_today,
                ease_factor,
                spec.force_reset,
            );
            self.log_manually_scheduled_review(&card, original.interval, usn);
            self.update_card_inner(&mut card, original, usn);
            proof {
                reveal(rescheduled_card);
                reveal(rescheduled_entry);
                let longer = offsets.push(days_from_today);
                lemma_rescheduled_reads_prefix(
                    before,
                    found@,
                    offsets,
                    longer,
                    spec.force_reset,
                    usn,
                    at as nat,
                );
                offsets = longer;
            }
            at = at + 1;
        }
        assert forall|fail: int| !is_first_without_ease_at(before, found@, fail) by {
            if is_first_without_ease_at(before, found@, fail) {
                assert(home_ease(before, found@[fail]) is Ok);
            }
        }
        match context {
            Some(key) => {
                self.set_config_string_inner(key, days);
            },
            None => {},
        }
        Ok(())
    }

    /// `set_due_date` for a caller that has not made sure of what it asks
    /// for: nothing is done, and nothing handed back, where an operation
    /// would have to be begun while one is running or while the update
    /// sequence number cannot move on, or where cards would be rescheduled
    /// to a due day or an interval that does not fit its field.
    pub fn checked_set_due_date(&mut self, cids: &[CardId], days: &str, context: Option<StringKey>) -> (result:
        Option<Result<OpOutput<()>, AnkiError>>)
        ensures
            result is Some <==> can_set_due_date(old(self)@, cids@, days@),
            result matches Some(ended) ==> set_due_date_ended(
                old(self)@,
                cids@,
                days@,
                context,
                final(self)@,
                ended,
            ),
            result is None ==> final(self)@ == old(self)@,
            old(self)@.wf() ==> final(self)@.wf(),
    {
        match parse_due_date_str(days) {
            Ok(spec) => {
                if cids.len() > 0 {
                    if self.in_operation() || self.usn().0 == 0x7fff_ffff {
                        return None;
                    }
                    if self.first_missing_card(cids).is_none() && !self.can_set_due_date(
                        cids,
                        &spec,
                    ) {
                        return None;
                    }
                }
            },
            Err(_) => {},
        }
        Some(self.set_due_date(cids, days, context))
    }

    /// Makes each of the cards named by `cids` due a number of days from
    /// today that is drawn from the range written in `days`, a string that
    /// `parse_due_date_str` reads. All cards see the same "today". Where
    /// `context` names a setting, `days` is stored under it as part of the
    /// same operation. Either every card is rescheduled or none is.
    pub fn set_due_date(&mut self, cids: &[CardId], days: &str, context: Option<StringKey>) -> (result:
        Result<OpOutput<()>, AnkiError>)
        requires
            can_set_due_date(old(self)@, cids@, days@),
        ensures
            set_due_date_ended(old(self)@, cids@, days@, context, final(self)@, result),
            result is Err ==> final(self)@ == old(self)@,
            old(self)@.wf() ==> final(self)@.wf(),
            cids@.len() == 0 ==> final(self)@ == old(self)@,
            cids@.len() == 0 && parsed_due_date(days@) is Ok ==> result == Ok::<
                OpOutput<()>,
                AnkiError,
            >(OpOutput { output: (), changes: OpChanges::none() }),
    {
        let spec = match parse_due_date_str(days) {
            Ok(spec) => spec,
            Err(err) => {
                return Err(err);
            },
        };
        if cids.len() == 0 {
            return Ok(OpOutput { output: (), changes: OpChanges::default() });
        }
        let usn = self.usn();
        let ghost before = self@;
        let ghost begun = self@.begun(Op::SetDueDate);
        let body = |col: &mut Collection| -> (inner: Result<(), AnkiError>)
            requires
                col@ == begun,
                spec.min <= spec.max,
                first_missing(begun, cids@) is None ==> due_dates_fit(begun, cids@, spec),
            ensures
                rescheduling_ended(begun, final(col)@, inner, cids@, spec, days@, context, usn),
            { col.reschedule_cards(cids, spec, days, context, usn) };
        assert(first_missing(begun, cids@) is None ==> due_dates_fit(begun, cids@, spec)) by {
            lemma_first_missing_among_same_cards(before, begun, cids@);
            if first_missing(before, cids@) is None {
                lemma_fit_among_same_cards(before, begun, cids@, spec);
            }
        }
        let result = self.transact(Op::SetDueDate, body);
        proof {
            let (col, inner) = choose|col: &mut Collection, inner: Result<(), AnkiError>|
                {
                    &&& col@ == before.begun(Op::SetDueDate)
                    &&& #[trigger] body.ensures((col,), inner)
                    &&& transaction_ended(
                        before,
                        Op::SetDueDate,
                        final(col)@,
                        inner,
                        self@,
                        result,
                    )
                };
            assert(rescheduling_ended(begun, final(col)@, inner, cids@, spec, days@, context, usn));
            let offsets = choose|offsets: Seq<u32>| #[trigger]
                offsets_within(offsets, spec, begun.cards_for_ids(cids@).len() as int)
                    && match due_dates_set(begun, cids@, spec, days@, context, usn, offsets) {
                    Ok(done) => inner is Ok && final(col)@ == done,
                    Err(failure) => inner is Err && inner->Err_0.is_failure(failure),
                };
            assert(offsets_within(offsets, spec, before.cards_for_ids(cids@).len() as int));
            if before.wf() {
                lemma_batch_keeps_ids_distinct(begun, cids@, spec, days@, context, usn, offsets);
            }
        }
        result
    }
}

} // verus!
