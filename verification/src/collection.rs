//! The collection: cards, decks and settings held in memory, changed only
//! through operations that are recorded for undo and that either take
//! effect as a whole or not at all.

use vstd::prelude::*;

use crate::card::Card;
use crate::card::CardId;
use crate::card::DeckId;
use crate::card::NoteId;
use crate::card::Usn;
use crate::config::StringConfig;
use crate::config::StringKey;
use crate::decks::Deck;
use crate::decks::DeckConfig;
use crate::decks::DeckConfigId;
use crate::error::AnkiError;
use crate::ops::Op;
use crate::ops::OpChanges;
use crate::ops::OpOutput;
use crate::revlog::RevlogEntry;
use crate::text::text_of;
use crate::timing::SchedTimingToday;
use crate::undo::step_views;
use crate::undo::ChangeView;
use crate::undo::ConfigChange;
use crate::undo::StepView;
use crate::undo::UndoableChange;
use crate::undo::UndoableOp;

verus! {

/// Cards, decks, deck configurations, settings and the review log, with
/// the history of the operations that changed them.
pub struct Collection {
    cards: Vec<Card>,
    decks: Vec<Deck>,
    deck_configs: Vec<DeckConfig>,
    config: StringConfig,
    revlog: Vec<RevlogEntry>,
    usn: Usn,
    timing: SchedTimingToday,
    /// The finished operations, oldest first.
    undo_steps: Vec<UndoableOp>,
    /// The operation that is running, if one is.
    current_step: Option<UndoableOp>,
}

/// The collection as plain data.
pub struct CollectionView {
    pub cards: Seq<Card>,
    pub decks: Seq<Deck>,
    pub deck_configs: Seq<DeckConfig>,
    pub config: Map<StringKey, Seq<char>>,
    pub revlog: Seq<RevlogEntry>,
    pub usn: Usn,
    pub timing: SchedTimingToday,
    pub undo_steps: Seq<StepView>,
    pub current_step: Option<StepView>,
}

/// Whether `at` is the first place in `keys` that holds `key`.
pub open spec fn is_first_at(keys: Seq<i64>, key: i64, at: int) -> bool {
    &&& 0 <= at < keys.len()
    &&& keys[at] == key
    &&& forall|earlier: int| 0 <= earlier < at ==> keys[earlier] != key
}

/// The first place in `keys` that holds `key`.
pub open spec fn first_index_of(keys: Seq<i64>, key: i64) -> Option<int> {
    if exists|at: int| is_first_at(keys, key, at) {
        Some(choose|at: int| is_first_at(keys, key, at))
    } else {
        None
    }
}

pub proof fn lemma_first_index_found(keys: Seq<i64>, key: i64, at: int)
    requires
        is_first_at(keys, key, at),
    ensures
        first_index_of(keys, key) == Some(at),
{
    let chosen = choose|at: int| is_first_at(keys, key, at);
    assert(!(chosen < at));
    assert(!(at < chosen));
}

pub proof fn lemma_first_index_absent(keys: Seq<i64>, key: i64)
    requires
        forall|at: int| 0 <= at < keys.len() ==> keys[at] != key,
    ensures
        first_index_of(keys, key) is None,
{
}

pub proof fn lemma_key_has_first(keys: Seq<i64>, key: i64, at: int)
    requires
        0 <= at < keys.len(),
        keys[at] == key,
    ensures
        first_index_of(keys, key) is Some,
        0 <= first_index_of(keys, key)->0 <= at,
        keys[first_index_of(keys, key)->0] == key,
    decreases at,
{
    if forall|earlier: int| 0 <= earlier < at ==> keys[earlier] != key {
        lemma_first_index_found(keys, key, at);
    } else {
        let earlier = choose|earlier: int| 0 <= earlier < at && keys[earlier] == key;
        lemma_key_has_first(keys, key, earlier);
    }
}

/// Whether no key occurs twice.
pub open spec fn distinct_keys(keys: Seq<i64>) -> bool {
    forall|i: int, j: int| 0 <= i < j < keys.len() ==> keys[i] != keys[j]
}

/// Among distinct keys, a key is first where it is.
pub proof fn lemma_distinct_key_index(keys: Seq<i64>, at: int)
    requires
        distinct_keys(keys),
        0 <= at < keys.len(),
    ensures
        first_index_of(keys, keys[at]) == Some(at),
{
    lemma_first_index_found(keys, keys[at], at);
}

/// A key that is nowhere among distinct keys can join them.
pub proof fn lemma_distinct_keys_push(keys: Seq<i64>, key: i64)
    requires
        distinct_keys(keys),
        first_index_of(keys, key) is None,
    ensures
        distinct_keys(keys.push(key)),
{
    assert forall|i: int| 0 <= i < keys.len() implies keys[i] != key by {
        if keys[i] == key {
            lemma_key_has_first(keys, key, i);
        }
    }
}

pub open spec fn card_keys(cards: Seq<Card>) -> Seq<i64> {
    cards.map_values(|card: Card| card.id.0)
}

pub open spec fn deck_keys(decks: Seq<Deck>) -> Seq<i64> {
    decks.map_values(|deck: Deck| deck.id.0)
}

pub open spec fn deck_config_keys(configs: Seq<DeckConfig>) -> Seq<i64> {
    configs.map_values(|config: DeckConfig| config.id.0)
}

/// Those of `cards` whose id is among `cids`, in the order of `cards`.
pub open spec fn cards_with_ids(cards: Seq<Card>, cids: Seq<CardId>) -> Seq<Card>
    decreases cards.len(),
{
    if cards.len() == 0 {
        Seq::empty()
    } else if cids.contains(cards.last().id) {
        cards_with_ids(cards.drop_last(), cids).push(cards.last())
    } else {
        cards_with_ids(cards.drop_last(), cids)
    }
}

/// The first of `decks` that has the id `id`.
pub open spec fn deck_with_id(decks: Seq<Deck>, id: DeckId) -> Option<Deck> {
    match first_index_of(deck_keys(decks), id.0) {
        Some(at) => Some(decks[at]),
        None => None,
    }
}

/// The first of `configs` that has the id `id`.
pub open spec fn deck_config_with_id(configs: Seq<DeckConfig>, id: DeckConfigId) -> Option<
    DeckConfig,
> {
    match first_index_of(deck_config_keys(configs), id.0) {
        Some(at) => Some(configs[at]),
        None => None,
    }
}

/// The ids of those of `cards` that belong to one of the notes `nids`, in
/// the order of `cards`.
pub open spec fn card_ids_with_notes(cards: Seq<Card>, nids: Seq<NoteId>) -> Seq<CardId>
    decreases cards.len(),
{
    if cards.len() == 0 {
        Seq::empty()
    } else if nids.contains(cards.last().note_id) {
        card_ids_with_notes(cards.drop_last(), nids).push(cards.last().id)
    } else {
        card_ids_with_notes(cards.drop_last(), nids)
    }
}

impl CollectionView {
    /// A collection that holds nothing.
    pub open spec fn empty(usn: Usn, timing: SchedTimingToday) -> CollectionView {
        CollectionView {
            cards: Seq::empty(),
            decks: Seq::empty(),
            deck_configs: Seq::empty(),
            config: Map::empty(),
            revlog: Seq::empty(),
            usn,
            timing,
            undo_steps: Seq::empty(),
            current_step: None,
        }
    }

    /// Whether ids tell things apart: no two cards share one, nor two
    /// decks, nor two deck configurations.
    pub open spec fn wf(self) -> bool {
        &&& distinct_keys(card_keys(self.cards))
        &&& distinct_keys(deck_keys(self.decks))
        &&& distinct_keys(deck_config_keys(self.deck_configs))
    }

    pub open spec fn card_index(self, id: CardId) -> Option<int> {
        first_index_of(card_keys(self.cards), id.0)
    }

    pub open spec fn get_card(self, id: CardId) -> Option<Card> {
        match self.card_index(id) {
            Some(at) => Some(self.cards[at]),
            None => None,
        }
    }

    pub open spec fn get_deck(self, id: DeckId) -> Option<Deck> {
        deck_with_id(self.decks, id)
    }

    pub open spec fn get_deck_config(self, id: DeckConfigId) -> Option<DeckConfig> {
        deck_config_with_id(self.deck_configs, id)
    }

    pub open spec fn cards_for_ids(self, cids: Seq<CardId>) -> Seq<Card> {
        cards_with_ids(self.cards, cids)
    }

    pub open spec fn get_config_string(self, key: StringKey) -> Option<Seq<char>> {
        if self.config.contains_key(key) {
            Some(self.config[key])
        } else {
            None
        }
    }

    /// With `change` appended to the running operation, if one is running.
    pub open spec fn recorded(self, change: ChangeView) -> CollectionView {
        match self.current_step {
            Some(step) => CollectionView {
                current_step: Some(StepView { kind: step.kind, changes: step.changes.push(change) }),
                ..self
            },
            None => self,
        }
    }

    /// With the stored card of `card`'s id replaced by `card`, and
    /// `original` recorded as what it was.
    pub open spec fn card_updated(self, card: Card, original: Card) -> CollectionView {
        let recorded = self.recorded(ChangeView::Card(original));
        match self.card_index(card.id) {
            Some(at) => CollectionView { cards: self.cards.update(at, card), ..recorded },
            None => recorded,
        }
    }

    /// With `entry` added to the review log, and recorded.
    pub open spec fn revlog_added(self, entry: RevlogEntry) -> CollectionView {
        CollectionView {
            revlog: self.revlog.push(entry),
            ..self.recorded(ChangeView::Revlog(entry))
        }
    }

    /// With `value` stored under `key`, and the earlier value recorded.
    pub open spec fn config_string_set(self, key: StringKey, value: Seq<char>) -> CollectionView {
        CollectionView {
            config: self.config.insert(key, value),
            ..self.recorded(ChangeView::Config(key, self.get_config_string(key)))
        }
    }

    /// As an operation of kind `op` finds the collection: the history set
    /// aside, and an empty step open to record into.
    pub open spec fn begun(self, op: Op) -> CollectionView {
        CollectionView {
            undo_steps: Seq::empty(),
            current_step: Some(StepView { kind: op, changes: Seq::empty() }),
            ..self
        }
    }

    /// The step that an operation of kind `op` leaves behind.
    pub open spec fn finished_step(self, op: Op) -> StepView {
        match self.current_step {
            Some(step) => step,
            None => StepView { kind: op, changes: Seq::empty() },
        }
    }

    /// What a finished operation reports of its changes.
    pub open spec fn op_changes(self, op: Op) -> OpChanges {
        OpChanges {
            op: self.finished_step(op).kind,
            changes: self.finished_step(op).state_changes(),
        }
    }

    /// The collection after an operation of kind `op` that began on
    /// `before` and left `self` has been made permanent: its step joins
    /// the history, and the update sequence number moves on by one.
    pub open spec fn committed(self, before: CollectionView, op: Op) -> CollectionView {
        CollectionView {
            usn: Usn((before.usn.0 + 1) as i32),
            undo_steps: before.undo_steps.push(self.finished_step(op)),
            current_step: None,
            ..self
        }
    }
}

/// How an operation ends: made permanent if its body succeeded, and
/// otherwise undone without a trace.
pub open spec fn transaction_ended<T>(
    before: CollectionView,
    op: Op,
    after_body: CollectionView,
    inner: Result<T, AnkiError>,
    after: CollectionView,
    result: Result<OpOutput<T>, AnkiError>,
) -> bool {
    match inner {
        Ok(output) => {
            &&& after == after_body.committed(before, op)
            &&& result == Ok::<OpOutput<T>, AnkiError>(
                OpOutput { output, changes: after_body.op_changes(op) },
            )
        },
        Err(err) => after == before && result == Err::<OpOutput<T>, AnkiError>(err),
    }
}

/// An operation is all or nothing, and each one that goes through bears a
/// later stamp than the one before: if its body fails, the collection is
/// exactly as it was before; if its body succeeds, what the body left is
/// kept, the update sequence number is one more than before, and the undo
/// history is longer by one step, which is the one the body recorded.
pub proof fn lemma_transaction_guarantees<T>(
    before: CollectionView,
    op: Op,
    after_body: CollectionView,
    inner: Result<T, AnkiError>,
    after: CollectionView,
    result: Result<OpOutput<T>, AnkiError>,
)
    requires
        transaction_ended(before, op, after_body, inner, after, result),
        before.usn.0 < i32::MAX,
    ensures
        inner is Err ==> after == before && result is Err,
        inner is Ok ==> {
            &&& result is Ok
            &&& after.usn.0 == before.usn.0 + 1
            &&& after.undo_steps.len() == before.undo_steps.len() + 1
            &&& after.undo_steps.drop_last() == before.undo_steps
            &&& after.undo_steps.last() == after_body.finished_step(op)
            &&& after.current_step is None
            &&& after.cards == after_body.cards
            &&& after.revlog == after_body.revlog
            &&& after.config == after_body.config
        },
{
    if inner is Ok {
        assert(after.undo_steps.drop_last() =~= before.undo_steps);
    }
}

/// Overwriting a card by id leaves every card under the id it had.
pub proof fn lemma_card_updated_keeps_ids(col: CollectionView, card: Card, original: Card)
    ensures
        card_keys(col.card_updated(card, original).cards) == card_keys(col.cards),
        col.card_updated(card, original).decks == col.decks,
        col.card_updated(card, original).deck_configs == col.deck_configs,
        col.wf() ==> col.card_updated(card, original).wf(),
{
    match col.card_index(card.id) {
        Some(at) => {
            assert(is_first_at(card_keys(col.cards), card.id.0, at));
            assert(card_keys(col.cards.update(at, card)) =~= card_keys(col.cards));
        },
        None => {},
    }
}

impl View for Collection {
    type V = CollectionView;

    closed spec fn view(&self) -> CollectionView {
        CollectionView {
            cards: self.cards@,
            decks: self.decks@,
            deck_configs: self.deck_configs@,
            config: self.config@,
            revlog: self.revlog@,
            usn: self.usn,
            timing: self.timing,
            undo_steps: step_views(self.undo_steps@),
            current_step: match self.current_step {
                Some(step) => Some(step@),
                None => None,
            },
        }
    }
}

/// What it takes to put a collection back as it was when an operation
/// began.
pub struct Savepoint {
    cards: Vec<Card>,
    decks: Vec<Deck>,
    deck_configs: Vec<DeckConfig>,
    config: StringConfig,
    revlog: Vec<RevlogEntry>,
    usn: Usn,
    timing: SchedTimingToday,
    history: Vec<UndoableOp>,
}

impl View for Savepoint {
    type V = CollectionView;

    /// The collection as it was when the operation began.
    closed spec fn view(&self) -> CollectionView {
        CollectionView {
            cards: self.cards@,
            decks: self.decks@,
            deck_configs: self.deck_configs@,
            config: self.config@,
            revlog: self.revlog@,
            usn: self.usn,
            timing: self.timing,
            undo_steps: step_views(self.history@),
            current_step: None,
        }
    }
}

/// Whether `id` is among `cids`.
pub fn contains_id(cids: &[CardId], id: CardId) -> (found: bool)
    ensures
        found == cids@.contains(id),
{
    let mut at: usize = 0;
    while at < cids.len()
        invariant
            at <= cids@.len(),
            forall|i: int| 0 <= i < at ==> cids@[i] != id,
        decreases cids@.len() - at,
    {
        if cids[at].0 == id.0 {
            assert(cids@[at as int] == id);
            return true;
        }
        at = at + 1;
    }
    false
}

fn contains_note(nids: &[NoteId], id: NoteId) -> (found: bool)
    ensures
        found == nids@.contains(id),
{
    let mut at: usize = 0;
    while at < nids.len()
        invariant
            at <= nids@.len(),
            forall|i: int| 0 <= i < at ==> nids@[i] != id,
        decreases nids@.len() - at,
    {
        if nids[at].0 == id.0 {
            assert(nids@[at as int] == id);
            return true;
        }
        at = at + 1;
    }
    false
}

fn card_position(cards: &Vec<Card>, id: CardId) -> (found: Option<usize>)
    ensures
        match found {
            Some(at) => first_index_of(card_keys(cards@), id.0) == Some(at as int),
            None => first_index_of(card_keys(cards@), id.0) is None,
        },
{
    let mut at: usize = 0;
    while at < cards.len()
        invariant
            at <= cards@.len(),
            forall|i: int| 0 <= i < at ==> card_keys(cards@)[i] != id.0,
        decreases cards@.len() - at,
    {
        if cards[at].id.0 == id.0 {
            proof {
                lemma_first_index_found(card_keys(cards@), id.0, at as int);
            }
            return Some(at);
        }
        at = at + 1;
    }
    proof {
        lemma_first_index_absent(card_keys(cards@), id.0);
    }
    None
}

impl Collection {
    /// A collection without cards, decks, settings or history.
    pub fn new(usn: Usn, timing: SchedTimingToday) -> (col: Collection)
        ensures
            col@ == CollectionView::empty(usn, timing),
            col@.wf(),
    {
        let col = Collection {
            cards: Vec::new(),
            decks: Vec::new(),
            deck_configs: Vec::new(),
            config: StringConfig::new(),
            revlog: Vec::new(),
            usn,
            timing,
            undo_steps: Vec::new(),
            current_step: None,
        };
        assert(col@.undo_steps =~= Seq::<StepView>::empty());
        col
    }

    /// Stores a card. A card whose id is taken is refused as existing.
    pub fn add_card(&mut self, card: Card) -> (result: Result<(), AnkiError>)
        ensures
            match old(self)@.get_card(card.id) {
                Some(_) => result == Err::<(), AnkiError>(AnkiError::Existing) && final(self)@ == old(
                    self,
                )@,
                None => result is Ok && final(self)@ == (CollectionView {
                    cards: old(self)@.cards.push(card),
                    ..old(self)@
                }),
            },
            old(self)@.wf() ==> final(self)@.wf(),
    {
        match card_position(&self.cards, card.id) {
            Some(_) => Err(AnkiError::Existing),
            None => {
                proof {
                    if self@.wf() {
                        lemma_distinct_keys_push(card_keys(self.cards@), card.id.0);
                    }
                    assert(card_keys(self.cards@.push(card)) =~= card_keys(self.cards@).push(
                        card.id.0,
                    ));
                }
                self.cards.push(card);
                Ok(())
            },
        }
    }

    /// Stores a deck. A deck whose id is taken is refused as existing.
    pub fn add_deck(&mut self, deck: Deck) -> (result: Result<(), AnkiError>)
        ensures
            match old(self)@.get_deck(deck.id) {
                Some(_) => result == Err::<(), AnkiError>(AnkiError::Existing) && final(self)@ == old(
                    self,
                )@,
                None => result is Ok && final(self)@ == (CollectionView {
                    decks: old(self)@.decks.push(deck),
                    ..old(self)@
                }),
            },
            old(self)@.wf() ==> final(self)@.wf(),
    {
        match self.get_deck(deck.id) {
            Some(_) => Err(AnkiError::Existing),
            None => {
                proof {
                    if self@.wf() {
                        lemma_distinct_keys_push(deck_keys(self.decks@), deck.id.0);
                    }
                    assert(deck_keys(self.decks@.push(deck)) =~= deck_keys(self.decks@).push(
                        deck.id.0,
                    ));
                }
                self.decks.push(deck);
                Ok(())
            },
        }
    }

    /// Stores a deck configuration. One whose id is taken is refused as
    /// existing.
    pub fn add_deck_config(&mut self, config: DeckConfig) -> (result: Result<(), AnkiError>)
        ensures
            match old(self)@.get_deck_config(config.id) {
                Some(_) => result == Err::<(), AnkiError>(AnkiError::Existing) && final(self)@ == old(
                    self,
                )@,
                None => result is Ok && final(self)@ == (CollectionView {
                    deck_configs: old(self)@.deck_configs.push(config),
                    ..old(self)@
                }),
            },
            old(self)@.wf() ==> final(self)@.wf(),
    {
        match self.get_deck_config(config.id) {
            Some(_) => Err(AnkiError::Existing),
            None => {
                proof {
                    if self@.wf() {
                        lemma_distinct_keys_push(
                            deck_config_keys(self.deck_configs@),
                            config.id.0,
                        );
                    }
                    assert(deck_config_keys(self.deck_configs@.push(config))
                        =~= deck_config_keys(self.deck_configs@).push(config.id.0));
                }
                self.deck_configs.push(config);
                Ok(())
            },
        }
    }

    /// Tells the collection what day it is.
    pub fn set_timing(&mut self, timing: SchedTimingToday)
        ensures
            final(self)@ == (CollectionView { timing, ..old(self)@ }),
    {
        self.timing = timing;
    }

    /// The update sequence number that changes are stamped with.
    pub fn usn(&self) -> (usn: Usn)
        ensures
            usn == self@.usn,
    {
        self.usn
    }

    /// Today's day number and the start of the next day.
    pub fn timing_today(&self) -> (timing: SchedTimingToday)
        ensures
            timing == self@.timing,
    {
        self.timing
    }

    /// The stored card with the id `id`.
    pub fn get_card(&self, id: CardId) -> (card: Option<Card>)
        ensures
            card == self@.get_card(id),
    {
        match card_position(&self.cards, id) {
            Some(at) => Some(self.cards[at]),
            None => None,
        }
    }

    /// The stored deck with the id `id`.
    pub fn get_deck(&self, id: DeckId) -> (deck: Option<Deck>)
        ensures
            deck == self@.get_deck(id),
    {
        let mut at: usize = 0;
        while at < self.decks.len()
            invariant
                at <= self.decks@.len(),
                forall|i: int| 0 <= i < at ==> deck_keys(self.decks@)[i] != id.0,
            decreases self.decks@.len() - at,
        {
            if self.decks[at].id.0 == id.0 {
                proof {
                    lemma_first_index_found(deck_keys(self.decks@), id.0, at as int);
                }
                return Some(self.decks[at]);
            }
            at = at + 1;
        }
        proof {
            lemma_first_index_absent(deck_keys(self.decks@), id.0);
        }
        None
    }

    /// The stored deck configuration with the id `id`.
    pub fn get_deck_config(&self, id: DeckConfigId) -> (config: Option<DeckConfig>)
        ensures
            config == self@.get_deck_config(id),
    {
        let mut at: usize = 0;
        while at < self.deck_configs.len()
            invariant
                at <= self.deck_configs@.len(),
                forall|i: int| 0 <= i < at ==> deck_config_keys(self.deck_configs@)[i] != id.0,
            decreases self.deck_configs@.len() - at,
        {
            if self.deck_configs[at].id.0 == id.0 {
                proof {
                    lemma_first_index_found(deck_config_keys(self.deck_configs@), id.0, at as int);
                }
                return Some(self.deck_configs[at]);
            }
            at = at + 1;
        }
        proof {
            lemma_first_index_absent(deck_config_keys(self.deck_configs@), id.0);
        }
        None
    }

    /// The stored cards whose id is among `cids`: each once, in the order
    /// in which they are stored.
    pub fn all_cards_for_ids(&self, cids: &[CardId]) -> (found: Vec<Card>)
        ensures
            found@ == self@.cards_for_ids(cids@),
    {
        let mut found: Vec<Card> = Vec::new();
        let mut at: usize = 0;
        while at < self.cards.len()
            invariant
                at <= self.cards@.len(),
                found@ == cards_with_ids(self.cards@.take(at as int), cids@),
            decreases self.cards@.len() - at,
        {
            assert(self.cards@.take(at + 1).drop_last() =~= self.cards@.take(at as int));
            if contains_id(cids, self.cards[at].id) {
                found.push(self.cards[at]);
            }
            at = at + 1;
        }
        assert(self.cards@.take(at as int) =~= self.cards@);
        found
    }

    /// The ids of the stored cards that belong to one of the notes `nids`,
    /// in the order in which the cards are stored.
    pub fn card_ids_of_notes(&self, nids: &[NoteId]) -> (found: Vec<CardId>)
        ensures
            found@ == card_ids_with_notes(self@.cards, nids@),
    {
        let mut found: Vec<CardId> = Vec::new();
        let mut at: usize = 0;
        while at < self.cards.len()
            invariant
                at <= self.cards@.len(),
                found@ == card_ids_with_notes(self.cards@.take(at as int), nids@),
            decreases self.cards@.len() - at,
        {
            assert(self.cards@.take(at + 1).drop_last() =~= self.cards@.take(at as int));
            if contains_note(nids, self.cards[at].note_id) {
                found.push(self.cards[at].id);
            }
            at = at + 1;
        }
        assert(self.cards@.take(at as int) =~= self.cards@);
        found
    }

    /// The value of a string setting.
    pub fn get_config_string(&self, key: StringKey) -> (value: Option<String>)
        ensures
            text_of(value) == self@.get_config_string(key),
    {
        self.config.get(key)
    }

    /// Whether an operation is running.
    pub fn in_operation(&self) -> (running: bool)
        ensures
            running == (self@.current_step is Some),
    {
        self.current_step.is_some()
    }

    /// The review log, oldest entry first.
    pub fn revlog(&self) -> (entries: &Vec<RevlogEntry>)
        ensures
            entries@ == self@.revlog,
    {
        &self.revlog
    }

    /// The finished operations, oldest first.
    pub fn undo_steps(&self) -> (steps: &Vec<UndoableOp>)
        ensures
            step_views(steps@) == self@.undo_steps,
    {
        &self.undo_steps
    }

    fn record(&mut self, change: UndoableChange)
        ensures
            final(self)@ == old(self)@.recorded(change@),
    {
        let mut current: Option<UndoableOp> = None;
        std::mem::swap(&mut self.current_step, &mut current);
        match current {
            Some(mut step) => {
                step.record(change);
                self.current_step = Some(step);
            },
            None => {},
        }
    }

    /// Overwrites the stored card that has `card`'s id, recording
    /// `original` as the card from before.
    pub fn update_card_undoable(&mut self, card: Card, original: Card)
        ensures
            final(self)@ == old(self)@.card_updated(card, original),
            old(self)@.wf() ==> final(self)@.wf(),
    {
        proof {
            lemma_card_updated_keeps_ids(self@, card, original);
        }
        self.record(UndoableChange::Card(original));
        match card_position(&self.cards, card.id) {
            Some(at) => {
                self.cards.set(at, card);
            },
            None => {},
        }
    }

    /// Stamps `card` with `usn` and stores it in place of `original`.
    pub fn update_card_inner(&mut self, card: &mut Card, original: Card, usn: Usn)
        ensures
            *final(card) == (Card { usn, ..*old(card) }),
            final(self)@ == old(self)@.card_updated(*final(card), original),
            old(self)@.wf() ==> final(self)@.wf(),
    {
        card.usn = usn;
        self.update_card_undoable(*card, original);
    }

    /// Adds an entry to the review log.
    pub fn add_revlog_entry_undoable(&mut self, entry: RevlogEntry)
        ensures
            final(self)@ == old(self)@.revlog_added(entry),
    {
        self.record(UndoableChange::Revlog(entry));
        self.revlog.push(entry);
    }

    /// Logs that `card` was rescheduled by hand from `original_interval`.
    pub fn log_manually_scheduled_review(&mut self, card: &Card, original_interval: u32, usn: Usn)
        ensures
            final(self)@ == old(self)@.revlog_added(
                RevlogEntry::manually_scheduled(*card, original_interval, usn),
            ),
    {
        self.add_revlog_entry_undoable(RevlogEntry::manually_scheduled(*card, original_interval, usn));
    }

    /// Stores `value` under `key`.
    pub fn set_config_string_inner(&mut self, key: StringKey, value: &str)
        ensures
            final(self)@ == old(self)@.config_string_set(key, value@),
    {
        let previous = self.config.set(key, value.to_owned());
        self.record(UndoableChange::Config(ConfigChange { key, previous }));
    }

    /// Begins an operation of kind `op`: what is needed to undo it is put
    /// aside in the savepoint that is handed back, and an empty step is
    /// opened to record into.
    pub fn begin_transaction(&mut self, op: Op) -> (saved: Savepoint)
        requires
            old(self)@.current_step is None,
        ensures
            saved@ == old(self)@,
            final(self)@ == old(self)@.begun(op),
    {
        let mut history: Vec<UndoableOp> = Vec::new();
        std::mem::swap(&mut self.undo_steps, &mut history);
        let saved = Savepoint {
            cards: self.cards.clone(),
            decks: self.decks.clone(),
            deck_configs: self.deck_configs.clone(),
            config: self.config.duplicate(),
            revlog: self.revlog.clone(),
            usn: self.usn,
            timing: self.timing,
            history,
        };
        self.current_step = Some(UndoableOp::new(op));
        assert(self@.undo_steps =~= Seq::<StepView>::empty());
        saved
    }

    /// Ends the operation of kind `op` that began at `saved`. If its body
    /// succeeded, its changes become one step of the undo history and the
    /// update sequence number moves on; if it failed, the collection is put
    /// back as it was at the savepoint.
    pub fn end_transaction<T>(&mut self, saved: Savepoint, op: Op, inner: Result<T, AnkiError>) -> (result:
        Result<OpOutput<T>, AnkiError>)
        requires
            saved@.current_step is None,
            saved@.usn.0 < i32::MAX,
        ensures
            transaction_ended(saved@, op, old(self)@, inner, final(self)@, result),
    {
        let mut history = saved.history;
        match inner {
            Ok(output) => {
                let mut current: Option<UndoableOp> = None;
                std::mem::swap(&mut self.current_step, &mut current);
                let step = match current {
                    Some(step) => step,
                    None => UndoableOp::new(op),
                };
                let changes = OpChanges { op: step.kind, changes: step.state_changes() };
                history.push(step);
                self.undo_steps = history;
                self.usn = Usn(saved.usn.0 + 1);
                assert(self@.undo_steps =~= saved@.undo_steps.push(old(self)@.finished_step(op)));
                Ok(OpOutput { output, changes })
            },
            Err(err) => {
                self.cards = saved.cards;
                self.decks = saved.decks;
                self.deck_configs = saved.deck_configs;
                self.config = saved.config;
                self.revlog = saved.revlog;
                self.usn = saved.usn;
                self.timing = saved.timing;
                self.undo_steps = history;
                self.current_step = None;
                Err(err)
            },
        }
    }

    /// Runs `func` as one operation of kind `op`. If it succeeds, its
    /// changes become one step of the undo history and the update sequence
    /// number moves on; if it fails, the collection is as it was before.
    pub fn transact<T, F>(&mut self, op: Op, func: F) -> (result: Result<OpOutput<T>, AnkiError>) where
        F: FnOnce(&mut Collection) -> Result<T, AnkiError>,

        requires
            old(self)@.current_step is None,
            old(self)@.usn.0 < i32::MAX,
            forall|col: &mut Collection|
                col@ == old(self)@.begun(op) ==> #[trigger] func.requires((col,)),
        ensures
            exists|col: &mut Collection, inner: Result<T, AnkiError>|
                {
                    &&& col@ == old(self)@.begun(op)
                    &&& #[trigger] func.ensures((col,), inner)
                    &&& transaction_ended(
                        old(self)@,
                        op,
                        final(col)@,
                        inner,
                        final(self)@,
                        result,
                    )
                },
    {
        let saved = self.begin_transaction(op);
        let inner = func(self);
        self.end_transaction(saved, op, inner)
    }
}

} // verus!
