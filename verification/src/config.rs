//! Named string settings kept with the collection.

use vstd::prelude::*;

use crate::text::text_of;

verus! {

/// The settings that hold a string.
#[derive(Clone, Copy, Debug, PartialEq, Eq, Structural)]
pub enum StringKey {
    SetDueBrowser,
    SetDueReviewer,
    DefaultSearchText,
    CardStateCustomizer,
}

/// One optional string per key.
#[derive(Debug, PartialEq, Eq)]
pub struct StringConfig {
    set_due_browser: Option<String>,
    set_due_reviewer: Option<String>,
    default_search_text: Option<String>,
    card_state_customizer: Option<String>,
}

fn copy_of(value: &Option<String>) -> (copy: Option<String>)
    ensures
        copy == *value,
{
    match value {
        Some(text) => Some(text.clone()),
        None => None,
    }
}

impl StringConfig {
    pub closed spec fn slot(&self, key: StringKey) -> Option<String> {
        match key {
            StringKey::SetDueBrowser => self.set_due_browser,
            StringKey::SetDueReviewer => self.set_due_reviewer,
            StringKey::DefaultSearchText => self.default_search_text,
            StringKey::CardStateCustomizer => self.card_state_customizer,
        }
    }

    /// No setting has a value.
    pub fn new() -> (config: StringConfig)
        ensures
            config@ == Map::<StringKey, Seq<char>>::empty(),
    {
        let config = StringConfig {
            set_due_browser: None,
            set_due_reviewer: None,
            default_search_text: None,
            card_state_customizer: None,
        };
        assert(config@ =~= Map::<StringKey, Seq<char>>::empty());
        config
    }

    /// The value stored under `key`, if any.
    pub fn get(&self, key: StringKey) -> (value: Option<String>)
        ensures
            text_of(value) == if self@.contains_key(key) {
                Some(self@[key])
            } else {
                None
            },
    {
        match key {
            StringKey::SetDueBrowser => copy_of(&self.set_due_browser),
            StringKey::SetDueReviewer => copy_of(&self.set_due_reviewer),
            StringKey::DefaultSearchText => copy_of(&self.default_search_text),
            StringKey::CardStateCustomizer => copy_of(&self.card_state_customizer),
        }
    }

    /// Stores `value` under `key` and hands back what was there before.
    pub fn set(&mut self, key: StringKey, value: String) -> (previous: Option<String>)
        ensures
            final(self)@ == old(self)@.insert(key, value@),
            text_of(previous) == if old(self)@.contains_key(key) {
                Some(old(self)@[key])
            } else {
                None
            },
    {
        let mut slot = Some(value);
        match key {
            StringKey::SetDueBrowser => std::mem::swap(&mut self.set_due_browser, &mut slot),
            StringKey::SetDueReviewer => std::mem::swap(&mut self.set_due_reviewer, &mut slot),
            StringKey::DefaultSearchText => std::mem::swap(
                &mut self.default_search_text,
                &mut slot,
            ),
            StringKey::CardStateCustomizer => std::mem::swap(
                &mut self.card_state_customizer,
                &mut slot,
            ),
        }
        assert(self@ =~= old(self)@.insert(key, value@));
        slot
    }

    /// An independent copy.
    pub fn duplicate(&self) -> (copy: StringConfig)
        ensures
            copy@ == self@,
    {
        let copy = StringConfig {
            set_due_browser: copy_of(&self.set_due_browser),
            set_due_reviewer: copy_of(&self.set_due_reviewer),
            default_search_text: copy_of(&self.default_search_text),
            card_state_customizer: copy_of(&self.card_state_customizer),
        };
        assert(copy@ =~= self@);
        copy
    }
}

impl View for StringConfig {
    type V = Map<StringKey, Seq<char>>;

    closed spec fn view(&self) -> Map<StringKey, Seq<char>> {
        Map::new(|key: StringKey| self.slot(key) is Some, |key: StringKey| self.slot(key)->0@)
    }
}

} // verus!
