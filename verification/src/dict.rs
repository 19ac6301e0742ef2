//! The word dictionary: an append-only ordered table of named entries.
//!
//! An entry maps a short name to either a builtin operation id or a span
//! into the user-word body arena.  Entries are appended and never removed;
//! lookup scans from the newest entry to the oldest, so a later entry with
//! the same name shadows an earlier one without deleting it.

use vstd::prelude::*;

verus! {

/// Capacity of the dictionary.
pub const DICTIONARY_SIZE: usize = 32;

/// The longest name an entry stores; a longer name is truncated.
pub const MAX_WORD_NAME_LEN: usize = 16;

/// One dictionary entry: a length-tagged name and either a builtin
/// operation id (`is_builtin`) or a `(start, length)` span into the
/// user-word body arena.
pub struct DictionaryEntry {
    pub name: Vec<u8>,
    pub is_builtin: bool,
    pub builtin_id: u8,
    pub user_word_start: usize,
    pub user_word_len: usize,
}

/// The mathematical content of a dictionary entry.
#[verifier::ext_equal]
pub struct EntryModel {
    pub name: Seq<u8>,
    pub is_builtin: bool,
    pub builtin_id: u8,
    pub body_start: nat,
    pub body_len: nat,
}

impl View for DictionaryEntry {
    type V = EntryModel;

    open spec fn view(&self) -> EntryModel {
        EntryModel {
            name: self.name@,
            is_builtin: self.is_builtin,
            builtin_id: self.builtin_id,
            body_start: self.user_word_start as nat,
            body_len: self.user_word_len as nat,
        }
    }
}

impl DictionaryEntry {
    /// The name fits the fixed name storage.
    pub open spec fn wf(&self) -> bool {
        self.name@.len() <= MAX_WORD_NAME_LEN
    }

    /// Creates a blank entry: an empty name tagged as builtin zero.
    pub fn new() -> (e: Self)
        ensures
            e@.name == Seq::<u8>::empty(),
            e@.is_builtin,
            e@.builtin_id == 0,
            e@.body_start == 0,
            e@.body_len == 0,
            e.wf(),
    {
        Self {
            name: Vec::new(),
            is_builtin: true,
            builtin_id: 0,
            user_word_start: 0,
            user_word_len: 0,
        }
    }
}

/// A builtin entry as registration creates it: the name, the operation id,
/// and no body span.
pub open spec fn builtin_entry(name: Seq<u8>, id: u8) -> EntryModel {
    EntryModel { name: name, is_builtin: true, builtin_id: id, body_start: 0, body_len: 0 }
}

/// A user entry as a definition creates it: the name and the span of the
/// body arena collected for it; the operation id stays blank.
pub open spec fn user_entry(name: Seq<u8>, body_start: nat, body_len: nat) -> EntryModel {
    EntryModel {
        name: name,
        is_builtin: false,
        builtin_id: 0,
        body_start: body_start,
        body_len: body_len,
    }
}

/// The model of a whole dictionary: its entries, oldest first.
pub open spec fn dict_model(entries: Seq<DictionaryEntry>) -> Seq<EntryModel> {
    entries.map_values(|e: DictionaryEntry| e@)
}

/// Lookup scans from the newest entry to the oldest and returns the index
/// of the first entry whose name matches exactly; so of several entries
/// with one name, the most recently defined wins.
pub open spec fn lookup_spec(dict: Seq<EntryModel>, name: Seq<u8>) -> Option<int>
    decreases dict.len(),
{
    if dict.len() == 0 {
        None
    } else if dict.last().name == name {
        Some(dict.len() - 1)
    } else {
        lookup_spec(dict.drop_last(), name)
    }
}

/// What a successful lookup means: the returned index holds the name, and
/// no newer entry does; a failed lookup means no entry holds the name.
pub proof fn lemma_lookup_spec_props(dict: Seq<EntryModel>, name: Seq<u8>)
    ensures
        match lookup_spec(dict, name) {
            Some(i) => 0 <= i < dict.len() && dict[i].name == name && (forall|j: int|
                i < j < dict.len() ==> dict[j].name != name),
            None => forall|j: int| 0 <= j < dict.len() ==> dict[j].name != name,
        },
    decreases dict.len(),
{
    if dict.len() > 0 && dict.last().name != name {
        lemma_lookup_spec_props(dict.drop_last(), name);
        assert forall|j: int| 0 <= j < dict.len() - 1 implies dict.drop_last()[j] == dict[j] by {}
    }
}

/// The shadowing law: appending an entry makes its name resolve to it,
/// whatever older entries carry the same name.
pub proof fn lemma_define_shadows(dict: Seq<EntryModel>, entry: EntryModel)
    requires
        entry.name.len() > 0,
    ensures
        lookup_spec(dict.push(entry), entry.name) == Some(dict.len() as int),
{
    assert(dict.push(entry).last() == entry);
}

/// Shadowing for two same-named definitions in a row: lookup returns the
/// second, newer one.
pub proof fn lemma_second_definition_wins(
    dict: Seq<EntryModel>,
    first: EntryModel,
    second: EntryModel,
)
    requires
        first.name == second.name,
        second.name.len() > 0,
    ensures
        lookup_spec(dict.push(first).push(second), second.name) == Some(dict.len() + 1int),
{
    lemma_define_shadows(dict.push(first), second);
}

} // verus!
