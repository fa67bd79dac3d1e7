//! The selection state controller.
//!
//! The controller owns a fixed item count and two raw integer counters:
//! the highlight cursor and the committed selection. Arrow keys move the
//! raw cursor up or down without bounds checking; `Enter` copies the raw
//! (not the normalized) cursor into the selection, so the selection tracks
//! the same modular class as the highlight at the moment of commit. Both
//! counters are normalized into `[0, item_count]` only when read.

use vstd::prelude::*;

verus! {

use crate::keys::Key;
use crate::wrap::lemma_wrap_in_range;
use crate::wrap::wrap_index;
use crate::wrap::wrap_spec;
use vstd::arithmetic::div_mod::lemma_fundamental_div_mod;
use vstd::arithmetic::div_mod::lemma_mod_multiples_vanish;
use vstd::arithmetic::div_mod::lemma_small_mod;

/// The mathematical state of a controller: the item count and the two raw
/// counters, as unbounded integers.
pub ghost struct SelectionState {
    /// The list holds `item_count + 1` items, with indices `0..=item_count`.
    pub item_count: int,
    /// Raw highlight cursor; normalized only when read.
    pub highlighted: int,
    /// Raw committed selection; normalized only when read.
    pub selected: int,
}

/// The state transition a key event makes: arrow keys shift the raw
/// highlight cursor by one, `Enter` copies the raw cursor into the
/// selection, and any other key changes nothing.
pub open spec fn key_step(s: SelectionState, key: Key) -> SelectionState {
    match key {
        Key::ArrowDown => SelectionState {
            item_count: s.item_count,
            highlighted: s.highlighted + 1,
            selected: s.selected,
        },
        Key::ArrowUp => SelectionState {
            item_count: s.item_count,
            highlighted: s.highlighted - 1,
            selected: s.selected,
        },
        Key::Enter => SelectionState {
            item_count: s.item_count,
            highlighted: s.highlighted,
            selected: s.highlighted,
        },
        Key::Other => s,
    }
}

/// Selection state controller over a list of `item_count + 1` items.
pub struct SelectionController {
    item_count: u8,
    raw_highlighted: i32,
    raw_selected: i32,
}

impl View for SelectionController {
    type V = SelectionState;

    closed spec fn view(&self) -> SelectionState {
        SelectionState {
            item_count: self.item_count as int,
            highlighted: self.raw_highlighted as int,
            selected: self.raw_selected as int,
        }
    }
}

impl SelectionController {
    /// A fresh controller: both raw counters start at zero.
    pub fn new(item_count: u8) -> (c: Self)
        ensures
            c@ == (SelectionState { item_count: item_count as int, highlighted: 0, selected: 0 }),
    {
        SelectionController { item_count, raw_highlighted: 0, raw_selected: 0 }
    }

    /// The item count the controller was created with.
    pub fn item_count(&self) -> (n: u8)
        ensures
            n as int == self@.item_count,
    {
        self.item_count
    }

    /// The raw highlight cursor, unnormalized.
    pub fn raw_highlighted(&self) -> (r: i32)
        ensures
            r as int == self@.highlighted,
    {
        self.raw_highlighted
    }

    /// The raw committed selection, unnormalized.
    pub fn raw_selected(&self) -> (r: i32)
        ensures
            r as int == self@.selected,
    {
        self.raw_selected
    }

    /// Apply one key event. Arrow keys require headroom on the raw cursor,
    /// since it is a machine integer and is never silently wrapped.
    pub fn on_key(&mut self, key: Key)
        requires
            key == Key::ArrowDown ==> old(self)@.highlighted < i32::MAX as int,
            key == Key::ArrowUp ==> old(self)@.highlighted > i32::MIN as int,
        ensures
            final(self)@ == key_step(old(self)@, key),
    {
        match key {
            Key::ArrowDown => {
                self.raw_highlighted = self.raw_highlighted + 1;
            },
            Key::ArrowUp => {
                self.raw_highlighted = self.raw_highlighted - 1;
            },
            Key::Enter => {
                self.raw_selected = self.raw_highlighted;
            },
            Key::Other => {},
        }
    }

    /// The highlight cursor normalized into `[0, item_count]`.
    pub fn normalized_highlighted(&self) -> (r: u8)
        ensures
            r as int == wrap_spec(self@.highlighted, self@.item_count),
            0 <= r as int <= self@.item_count,
    {
        proof {
            lemma_wrap_in_range(self@.highlighted, self@.item_count);
        }
        wrap_index(self.raw_highlighted, self.item_count)
    }

    /// The committed selection normalized into `[0, item_count]`.
    pub fn normalized_selected(&self) -> (r: u8)
        ensures
            r as int == wrap_spec(self@.selected, self@.item_count),
            0 <= r as int <= self@.item_count,
    {
        proof {
            lemma_wrap_in_range(self@.selected, self@.item_count);
        }
        wrap_index(self.raw_selected, self.item_count)
    }

    /// Whether the entry with index `id` carries the highlight.
    pub fn is_highlighted(&self, id: u8) -> (r: bool)
        ensures
            r == (wrap_spec(self@.highlighted, self@.item_count) == id as int),
    {
        self.normalized_highlighted() == id
    }

    /// Whether the entry with index `id` carries the selection.
    pub fn is_selected(&self, id: u8) -> (r: bool)
        ensures
            r == (wrap_spec(self@.selected, self@.item_count) == id as int),
    {
        self.normalized_selected() == id
    }
}

/// The ids of the rendered list entries, in order: `0, 1, ..., item_count`.
pub fn item_ids(item_count: u8) -> (ids: Vec<u8>)
    ensures
        ids@.len() == item_count + 1,
        forall|i: int| 0 <= i < ids@.len() ==> ids@[i] == i,
{
    let n: usize = item_count as usize + 1;
    let mut ids: Vec<u8> = Vec::new();
    let mut i: usize = 0;
    while i < n
        invariant
            n == item_count + 1,
            i <= n,
            ids@.len() == i,
            forall|j: int| 0 <= j < i ==> ids@[j] == j,
        decreases n - i,
    {
        ids.push(i as u8);
        i += 1;
    }
    ids
}

/// Law: a key that is not `Enter` never moves the selection, raw or
/// normalized; highlight movement is invisible to `is_selected`.
pub proof fn lemma_selection_unmoved(s: SelectionState, key: Key)
    requires
        key != Key::Enter,
    ensures
        key_step(s, key).selected == s.selected,
{
}

/// Law: `Enter` never moves the highlight cursor; committing a selection is
/// invisible to `is_highlighted`.
pub proof fn lemma_enter_preserves_highlight(s: SelectionState)
    ensures
        key_step(s, Key::Enter).highlighted == s.highlighted,
{
}

/// Law: after `Enter`, the normalized selection equals the normalized
/// highlight at the moment of the press.
pub proof fn lemma_enter_commits(s: SelectionState)
    ensures
        wrap_spec(key_step(s, Key::Enter).selected, s.item_count) == wrap_spec(
            s.highlighted,
            s.item_count,
        ),
{
}

/// Law: highlight and selection may rest on the same entry at once; a state
/// whose raw counters both equal a valid index `id` shows `id` as both the
/// normalized highlight and the normalized selection.
pub proof fn lemma_both_predicates_may_hold(id: int, count: int)
    requires
        0 <= id <= count,
    ensures
        ({
            let s = SelectionState { item_count: count, highlighted: id, selected: id };
            wrap_spec(s.highlighted, s.item_count) == id && wrap_spec(s.selected, s.item_count)
                == id
        }),
{
    lemma_small_mod(id as nat, (count + 1) as nat);
}

/// Law: pressing `ArrowUp` while the normalized highlight is `0` wraps the
/// highlight around to the last index, `item_count`.
pub proof fn lemma_up_from_zero_wraps(s: SelectionState)
    requires
        s.item_count >= 0,
        wrap_spec(s.highlighted, s.item_count) == 0,
    ensures
        wrap_spec(key_step(s, Key::ArrowUp).highlighted, s.item_count) == s.item_count,
{
    let d = s.item_count + 1;
    let h = s.highlighted;
    let q = h / d;
    lemma_fundamental_div_mod(h, d);
    assert(d * (q - 1) == d * q - d) by (nonlinear_arith);
    lemma_mod_multiples_vanish(q - 1, d - 1, d);
    lemma_small_mod((d - 1) as nat, d as nat);
    assert(h - 1 == d * (q - 1) + (d - 1));
}

} // verus!
