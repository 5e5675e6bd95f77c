//! Picking tracks in order: the state of a picker, how each key changes
//! it, and the text that shows it.

use vstd::prelude::*;

use crate::chars::{append, decimal, from_chars, push_decimal, push_str, to_chars};
use crate::lines::joined;
use crate::net::string_views;
use crate::scan::{first_where, lemma_first_where, lemma_first_where_is};

verus! {

/// The property of being the index `idx`.
pub open spec fn is_index(idx: usize) -> spec_fn(usize) -> bool {
    |x: usize| x == idx
}

/// The place of `idx` in the order of picks, or `selected.len()` where it
/// is not picked.
pub open spec fn place_of(selected: Seq<usize>, idx: usize) -> int {
    first_where(selected, is_index(idx))
}

/// The picks after `idx` is toggled: without it where it was picked, with
/// it at the end where it was not.
pub open spec fn toggled(selected: Seq<usize>, idx: usize) -> Seq<usize> {
    let p = place_of(selected, idx);
    if p < selected.len() {
        selected.remove(p)
    } else {
        selected.push(idx)
    }
}

/// A key that the picker reacts to.
#[derive(Debug, Clone, Copy, PartialEq, Eq, Structural)]
pub enum Key {
    Up,
    Down,
    Toggle,
    Enter,
}

/// What a picker holds: the number of items, the picked indices in the
/// order in which they were picked, and the index under the cursor.
pub struct PickerView {
    pub count: nat,
    pub selected: Seq<usize>,
    pub cursor: nat,
}

/// What holds of every picker: there is an item under the cursor, each
/// pick is the index of an item, and no index is picked twice.
pub open spec fn well_formed(v: PickerView) -> bool {
    &&& v.cursor < v.count
    &&& forall|i: int| 0 <= i < v.selected.len() ==> (#[trigger] v.selected[i]) < v.count
    &&& v.selected.no_duplicates()
}

/// The picker after a key that moves the cursor or toggles the item under
/// it. `Enter` changes nothing.
pub open spec fn after_key(v: PickerView, key: Key) -> PickerView {
    match key {
        Key::Up => PickerView {
            cursor: if v.cursor > 0 {
                (v.cursor - 1) as nat
            } else {
                v.cursor
            },
            ..v
        },
        Key::Down => PickerView {
            cursor: if v.cursor + 1 < v.count {
                v.cursor + 1
            } else {
                v.cursor
            },
            ..v
        },
        Key::Toggle => PickerView { selected: toggled(v.selected, v.cursor as usize), ..v },
        Key::Enter => v,
    }
}

/// The state of a picker.
pub struct Picker {
    count: usize,
    selected: Vec<usize>,
    cursor: usize,
}

impl View for Picker {
    type V = PickerView;

    closed spec fn view(&self) -> PickerView {
        PickerView {
            count: self.count as nat,
            selected: self.selected@,
            cursor: self.cursor as nat,
        }
    }
}

/// What follows a key.
pub enum Pressed {
    /// Show the picker again.
    Redraw(Picker),
    /// Nothing is to be done.
    Ignored(Picker),
    /// The picks are confirmed.
    Confirmed(Vec<usize>),
}

/// Removing an element keeps the others apart and in range.
proof fn lemma_remove_keeps(s: Seq<usize>, p: int, count: nat)
    requires
        0 <= p < s.len(),
        s.no_duplicates(),
        forall|i: int| 0 <= i < s.len() ==> (#[trigger] s[i]) < count,
    ensures
        s.remove(p).no_duplicates(),
        forall|i: int| 0 <= i < s.remove(p).len() ==> (#[trigger] s.remove(p)[i]) < count,
{
    let r = s.remove(p);
    assert forall|i: int| 0 <= i < r.len() implies (#[trigger] r[i]) < count && r[i] == s[if i
        < p {
        i
    } else {
        i + 1
    }] by {}
    assert forall|i: int, j: int| 0 <= i < r.len() && 0 <= j < r.len() && i != j implies r[i]
        != r[j] by {
        let a = if i < p {
            i
        } else {
            i + 1
        };
        let b = if j < p {
            j
        } else {
            j + 1
        };
        assert(r[i] == s[a] && r[j] == s[b]);
    }
}

impl Picker {
    #[verifier::type_invariant]
    closed spec fn valid(&self) -> bool {
        well_formed(self@)
    }

    /// A picker over `count` items, with nothing picked and the cursor on
    /// the first item. There is none over no items.
    pub fn new(count: usize) -> (r: Option<Picker>)
        ensures
            count == 0 <==> r is None,
            r matches Some(p) ==> p@ == (PickerView {
                count: count as nat,
                selected: Seq::empty(),
                cursor: 0,
            }) && well_formed(p@),
    {
        if count == 0 {
            None
        } else {
            Some(Picker { count, selected: Vec::new(), cursor: 0 })
        }
    }

    /// The number of items.
    pub fn count(&self) -> (n: usize)
        ensures
            n == self@.count,
            well_formed(self@),
    {
        proof {
            use_type_invariant(self);
        }
        self.count
    }

    /// The index under the cursor.
    pub fn cursor(&self) -> (i: usize)
        ensures
            i == self@.cursor,
            well_formed(self@),
    {
        proof {
            use_type_invariant(self);
        }
        self.cursor
    }

    /// The picked indices, in the order in which they were picked.
    pub fn selected(&self) -> (s: &Vec<usize>)
        ensures
            s@ == self@.selected,
            well_formed(self@),
    {
        proof {
            use_type_invariant(self);
        }
        &self.selected
    }

    /// Reacts to a key.
    ///
    /// `Up` and `Down` move the cursor unless it is at an end; `Toggle`
    /// picks the item under the cursor or drops it from the picks; after
    /// each the picker is shown again. `Enter` confirms the picks, unless
    /// there are none: then it is ignored.
    pub fn press(self, key: Key) -> (r: Pressed)
        ensures
            well_formed(self@),
            match r {
                Pressed::Redraw(p) => key != Key::Enter && p@ == after_key(self@, key)
                    && well_formed(p@),
                Pressed::Ignored(p) => key == Key::Enter && self@.selected.len() == 0 && p@
                    == self@,
                Pressed::Confirmed(picks) => key == Key::Enter && picks@.len() > 0 && picks@
                    == self@.selected,
            },
    {
        proof {
            use_type_invariant(&self);
        }
        match key {
            Key::Up => {
                let cursor = if self.cursor > 0 {
                    self.cursor - 1
                } else {
                    self.cursor
                };
                Pressed::Redraw(Picker { count: self.count, selected: self.selected, cursor })
            },
            Key::Down => {
                let cursor = if self.cursor < self.count - 1 {
                    self.cursor + 1
                } else {
                    self.cursor
                };
                Pressed::Redraw(Picker { count: self.count, selected: self.selected, cursor })
            },
            Key::Toggle => {
                let idx = self.cursor;
                let mut selected = self.selected;
                let ghost before = selected@;
                let p = place(&selected, idx);
                if p < selected.len() {
                    selected.remove(p);
                    proof {
                        lemma_remove_keeps(before, p as int, self.count as nat);
                    }
                } else {
                    selected.push(idx);
                    proof {
                        lemma_first_where(before, is_index(idx));
                        assert forall|i: int, j: int|
                            0 <= i < selected@.len() && 0 <= j < selected@.len() && i
                                != j implies selected@[i] != selected@[j] by {
                            if i < before.len() {
                                assert(!is_index(idx)(before[i]));
                            }
                            if j < before.len() {
                                assert(!is_index(idx)(before[j]));
                            }
                        }
                    }
                }
                Pressed::Redraw(Picker { count: self.count, selected, cursor: self.cursor })
            },
            Key::Enter => {
                if self.selected.len() == 0 {
                    Pressed::Ignored(self)
                } else {
                    Pressed::Confirmed(self.selected)
                }
            },
        }
    }
}

/// The place of `idx` in `selected`.
fn place(selected: &Vec<usize>, idx: usize) -> (p: usize)
    ensures
        p == place_of(selected@, idx),
        p <= selected@.len(),
{
    let mut p: usize = 0;
    while p < selected.len() && selected[p] != idx
        invariant
            p <= selected@.len(),
            forall|j: int| 0 <= j < p ==> #[trigger] selected@[j] != idx,
        decreases selected@.len() - p,
    {
        p += 1;
    }
    proof {
        lemma_first_where_is(selected@, is_index(idx), p as int);
    }
    p
}

/// The words above the list.
pub const PICKER_HELP: &'static str =
    "Use Up/Down to move; Space to toggle (adds/removes order); Enter to confirm.\n\n";

/// The mark of the item `i`: its place among the picks, counted from 1 and
/// filled up to two characters, in square brackets; two spaces in
/// brackets where it is not picked.
pub open spec fn marker(selected: Seq<usize>, i: usize) -> Seq<char> {
    let p = place_of(selected, i);
    if p < selected.len() {
        let number = decimal((p + 1) as nat);
        "["@ + number + (if number.len() < 2 {
            " "@
        } else {
            ""@
        }) + "]"@
    } else {
        "[  ]"@
    }
}

/// The row of the item `i`: `>` under the cursor, its mark, its text.
pub open spec fn row(items: Seq<Seq<char>>, selected: Seq<usize>, cursor: usize, i: int) -> Seq<
    char,
> {
    (if i == cursor {
        ">"@
    } else {
        " "@
    }) + " "@ + marker(selected, i as usize) + " "@ + items[i] + "\n"@
}

/// The rows of the first `n` items.
pub open spec fn rows(items: Seq<Seq<char>>, selected: Seq<usize>, cursor: usize, n: nat) -> Seq<
    char,
>
    decreases n,
{
    if n == 0 {
        Seq::empty()
    } else {
        rows(items, selected, cursor, (n - 1) as nat) + row(items, selected, cursor, n - 1)
    }
}

/// The text that shows a list of items with the picks and the cursor.
pub open spec fn list_text(items: Seq<Seq<char>>, selected: Seq<usize>, cursor: usize) -> Seq<
    char,
> {
    PICKER_HELP@ + rows(items, selected, cursor, items.len())
}

/// Appends the mark of the item `i`.
fn push_marker(out: &mut Vec<char>, selected: &[usize], i: usize)
    ensures
        final(out)@ == old(out)@ + marker(selected@, i),
{
    let mut p: usize = 0;
    while p < selected.len() && selected[p] != i
        invariant
            p <= selected@.len(),
            forall|j: int| 0 <= j < p ==> #[trigger] selected@[j] != i,
        decreases selected@.len() - p,
    {
        p += 1;
    }
    proof {
        lemma_first_where_is(selected@, is_index(i), p as int);
    }
    let mut mark: Vec<char> = Vec::new();
    if p < selected.len() {
        push_str(&mut mark, "[");
        let mut number: Vec<char> = Vec::new();
        push_decimal(&mut number, (p + 1) as u64);
        append(&mut mark, number.as_slice());
        if number.len() < 2 {
            push_str(&mut mark, " ");
        } else {
            push_str(&mut mark, "");
        }
        push_str(&mut mark, "]");
    } else {
        push_str(&mut mark, "[  ]");
    }
    assert(mark@ == marker(selected@, i));
    append(out, mark.as_slice());
}

/// Appends the row of the item `i`.
fn push_row(out: &mut Vec<char>, items: &[String], selected: &[usize], cursor: usize, i: usize)
    requires
        i < items@.len(),
    ensures
        final(out)@ == old(out)@ + row(string_views(items@), selected@, cursor, i as int),
{
    let mut line: Vec<char> = Vec::new();
    if i == cursor {
        push_str(&mut line, ">");
    } else {
        push_str(&mut line, " ");
    }
    push_str(&mut line, " ");
    push_marker(&mut line, selected, i);
    push_str(&mut line, " ");
    push_str(&mut line, items[i].as_str());
    push_str(&mut line, "\n");
    assert(line@ == row(string_views(items@), selected@, cursor, i as int));
    append(out, line.as_slice());
}

/// Writes the list of items with the picks and the cursor.
pub fn render_list(items: &[String], selected: &[usize], cursor: usize) -> (out: String)
    ensures
        out@ == list_text(string_views(items@), selected@, cursor),
{
    let mut out: Vec<char> = Vec::new();
    push_str(&mut out, PICKER_HELP);
    let ghost texts = string_views(items@);
    let mut i: usize = 0;
    while i < items.len()
        invariant
            i <= items.len(),
            texts == string_views(items@),
            out@ == PICKER_HELP@ + rows(texts, selected@, cursor, i as nat),
        decreases items.len() - i,
    {
        push_row(&mut out, items, selected, cursor, i);
        i += 1;
    }
    from_chars(out.as_slice())
}

/// What a picker that asks for one item at a time holds: the items still
/// on offer and the items picked, each with the index it had at first, in
/// the order of picking.
pub struct InlineView {
    pub remaining: Seq<(usize, Seq<char>)>,
    pub chosen: Seq<(usize, Seq<char>)>,
}

/// The indices of items.
pub open spec fn indices_of(items: Seq<(usize, Seq<char>)>) -> Seq<usize> {
    Seq::new(items.len(), |i: int| items[i].0)
}

/// The texts of items.
pub open spec fn labels_of(items: Seq<(usize, Seq<char>)>) -> Seq<Seq<char>> {
    Seq::new(items.len(), |i: int| items[i].1)
}

/// The indices that a picker holds: those on offer, then those picked.
pub open spec fn held(v: InlineView) -> Seq<usize> {
    indices_of(v.remaining) + indices_of(v.chosen)
}

/// What holds of every such picker: no index is held twice, on offer or
/// picked, and every index is below the number of items. So the indices
/// held are just the indices of the items.
pub open spec fn each_held_once(v: InlineView) -> bool {
    &&& held(v).no_duplicates()
    &&& forall|i: int| 0 <= i < held(v).len() ==> (#[trigger] held(v)[i]) < held(v).len()
}

/// The picks of a picker are indices of its items, each picked once.
pub proof fn lemma_picks_are_indices(v: InlineView)
    requires
        each_held_once(v),
    ensures
        indices_of(v.chosen).no_duplicates(),
        forall|i: int|
            0 <= i < v.chosen.len() ==> (#[trigger] indices_of(v.chosen)[i]) < v.remaining.len()
                + v.chosen.len(),
{
    let n = v.remaining.len() as int;
    assert forall|i: int| 0 <= i < v.chosen.len() implies (#[trigger] indices_of(v.chosen)[i])
        < v.remaining.len() + v.chosen.len() by {
        assert(held(v)[n + i] == indices_of(v.chosen)[i]);
    }
    assert forall|i: int, j: int|
        0 <= i < v.chosen.len() && 0 <= j < v.chosen.len() && i != j implies indices_of(
        v.chosen,
    )[i] != indices_of(v.chosen)[j] by {
        assert(held(v)[n + i] == indices_of(v.chosen)[i]);
        assert(held(v)[n + j] == indices_of(v.chosen)[j]);
    }
}

/// The items with their indices, as character sequences.
pub open spec fn item_views(items: Seq<(usize, String)>) -> Seq<(usize, Seq<char>)> {
    Seq::new(items.len(), |i: int| (items[i].0, items[i].1@))
}

/// The first line of the menu.
pub const MENU_DONE: &'static str = "[Done] Finish selection";

/// The words before the last pick in the menu's second line.
pub const MENU_UNDO: &'static str = "[Undo] Remove last pick: ";

/// The words of the prompt before the picks.
pub const PROMPT_HEAD: &'static str =
    "Pick next track (Enter). Use [Done] to finish, [Undo] to go back. Esc also finishes.\nCurrent picks: ";

/// The menu: a line to finish, a line to undo the last pick where there is
/// one, and the items on offer.
pub open spec fn menu_of(v: InlineView) -> Seq<Seq<char>> {
    seq![MENU_DONE@] + (if v.chosen.len() > 0 {
        seq![MENU_UNDO@ + v.chosen.last().1]
    } else {
        Seq::empty()
    }) + labels_of(v.remaining)
}

/// The prompt: the picks so far, joined by ` | `, or `none`.
pub open spec fn prompt_of(v: InlineView) -> Seq<char> {
    PROMPT_HEAD@ + (if v.chosen.len() == 0 {
        "none"@
    } else {
        joined(labels_of(v.chosen), " | "@)
    })
}

/// The picker after the last pick is undone: it is on offer again, after
/// the others.
pub open spec fn undone(v: InlineView) -> InlineView {
    InlineView { remaining: v.remaining.push(v.chosen.last()), chosen: v.chosen.drop_last() }
}

/// The picker after the item at place `r` of those on offer is picked.
pub open spec fn picked(v: InlineView, r: int) -> InlineView {
    InlineView { remaining: v.remaining.remove(r), chosen: v.chosen.push(v.remaining[r]) }
}

/// The picker after line `m` of the menu is taken, for a line after the
/// first.
pub open spec fn after_line(v: InlineView, m: usize) -> InlineView {
    let base: int = if v.chosen.len() == 0 {
        1
    } else {
        2
    };
    if m == 1 && v.chosen.len() > 0 {
        undone(v)
    } else if base <= m && m - base < v.remaining.len() {
        picked(v, m - base)
    } else {
        v
    }
}

/// The state of a picker that asks for one item at a time.
pub struct InlinePicker {
    remaining: Vec<(usize, String)>,
    chosen: Vec<(usize, String)>,
}

impl View for InlinePicker {
    type V = InlineView;

    closed spec fn view(&self) -> InlineView {
        InlineView { remaining: item_views(self.remaining@), chosen: item_views(self.chosen@) }
    }
}

/// What follows an answer to the menu.
pub enum Chosen {
    /// Ask again.
    Continue(InlinePicker),
    /// The picking is over; the indices picked, in order.
    Finished(Vec<usize>),
}

proof fn lemma_picked_held_once(v: InlineView, r: int)
    requires
        each_held_once(v),
        0 <= r < v.remaining.len(),
    ensures
        each_held_once(picked(v, r)),
{
    let all = held(v);
    let w = picked(v, r);
    let new = held(w);
    let n = v.remaining.len() as int;
    let from = |i: int|
        if i < r {
            i
        } else if i < n - 1 {
            i + 1
        } else if i < new.len() - 1 {
            i + 1
        } else {
            r
        };
    assert forall|i: int| 0 <= i < new.len() implies 0 <= from(i) < all.len() && #[trigger] new[i]
        == all[from(i)] by {}
    assert forall|i: int, j: int| 0 <= i < new.len() && 0 <= j < new.len() && i != j implies new[i]
        != new[j] by {
        assert(new[i] == all[from(i)]);
        assert(new[j] == all[from(j)]);
        assert(from(i) != from(j));
    }
    assert forall|i: int| 0 <= i < new.len() implies (#[trigger] new[i]) < new.len() by {
        assert(new[i] == all[from(i)]);
    }
}

proof fn lemma_undone_held_once(v: InlineView)
    requires
        each_held_once(v),
        v.chosen.len() > 0,
    ensures
        each_held_once(undone(v)),
{
    let all = held(v);
    let w = undone(v);
    let new = held(w);
    let n = v.remaining.len() as int;
    let from = |i: int|
        if i < n {
            i
        } else if i == n {
            all.len() - 1
        } else {
            i - 1
        };
    assert forall|i: int| 0 <= i < new.len() implies 0 <= from(i) < all.len() && #[trigger] new[i]
        == all[from(i)] by {}
    assert forall|i: int, j: int| 0 <= i < new.len() && 0 <= j < new.len() && i != j implies new[i]
        != new[j] by {
        assert(new[i] == all[from(i)]);
        assert(new[j] == all[from(j)]);
        assert(from(i) != from(j));
    }
    assert forall|i: int| 0 <= i < new.len() implies (#[trigger] new[i]) < new.len() by {
        assert(new[i] == all[from(i)]);
    }
}

impl InlinePicker {
    #[verifier::type_invariant]
    closed spec fn valid(&self) -> bool {
        each_held_once(self@)
    }

    /// A picker that offers `items`, each with its index, and has nothing
    /// picked. There is none over no items.
    pub fn new(items: Vec<String>) -> (r: Option<InlinePicker>)
        ensures
            items@.len() == 0 <==> r is None,
            r matches Some(p) ==> p@.chosen.len() == 0 && p@.remaining == Seq::new(
                items@.len(),
                |i: int| (i as usize, items@[i]@),
            ) && each_held_once(p@),
    {
        if items.len() == 0 {
            return None;
        }
        let mut remaining: Vec<(usize, String)> = Vec::new();
        let mut i: usize = 0;
        while i < items.len()
            invariant
                i <= items@.len(),
                item_views(remaining@) == Seq::new(i as nat, |k: int| (k as usize, items@[k]@)),
            decreases items@.len() - i,
        {
            let ghost before = item_views(remaining@);
            remaining.push((i, items[i].clone()));
            assert(item_views(remaining@) == before.push((i, items@[i as int]@)));
            i += 1;
        }
        let chosen: Vec<(usize, String)> = Vec::new();
        proof {
            let all = indices_of(item_views(remaining@)) + indices_of(item_views(chosen@));
            assert forall|a: int, b: int|
                0 <= a < all.len() && 0 <= b < all.len() && a != b implies all[a] != all[b] by {
                assert(all[a] == a as usize);
                assert(all[b] == b as usize);
            }
            assert forall|a: int| 0 <= a < all.len() implies (#[trigger] all[a]) < all.len() by {
                assert(all[a] == a as usize);
            }
        }
        Some(InlinePicker { remaining, chosen })
    }

    /// Whether nothing is left on offer.
    pub fn finished(&self) -> (b: bool)
        ensures
            b == (self@.remaining.len() == 0),
            each_held_once(self@),
    {
        proof {
            use_type_invariant(self);
        }
        self.remaining.len() == 0
    }

    /// The indices picked so far, in order: each the index of an item, and
    /// none twice.
    pub fn picks(&self) -> (out: Vec<usize>)
        ensures
            out@ == indices_of(self@.chosen),
            out@.no_duplicates(),
            forall|i: int|
                0 <= i < out@.len() ==> (#[trigger] out@[i]) < self@.remaining.len()
                    + self@.chosen.len(),
            each_held_once(self@),
    {
        proof {
            use_type_invariant(self);
            lemma_picks_are_indices(self@);
        }
        let mut out: Vec<usize> = Vec::new();
        let mut i: usize = 0;
        while i < self.chosen.len()
            invariant
                i <= self.chosen@.len(),
                out@ == indices_of(item_views(self.chosen@)).take(i as int),
            decreases self.chosen@.len() - i,
        {
            out.push(self.chosen[i].0);
            assert(indices_of(item_views(self.chosen@)).take(i + 1) == indices_of(
                item_views(self.chosen@),
            ).take(i as int).push(self.chosen@[i as int].0));
            i += 1;
        }
        assert(indices_of(item_views(self.chosen@)).take(self.chosen@.len() as int)
            == indices_of(item_views(self.chosen@)));
        out
    }

    /// The lines of the menu.
    pub fn menu(&self) -> (out: Vec<String>)
        ensures
            string_views(out@) == menu_of(self@),
    {
        let mut out: Vec<String> = Vec::new();
        out.push(from_chars(to_chars(MENU_DONE).as_slice()));
        if self.chosen.len() > 0 {
            let mut line: Vec<char> = Vec::new();
            push_str(&mut line, MENU_UNDO);
            push_str(&mut line, self.chosen[self.chosen.len() - 1].1.as_str());
            out.push(from_chars(line.as_slice()));
        }
        let ghost head = string_views(out@);
        assert(head == seq![MENU_DONE@] + (if self@.chosen.len() > 0 {
            seq![MENU_UNDO@ + self@.chosen.last().1]
        } else {
            Seq::empty()
        }));
        let mut i: usize = 0;
        while i < self.remaining.len()
            invariant
                i <= self.remaining@.len(),
                string_views(out@) == head + labels_of(self@.remaining).take(i as int),
            decreases self.remaining@.len() - i,
        {
            let ghost before = string_views(out@);
            out.push(self.remaining[i].1.clone());
            assert(string_views(out@) == before.push(self.remaining@[i as int].1@));
            assert(labels_of(self@.remaining).take(i + 1) == labels_of(self@.remaining).take(
                i as int,
            ).push(self.remaining@[i as int].1@));
            i += 1;
        }
        assert(labels_of(self@.remaining).take(self.remaining@.len() as int) == labels_of(
            self@.remaining,
        ));
        out
    }

    /// The prompt above the menu.
    pub fn prompt(&self) -> (out: String)
        ensures
            out@ == prompt_of(self@),
    {
        let mut out: Vec<char> = Vec::new();
        push_str(&mut out, PROMPT_HEAD);
        if self.chosen.len() == 0 {
            push_str(&mut out, "none");
        } else {
            let ghost labels = labels_of(self@.chosen);
            let ghost head = out@;
            let mut i: usize = 0;
            while i < self.chosen.len()
                invariant
                    i <= self.chosen@.len(),
                    labels == labels_of(self@.chosen),
                    out@ == head + joined(labels.take(i as int), " | "@),
                decreases self.chosen@.len() - i,
            {
                if i > 0 {
                    push_str(&mut out, " | ");
                }
                push_str(&mut out, self.chosen[i].1.as_str());
                assert(labels.take(i + 1).drop_last() == labels.take(i as int));
                assert(labels.take(i + 1).last() == self.chosen@[i as int].1@);
                i += 1;
            }
            assert(labels.take(self.chosen@.len() as int) == labels);
        }
        from_chars(out.as_slice())
    }

    /// Reacts to an answer to the menu.
    ///
    /// No answer, or the first line, ends the picking. The second line
    /// undoes the last pick where there is one. Any other line picks the
    /// item it shows. A line that the menu does not have changes nothing.
    pub fn answer(self, selection: Option<usize>) -> (r: Chosen)
        ensures
            match r {
                Chosen::Finished(picks) => (selection is None || selection == Some(0usize))
                    && picks@ == indices_of(self@.chosen) && picks@.no_duplicates() && (forall|
                    i: int,
                |
                    0 <= i < picks@.len() ==> (#[trigger] picks@[i]) < self@.remaining.len()
                        + self@.chosen.len()),
                Chosen::Continue(p) => selection matches Some(m) && m > 0 && p@ == after_line(
                    self@,
                    m,
                ) && each_held_once(p@) && p@.remaining.len() + p@.chosen.len()
                    == self@.remaining.len() + self@.chosen.len(),
            },
    {
        proof {
            use_type_invariant(&self);
        }
        let m = match selection {
            None => {
                return Chosen::Finished(self.picks());
            },
            Some(m) => m,
        };
        if m == 0 {
            return Chosen::Finished(self.picks());
        }
        let ghost v = self@;
        let mut remaining = self.remaining;
        let mut chosen = self.chosen;
        if m == 1 && chosen.len() > 0 {
            match chosen.pop() {
                Some(last) => {
                    remaining.push(last);
                    proof {
                        lemma_undone_held_once(v);
                        assert(item_views(remaining@) == undone(v).remaining);
                        assert(item_views(chosen@) == undone(v).chosen);
                    }
                },
                None => {},
            }
        } else {
            let base: usize = if chosen.len() == 0 {
                1
            } else {
                2
            };
            if m >= base && m - base < remaining.len() {
                let item = remaining.remove(m - base);
                chosen.push(item);
                proof {
                    lemma_picked_held_once(v, m - base);
                    assert(item_views(remaining@) == picked(v, m - base).remaining);
                    assert(item_views(chosen@) == picked(v, m - base).chosen);
                }
            }
        }
        Chosen::Continue(InlinePicker { remaining, chosen })
    }
}

} // verus!
