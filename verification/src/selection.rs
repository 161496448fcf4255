//! The selection: two lists of entries, a cursor in each, and the focus.
//!
//! [`State`] is the mathematical model, with one spec function for each
//! message. [`Selection`] is the value a program holds; each of its methods is
//! proved to do what the model says.

use crate::entry::{
    is_name_le, lemma_name_le_antisym, lemma_name_le_total, lemma_name_le_trans, name_le, names,
    sorted, Entry,
};
use crate::input::Message;
use vstd::multiset::Multiset;
use vstd::prelude::*;

verus! {

/// Which of the two lists receives the movement keys and shows the highlight.
#[derive(Debug, Clone, Copy, PartialEq, Eq, Structural)]
pub enum Focus {
    /// The list of entries to keep, shown on the left.
    Kept,
    /// The list of entries to remove, shown on the right.
    Removed,
}

impl Focus {
    /// The other list.
    pub open spec fn other(self) -> Focus {
        match self {
            Focus::Kept => Focus::Removed,
            Focus::Removed => Focus::Kept,
        }
    }

    /// The other list.
    pub fn flipped(self) -> (f: Focus)
        ensures
            f == self.other(),
    {
        match self {
            Focus::Kept => Focus::Removed,
            Focus::Removed => Focus::Kept,
        }
    }
}

/// What the event loop does after a message has been applied.
#[derive(Debug, Clone, Copy, PartialEq, Eq, Structural)]
pub enum Flow {
    /// Draw again and wait for the next event.
    Continue,
    /// Run the help overlay until it is dismissed, then go on.
    OpenHelp,
    /// Leave the loop: the two lists are the result.
    Quit,
}

/// What the loop does after the given message.
pub open spec fn flow_of(msg: Message) -> Flow {
    match msg {
        Message::OpenHelp => Flow::OpenHelp,
        Message::Quit => Flow::Quit,
        _ => Flow::Continue,
    }
}

/// The first index at or after `from` whose name is greater than `x`, or the
/// length of the list if there is none.
pub open spec fn insert_at(list: Seq<Seq<char>>, x: Seq<char>, from: int) -> int
    decreases list.len() - from,
{
    if from >= list.len() || !name_le(list[from], x) {
        from
    } else {
        insert_at(list, x, from + 1)
    }
}

/// The list with `x` put in behind every leading name that is no greater.
/// In an ascending list that is the place that keeps the list ascending.
pub open spec fn inserted(list: Seq<Seq<char>>, x: Seq<char>) -> Seq<Seq<char>> {
    list.insert(insert_at(list, x, 0), x)
}

/// The names of `list` in ascending order: the first name put into the
/// ascending list of those behind it.
pub open spec fn sort_names(list: Seq<Seq<char>>) -> Seq<Seq<char>>
    decreases list.len(),
{
    if list.len() == 0 {
        Seq::empty()
    } else {
        inserted(sort_names(list.drop_first()), list.first())
    }
}

/// A cursor that fits a list of the given length: an index into it, or 0 if
/// the list is empty.
pub open spec fn cursor_fits(cursor: int, len: int) -> bool {
    0 <= cursor && (cursor < len || cursor == 0)
}

/// The cursor brought back into a list of the given length.
pub open spec fn clamped(cursor: int, len: int) -> int {
    if len <= 0 {
        0
    } else if cursor >= len {
        len - 1
    } else {
        cursor
    }
}

/// The state of a selection.
pub struct State {
    /// The names of the entries to keep, in the order in which they arrived.
    pub kept: Seq<Seq<char>>,
    /// The names of the entries to remove, ascending.
    pub removed: Seq<Seq<char>>,
    /// The cursor of the kept list.
    pub kept_cursor: int,
    /// The cursor of the removed list.
    pub removed_cursor: int,
    /// The list that has the focus.
    pub focus: Focus,
}

impl State {
    /// The state a session starts in: the removed list ascending, both
    /// cursors at the top, the focus on the kept list.
    pub open spec fn initial(kept: Seq<Seq<char>>, removed: Seq<Seq<char>>) -> State {
        State {
            kept,
            removed: sort_names(removed),
            kept_cursor: 0,
            removed_cursor: 0,
            focus: Focus::Kept,
        }
    }

    /// One of the two lists.
    pub open spec fn list(self, which: Focus) -> Seq<Seq<char>> {
        match which {
            Focus::Kept => self.kept,
            Focus::Removed => self.removed,
        }
    }

    /// The cursor of one of the two lists.
    pub open spec fn cursor(self, which: Focus) -> int {
        match which {
            Focus::Kept => self.kept_cursor,
            Focus::Removed => self.removed_cursor,
        }
    }

    /// The state with the cursor of the focused list set to `cursor`.
    pub open spec fn with_cursor(self, cursor: int) -> State {
        match self.focus {
            Focus::Kept => State { kept_cursor: cursor, ..self },
            Focus::Removed => State { removed_cursor: cursor, ..self },
        }
    }

    /// Both cursors fit their lists and the removed list is ascending.
    pub open spec fn wf(self) -> bool {
        &&& cursor_fits(self.kept_cursor, self.kept.len() as int)
        &&& cursor_fits(self.removed_cursor, self.removed.len() as int)
        &&& sorted(self.removed)
    }

    /// All entries of both lists, each as often as it occurs.
    pub open spec fn entries(self) -> Multiset<Seq<char>> {
        self.kept.to_multiset().add(self.removed.to_multiset())
    }

    /// The cursor of the focused list moved by one, wrapping at both ends.
    /// Nothing moves in an empty list.
    pub open spec fn moved(self, is_down: bool) -> State {
        let len = self.list(self.focus).len() as int;
        let cursor = self.cursor(self.focus);
        if len == 0 {
            self
        } else if is_down {
            self.with_cursor((cursor + 1) % len)
        } else if cursor == 0 {
            self.with_cursor(len - 1)
        } else {
            self.with_cursor(cursor - 1)
        }
    }

    /// The cursor of the focused list moved to the first or the last entry.
    /// Nothing moves in an empty list.
    pub open spec fn jumped(self, to_start: bool) -> State {
        let len = self.list(self.focus).len() as int;
        if len == 0 {
            self
        } else if to_start {
            self.with_cursor(0)
        } else {
            self.with_cursor(len - 1)
        }
    }

    /// The entry under the cursor of the focused list handed over to the other
    /// list: appended to the kept list, put in its ascending place in the
    /// removed list. The cursor stays where it is unless it would point past
    /// the end of the shorter list. Nothing happens if the focused list is
    /// empty.
    pub open spec fn transferred(self) -> State {
        let source = self.list(self.focus);
        let cursor = self.cursor(self.focus);
        if source.len() == 0 {
            self
        } else {
            let rest = source.remove(cursor);
            let cursor = clamped(cursor, rest.len() as int);
            match self.focus {
                Focus::Kept => State {
                    kept: rest,
                    kept_cursor: cursor,
                    removed: inserted(self.removed, source[self.kept_cursor]),
                    ..self
                },
                Focus::Removed => State {
                    removed: rest,
                    removed_cursor: cursor,
                    kept: self.kept.push(source[self.removed_cursor]),
                    ..self
                },
            }
        }
    }

    /// The focus given to the other list; both cursors stay.
    pub open spec fn refocused(self) -> State {
        State { focus: self.focus.other(), ..self }
    }

    /// The state after a message. Opening the help and quitting change
    /// nothing.
    pub open spec fn step(self, msg: Message) -> State {
        match msg {
            Message::MoveSelection { is_down } => self.moved(is_down),
            Message::JumpSelection { to_start } => self.jumped(to_start),
            Message::Select => self.transferred(),
            Message::ChangeFocus => self.refocused(),
            Message::OpenHelp => self,
            Message::Quit => self,
        }
    }
}

/// Where `insert_at` lands: within the list, behind names that are no greater
/// than `x`, and in front of a name that is greater.
pub proof fn lemma_insert_at(list: Seq<Seq<char>>, x: Seq<char>, from: int)
    requires
        0 <= from <= list.len(),
    ensures
        from <= insert_at(list, x, from) <= list.len(),
        forall|k: int| from <= k < insert_at(list, x, from) ==> name_le(#[trigger] list[k], x),
        insert_at(list, x, from) < list.len() ==> !name_le(list[insert_at(list, x, from)], x),
    decreases list.len() - from,
{
    if from < list.len() && name_le(list[from], x) {
        lemma_insert_at(list, x, from + 1);
    }
}

/// Putting a name into an ascending list leaves the list ascending.
pub proof fn lemma_inserted_sorted(list: Seq<Seq<char>>, x: Seq<char>)
    requires
        sorted(list),
    ensures
        sorted(inserted(list, x)),
{
    let p = insert_at(list, x, 0);
    let out = inserted(list, x);
    lemma_insert_at(list, x, 0);
    assert forall|i: int, j: int| 0 <= i < j < out.len() implies name_le(out[i], out[j]) by {
        if j < p {
            assert(out[i] == list[i] && out[j] == list[j]);
        } else if j == p {
            assert(out[i] == list[i]);
        } else if i < p {
            assert(out[i] == list[i] && out[j] == list[j - 1]);
            if p < j - 1 {
            } else {
                // list[i] <= x < list[p], with j - 1 == p
                lemma_name_le_total(list[i], list[p]);
                if !name_le(list[i], list[p]) {
                    lemma_name_le_trans(list[p], list[i], x);
                }
            }
        } else if i == p {
            // x < list[p] <= list[j - 1]
            assert(out[j] == list[j - 1]);
            lemma_name_le_total(x, list[j - 1]);
            if !name_le(x, list[j - 1]) {
                if p < j - 1 {
                    lemma_name_le_trans(list[p], list[j - 1], x);
                }
            }
        } else {
            assert(out[i] == list[i - 1] && out[j] == list[j - 1]);
        }
    }
}

/// Putting a name into a list adds that name once and nothing else.
pub proof fn lemma_inserted_multiset(list: Seq<Seq<char>>, x: Seq<char>)
    ensures
        inserted(list, x).to_multiset() == list.to_multiset().insert(x),
        inserted(list, x).len() == list.len() + 1,
{
    lemma_insert_at(list, x, 0);
    vstd::seq_lib::to_multiset_insert(list, insert_at(list, x, 0), x);
}

/// Sorting gives an ascending list of the same names, each as often as
/// before.
pub proof fn lemma_sort_names(list: Seq<Seq<char>>)
    ensures
        sorted(sort_names(list)),
        sort_names(list).to_multiset() == list.to_multiset(),
        sort_names(list).len() == list.len(),
    decreases list.len(),
{
    if list.len() == 0 {
        assert(list =~= Seq::empty());
    } else {
        let rest = list.drop_first();
        lemma_sort_names(rest);
        lemma_inserted_sorted(sort_names(rest), list.first());
        lemma_inserted_multiset(sort_names(rest), list.first());
        vstd::seq_lib::to_multiset_insert(rest, 0, list.first());
        assert(rest.insert(0, list.first()) =~= list);
    }
}

/// An ascending list is its own sorting.
pub proof fn lemma_sort_names_of_sorted(list: Seq<Seq<char>>)
    requires
        sorted(list),
    ensures
        sort_names(list) == list,
    decreases list.len(),
{
    if list.len() > 0 {
        let rest = list.drop_first();
        let x = list.first();
        assert(sorted(rest)) by {
            assert forall|i: int, j: int| 0 <= i < j < rest.len() implies name_le(
                rest[i],
                rest[j],
            ) by {
                assert(rest[i] == list[i + 1] && rest[j] == list[j + 1]);
            }
        }
        lemma_sort_names_of_sorted(rest);
        lemma_insert_at(rest, x, 0);
        let p = insert_at(rest, x, 0);
        let out = rest.insert(p, x);
        // The names in front of the place found are no greater than `x`, and no
        // less by the order of the list: they are `x`.
        assert forall|m: int| 0 <= m < p implies rest[m] == x by {
            assert(rest[m] == list[m + 1]);
            assert(name_le(list[0], list[m + 1]));
            lemma_name_le_antisym(rest[m], x);
        }
        assert forall|k: int| 0 <= k < list.len() implies out[k] == list[k] by {
            if k < p {
                assert(out[k] == rest[k]);
                if k > 0 {
                    assert(list[k] == rest[k - 1]);
                }
            } else if k == p {
                if k > 0 {
                    assert(list[k] == rest[k - 1]);
                }
            } else {
                assert(out[k] == rest[k - 1]);
            }
        }
        assert(out =~= list);
    }
}

/// Taking a name out of an ascending list leaves the list ascending.
pub proof fn lemma_remove_sorted(list: Seq<Seq<char>>, at: int)
    requires
        sorted(list),
        0 <= at < list.len(),
    ensures
        sorted(list.remove(at)),
{
    let out = list.remove(at);
    assert forall|i: int, j: int| 0 <= i < j < out.len() implies name_le(out[i], out[j]) by {
        let i0 = if i < at { i } else { i + 1 };
        let j0 = if j < at { j } else { j + 1 };
        assert(out[i] == list[i0] && out[j] == list[j0]);
    }
}

/// Puts `entry` into `list` behind every leading entry whose name is no
/// greater.
pub fn insert_sorted(list: &mut Vec<Entry>, entry: Entry)
    ensures
        names(final(list)@) == inserted(names(old(list)@), entry@),
{
    let mut at: usize = 0;
    while at < list.len() && is_name_le(list[at].name(), entry.name())
        invariant
            at <= list.len(),
            *list == *old(list),
            insert_at(names(list@), entry@, 0) == insert_at(names(list@), entry@, at as int),
        decreases list.len() - at,
    {
        at = at + 1;
    }
    list.insert(at, entry);
    assert(names(list@) =~= names(old(list)@).insert(at as int, entry@));
}

/// Puts the entries of `list` in ascending order of their names.
pub fn sort_entries(list: Vec<Entry>) -> (out: Vec<Entry>)
    ensures
        names(out@) == sort_names(names(list@)),
        sorted(names(out@)),
        names(out@).to_multiset() == names(list@).to_multiset(),
{
    proof {
        lemma_sort_names(names(list@));
    }
    let ghost all = names(list@);
    let mut list = list;
    let mut out: Vec<Entry> = Vec::new();
    assert(all.skip(all.len() as int) =~= Seq::empty());
    while list.len() > 0
        invariant
            list.len() <= all.len(),
            names(list@) == all.take(list.len() as int),
            names(out@) == sort_names(all.skip(list.len() as int)),
        decreases list.len(),
    {
        let ghost before = list@;
        let entry = list.pop().unwrap();
        proof {
            let k = list.len() as int;
            assert(entry@ == names(before)[k]);
            assert(names(list@) =~= all.take(k));
            assert(all.skip(k).first() == entry@);
            assert(all.skip(k).drop_first() =~= all.skip(k + 1));
        }
        insert_sorted(&mut out, entry);
    }
    assert(all.skip(0) =~= all);
    out
}

/// Two lists of entries with a cursor each, and the focus.
#[derive(Debug)]
pub struct Selection {
    kept: Vec<Entry>,
    removed: Vec<Entry>,
    kept_cursor: usize,
    removed_cursor: usize,
    focus: Focus,
}

impl View for Selection {
    type V = State;

    closed spec fn view(&self) -> State {
        State {
            kept: names(self.kept@),
            removed: names(self.removed@),
            kept_cursor: self.kept_cursor as int,
            removed_cursor: self.removed_cursor as int,
            focus: self.focus,
        }
    }
}

impl Selection {
    /// Every selection is well formed, at all times.
    #[verifier::type_invariant]
    pub open spec fn well_formed(self) -> bool {
        self@.wf()
    }

    /// A selection of nothing.
    fn empty() -> (sel: Selection)
        ensures
            sel@ == State::initial(Seq::empty(), Seq::empty()),
    {
        assert(names(Seq::<Entry>::empty()) =~= Seq::empty());
        Selection {
            kept: Vec::new(),
            removed: Vec::new(),
            kept_cursor: 0,
            removed_cursor: 0,
            focus: Focus::Kept,
        }
    }

    /// The selection a session starts with: `kept` as given, `removed` put in
    /// ascending order, both cursors at the top, the focus on the kept list.
    pub fn new(kept: Vec<Entry>, removed: Vec<Entry>) -> (sel: Selection)
        ensures
            sel@ == State::initial(names(kept@), names(removed@)),
            sel@.wf(),
    {
        proof {
            lemma_sort_names(names(removed@));
        }
        let removed = sort_entries(removed);
        Selection { kept, removed, kept_cursor: 0, removed_cursor: 0, focus: Focus::Kept }
    }

    /// Moves the cursor of the focused list by one, wrapping at both ends.
    pub fn move_selection(&mut self, is_down: bool)
        ensures
            final(self)@ == old(self)@.moved(is_down),
            final(self)@.wf(),
    {
        proof {
            use_type_invariant(&*self);
        }
        let len = match self.focus {
            Focus::Kept => self.kept.len(),
            Focus::Removed => self.removed.len(),
        };
        if len == 0 {
            return ;
        }
        let cursor = match self.focus {
            Focus::Kept => self.kept_cursor,
            Focus::Removed => self.removed_cursor,
        };
        proof {
            if cursor + 1 == len {
                vstd::arithmetic::div_mod::lemma_mod_self_0(len as int);
            } else {
                vstd::arithmetic::div_mod::lemma_small_mod((cursor + 1) as nat, len as nat);
            }
        }
        let next = if is_down {
            if cursor + 1 == len {
                0
            } else {
                cursor + 1
            }
        } else if cursor == 0 {
            len - 1
        } else {
            cursor - 1
        };
        match self.focus {
            Focus::Kept => {
                self.kept_cursor = next;
            },
            Focus::Removed => {
                self.removed_cursor = next;
            },
        }
    }

    /// Moves the cursor of the focused list to its first or its last entry.
    pub fn jump_selection(&mut self, to_start: bool)
        ensures
            final(self)@ == old(self)@.jumped(to_start),
            final(self)@.wf(),
    {
        proof {
            use_type_invariant(&*self);
        }
        let len = match self.focus {
            Focus::Kept => self.kept.len(),
            Focus::Removed => self.removed.len(),
        };
        if len == 0 {
            return ;
        }
        let next = if to_start {
            0
        } else {
            len - 1
        };
        match self.focus {
            Focus::Kept => {
                self.kept_cursor = next;
            },
            Focus::Removed => {
                self.removed_cursor = next;
            },
        }
    }

    /// Hands the entry under the cursor of the focused list over to the other
    /// list.
    pub fn select(&mut self)
        ensures
            final(self)@ == old(self)@.transferred(),
            final(self)@.wf(),
    {
        proof {
            use_type_invariant(&*self);
        }
        let mut taken = Selection::empty();
        core::mem::swap(self, &mut taken);
        let Selection { mut kept, mut removed, mut kept_cursor, mut removed_cursor, focus } = taken;
        match focus {
            Focus::Kept => {
                if kept.len() > 0 {
                    let ghost source = kept@;
                    let entry = kept.remove(kept_cursor);
                    proof {
                        assert(names(kept@) =~= names(source).remove(kept_cursor as int));
                        lemma_inserted_sorted(names(removed@), entry@);
                        lemma_inserted_multiset(names(removed@), entry@);
                    }
                    insert_sorted(&mut removed, entry);
                    if kept_cursor > 0 && kept_cursor == kept.len() {
                        kept_cursor = kept_cursor - 1;
                    }
                }
            },
            Focus::Removed => {
                if removed.len() > 0 {
                    let ghost source = removed@;
                    let ghost target = kept@;
                    let entry = removed.remove(removed_cursor);
                    proof {
                        assert(names(removed@) =~= names(source).remove(removed_cursor as int));
                        lemma_remove_sorted(names(source), removed_cursor as int);
                    }
                    kept.push(entry);
                    assert(names(kept@) =~= names(target).push(entry@));
                    if removed_cursor > 0 && removed_cursor == removed.len() {
                        removed_cursor = removed_cursor - 1;
                    }
                }
            },
        }
        *self = Selection { kept, removed, kept_cursor, removed_cursor, focus };
    }

    /// Gives the focus to the other list.
    pub fn change_focus(&mut self)
        ensures
            final(self)@ == old(self)@.refocused(),
            final(self)@.wf(),
    {
        proof {
            use_type_invariant(&*self);
        }
        self.focus = self.focus.flipped();
    }

    /// Applies a message and tells what the event loop does next.
    pub fn apply(&mut self, msg: Message) -> (flow: Flow)
        ensures
            final(self)@ == old(self)@.step(msg),
            final(self)@.wf(),
            flow == flow_of(msg),
    {
        proof {
            use_type_invariant(&*self);
        }
        match msg {
            Message::MoveSelection { is_down } => {
                self.move_selection(is_down);
                Flow::Continue
            },
            Message::JumpSelection { to_start } => {
                self.jump_selection(to_start);
                Flow::Continue
            },
            Message::Select => {
                self.select();
                Flow::Continue
            },
            Message::ChangeFocus => {
                self.change_focus();
                Flow::Continue
            },
            Message::OpenHelp => Flow::OpenHelp,
            Message::Quit => Flow::Quit,
        }
    }

    /// The entries to keep, in the order in which they arrived.
    pub fn kept(&self) -> (list: &Vec<Entry>)
        ensures
            names(list@) == self@.kept,
    {
        &self.kept
    }

    /// The entries to remove, ascending by name.
    pub fn removed(&self) -> (list: &Vec<Entry>)
        ensures
            names(list@) == self@.removed,
            sorted(names(list@)),
    {
        proof {
            use_type_invariant(self);
        }
        &self.removed
    }

    /// The list that has the focus.
    pub fn focus(&self) -> (focus: Focus)
        ensures
            focus == self@.focus,
    {
        self.focus
    }

    /// The cursor of one of the two lists: an index into the list, or 0 if
    /// the list is empty.
    pub fn cursor(&self, which: Focus) -> (cursor: usize)
        ensures
            cursor == self@.cursor(which),
            cursor_fits(cursor as int, self@.list(which).len() as int),
    {
        proof {
            use_type_invariant(self);
        }
        match which {
            Focus::Kept => self.kept_cursor,
            Focus::Removed => self.removed_cursor,
        }
    }

    /// The two lists, kept first: the result of a session.
    pub fn into_lists(self) -> (lists: (Vec<Entry>, Vec<Entry>))
        ensures
            names(lists.0@) == self@.kept,
            names(lists.1@) == self@.removed,
    {
        (self.kept, self.removed)
    }
}

} // verus!
