//! What holds of every selection and of every session.
//!
//! Each proof function here states one law over the model of
//! [`crate::selection`] and [`crate::session`], the same spec functions that
//! the contracts of the executable functions speak of.

use crate::entry::sorted;
use crate::input::{classify, InputEvent, Message};
use crate::selection::{
    clamped, lemma_inserted_multiset, lemma_inserted_sorted, lemma_remove_sorted,
    lemma_sort_names, Flow, Focus, State,
};
use crate::session::{
    flow_after, help_end, lemma_help_end_bounds, run, selected_names, state_after,
    unselected_names,
};
use vstd::prelude::*;
use vstd::seq_lib::{
    lemma_multiset_commutative, seq_to_set_distributes_over_add, to_multiset_build,
    to_multiset_contains, to_multiset_len, to_multiset_remove,
};

verus! {

/// The two lists of `state` split the candidates between them: no name
/// occurs twice in a list, none occurs in both, and together the lists hold
/// exactly the candidates.
pub open spec fn partitions(state: State, candidates: Set<Seq<char>>) -> bool {
    &&& state.kept.no_duplicates()
    &&& state.removed.no_duplicates()
    &&& state.kept.to_set().disjoint(state.removed.to_set())
    &&& state.kept.to_set().union(state.removed.to_set()) == candidates
}

/// A message leaves a well-formed state well formed: both cursors fit their
/// lists, and the removed list is ascending.
pub proof fn lemma_step_wf(state: State, msg: Message)
    requires
        state.wf(),
    ensures
        state.step(msg).wf(),
        sorted(state.step(msg).removed),
{
    match msg {
        Message::MoveSelection { is_down } => {
            let len = state.list(state.focus).len() as int;
            let cursor = state.cursor(state.focus);
            if len > 0 && is_down {
                if cursor + 1 == len {
                    vstd::arithmetic::div_mod::lemma_mod_self_0(len);
                } else {
                    vstd::arithmetic::div_mod::lemma_small_mod((cursor + 1) as nat, len as nat);
                }
            }
        },
        Message::Select => {
            let source = state.list(state.focus);
            let cursor = state.cursor(state.focus);
            if source.len() > 0 {
                match state.focus {
                    Focus::Kept => {
                        lemma_inserted_sorted(state.removed, source[cursor]);
                        lemma_inserted_multiset(state.removed, source[cursor]);
                    },
                    Focus::Removed => {
                        lemma_remove_sorted(state.removed, cursor);
                    },
                }
            }
        },
        _ => {},
    }
}

/// A message neither adds an entry nor loses one: the two lists together hold
/// the same entries before and after, each as often as before.
pub proof fn lemma_step_entries(state: State, msg: Message)
    requires
        state.wf(),
    ensures
        state.step(msg).entries() == state.entries(),
{
    if msg == Message::Select && state.list(state.focus).len() > 0 {
        let cursor = state.cursor(state.focus);
        match state.focus {
            Focus::Kept => {
                let x = state.kept[cursor];
                to_multiset_remove(state.kept, cursor);
                lemma_inserted_multiset(state.removed, x);
                to_multiset_contains(state.kept, x);
                assert(state.kept.contains(x));
                assert(state.kept.to_multiset().remove(x).add(
                    state.removed.to_multiset().insert(x),
                ) =~= state.kept.to_multiset().add(state.removed.to_multiset()));
            },
            Focus::Removed => {
                let x = state.removed[cursor];
                to_multiset_remove(state.removed, cursor);
                to_multiset_build(state.kept, x);
                to_multiset_contains(state.removed, x);
                assert(state.removed.contains(x));
                assert(state.kept.to_multiset().insert(x).add(
                    state.removed.to_multiset().remove(x),
                ) =~= state.kept.to_multiset().add(state.removed.to_multiset()));
            },
        }
    }
}

/// Moving down from the last entry leads to the first, and moving up from the
/// first leads to the last, whatever the length of the focused list.
pub proof fn lemma_wraparound(state: State)
    requires
        state.wf(),
        state.list(state.focus).len() >= 1,
    ensures
        state.cursor(state.focus) == state.list(state.focus).len() - 1 ==> state.moved(
            true,
        ).cursor(state.focus) == 0,
        state.cursor(state.focus) == 0 ==> state.moved(false).cursor(state.focus)
            == state.list(state.focus).len() - 1,
        state.list(state.focus).len() == 1 ==> state.moved(true) == state && state.moved(false)
            == state && state.jumped(true) == state && state.jumped(false) == state,
{
    let len = state.list(state.focus).len() as int;
    vstd::arithmetic::div_mod::lemma_mod_self_0(len);
}

/// While the focused list is empty, moving, jumping and selecting change
/// nothing.
pub proof fn lemma_empty_noop(state: State, msg: Message)
    requires
        state.list(state.focus).len() == 0,
        msg is MoveSelection || msg is JumpSelection || msg is Select,
    ensures
        state.step(msg) == state,
{
}

/// Selecting moves one entry and loses none: the two lists together are as
/// long as before and hold the same entries. If the focused list is not
/// empty, it is the old one without the entry under the cursor, and the other
/// list holds that entry once more than before and is otherwise as it was.
/// The cursor of the focused list stays unless it would point behind the
/// last entry; the other cursor and the focus stay.
pub proof fn lemma_transfer(state: State)
    requires
        state.wf(),
    ensures
        ({
            let from = state.focus;
            let to = state.focus.other();
            let cursor = state.cursor(from);
            let entry = state.list(from)[cursor];
            let after = state.transferred();
            &&& after.kept.len() + after.removed.len() == state.kept.len() + state.removed.len()
            &&& after.entries() == state.entries()
            &&& after.focus == state.focus
            &&& after.cursor(to) == state.cursor(to)
            &&& state.list(from).len() > 0 ==> {
                &&& after.list(from) == state.list(from).remove(cursor)
                &&& after.list(from).len() == state.list(from).len() - 1
                &&& after.list(from).to_multiset() == state.list(from).to_multiset().remove(
                    entry,
                )
                &&& after.list(to).len() == state.list(to).len() + 1
                &&& after.list(to).to_multiset() == state.list(to).to_multiset().insert(entry)
                &&& after.cursor(from) == clamped(cursor, after.list(from).len() as int)
            }
        }),
{
    lemma_step_entries(state, Message::Select);
    if state.list(state.focus).len() > 0 {
        let cursor = state.cursor(state.focus);
        match state.focus {
            Focus::Kept => {
                to_multiset_remove(state.kept, cursor);
                lemma_inserted_multiset(state.removed, state.kept[cursor]);
            },
            Focus::Removed => {
                to_multiset_remove(state.removed, cursor);
                to_multiset_build(state.kept, state.removed[cursor]);
            },
        }
    }
}

/// The state a session starts in is well formed and holds the entries it was
/// given.
pub proof fn lemma_initial(kept: Seq<Seq<char>>, removed: Seq<Seq<char>>)
    ensures
        State::initial(kept, removed).wf(),
        State::initial(kept, removed).entries() == kept.to_multiset().add(
            removed.to_multiset(),
        ),
{
    lemma_sort_names(removed);
}

/// Whatever the events, a session leaves a well-formed state well formed and
/// holding the entries it started with.
pub proof fn lemma_run(state: State, events: Seq<InputEvent>, from: int)
    requires
        state.wf(),
    ensures
        run(state, events, from).0.wf(),
        sorted(run(state, events, from).0.removed),
        run(state, events, from).0.entries() == state.entries(),
    decreases events.len() - from,
{
    if 0 <= from < events.len() {
        match flow_after(events[from]) {
            Flow::Quit => {},
            Flow::OpenHelp => {
                lemma_help_end_bounds(events, from + 1);
                lemma_run(state, events, help_end(events, from + 1));
            },
            Flow::Continue => {
                match classify(events[from]) {
                    Some(msg) => {
                        lemma_step_wf(state, msg);
                        lemma_step_entries(state, msg);
                    },
                    None => {},
                }
                lemma_run(state_after(state, events[from]), events, from + 1);
            },
        }
    }
}

/// Splitting the candidates by their names loses none and adds none.
pub proof fn lemma_split_entries(candidates: Seq<Seq<char>>, selected: Seq<Seq<char>>)
    ensures
        selected_names(candidates, selected).to_multiset().add(
            unselected_names(candidates, selected).to_multiset(),
        ) == candidates.to_multiset(),
    decreases candidates.len(),
{
    let is_in = |name: Seq<char>| selected.contains(name);
    let is_out = |name: Seq<char>| !selected.contains(name);
    if candidates.len() == 0 {
        assert(candidates.filter(is_in) =~= Seq::empty()) by {
            candidates.lemma_filter_len(is_in);
        }
        assert(candidates.filter(is_out) =~= Seq::empty()) by {
            candidates.lemma_filter_len(is_out);
        }
        assert(candidates =~= Seq::empty());
        assert(Seq::<Seq<char>>::empty().to_multiset().add(
            Seq::<Seq<char>>::empty().to_multiset(),
        ) =~= Seq::<Seq<char>>::empty().to_multiset()) by {
            to_multiset_len(Seq::<Seq<char>>::empty());
        }
    } else {
        let front = candidates.drop_last();
        let x = candidates.last();
        lemma_split_entries(front, selected);
        assert(front.push(x) =~= candidates);
        front.lemma_filter_push(x, is_in);
        front.lemma_filter_push(x, is_out);
        to_multiset_build(front, x);
        to_multiset_build(front.filter(is_in), x);
        to_multiset_build(front.filter(is_out), x);
        if selected.contains(x) {
            assert(front.filter(is_in).to_multiset().insert(x).add(
                front.filter(is_out).to_multiset(),
            ) =~= front.filter(is_in).to_multiset().add(front.filter(is_out).to_multiset()).insert(
                x,
            ));
        } else {
            assert(front.filter(is_in).to_multiset().add(
                front.filter(is_out).to_multiset().insert(x),
            ) =~= front.filter(is_in).to_multiset().add(front.filter(is_out).to_multiset()).insert(
                x,
            ));
        }
    }
}

/// A state that holds the entries of the candidates holds their names and no
/// others.
pub proof fn lemma_entries_union(state: State, candidates: Seq<Seq<char>>)
    requires
        state.entries() == candidates.to_multiset(),
    ensures
        state.kept.to_set().union(state.removed.to_set()) == candidates.to_set(),
{
    let both = state.kept + state.removed;
    lemma_multiset_commutative(state.kept, state.removed);
    seq_to_set_distributes_over_add(state.kept, state.removed);
    assert(both.to_set() =~= candidates.to_set()) by {
        assert forall|name: Seq<char>| both.contains(name) <==> candidates.contains(name) by {
            to_multiset_contains(both, name);
            to_multiset_contains(candidates, name);
        }
    }
}

/// A state that holds each of the distinct candidates once, and nothing else,
/// splits them between its two lists.
pub proof fn lemma_entries_partition(state: State, candidates: Seq<Seq<char>>)
    requires
        candidates.no_duplicates(),
        state.entries() == candidates.to_multiset(),
    ensures
        partitions(state, candidates.to_set()),
{
    let both = state.kept + state.removed;
    lemma_multiset_commutative(state.kept, state.removed);
    candidates.lemma_multiset_has_no_duplicates();
    both.lemma_multiset_has_no_duplicates_conv();
    assert(state.kept.no_duplicates()) by {
        assert forall|i: int, j: int|
            0 <= i < state.kept.len() && 0 <= j < state.kept.len() && i != j implies state.kept[i]
            != state.kept[j] by {
            assert(both[i] == state.kept[i] && both[j] == state.kept[j]);
        }
    }
    assert(state.removed.no_duplicates()) by {
        assert forall|i: int, j: int|
            0 <= i < state.removed.len() && 0 <= j < state.removed.len() && i
                != j implies state.removed[i] != state.removed[j] by {
            let n = state.kept.len() as int;
            assert(both[n + i] == state.removed[i] && both[n + j] == state.removed[j]);
        }
    }
    assert(state.kept.to_set().disjoint(state.removed.to_set())) by {
        assert forall|name: Seq<char>|
            !(state.kept.to_set().contains(name) && state.removed.to_set().contains(
                name,
            )) by {
            if state.kept.contains(name) && state.removed.contains(name) {
                let i = choose|i: int| 0 <= i < state.kept.len() && state.kept[i] == name;
                let j = choose|j: int| 0 <= j < state.removed.len() && state.removed[j] == name;
                let n = state.kept.len() as int;
                assert(both[i] == name && both[n + j] == name);
            }
        }
    }
    lemma_entries_union(state, candidates);
}

/// Two lists that split the distinct candidates between them hold each
/// candidate once, and nothing else.
pub proof fn lemma_partition_entries(state: State, candidates: Seq<Seq<char>>)
    requires
        candidates.no_duplicates(),
        partitions(state, candidates.to_set()),
    ensures
        state.entries() == candidates.to_multiset(),
{
    let both = state.kept + state.removed;
    lemma_multiset_commutative(state.kept, state.removed);
    assert(both.no_duplicates()) by {
        assert forall|i: int, j: int|
            0 <= i < state.kept.len() && 0 <= j < state.removed.len() implies state.kept[i]
            != state.removed[j] by {
            assert(state.kept.to_set().contains(state.kept[i]));
            assert(state.removed.to_set().contains(state.removed[j]));
        }
        vstd::seq_lib::lemma_no_dup_in_concat(state.kept, state.removed);
    }
    seq_to_set_distributes_over_add(state.kept, state.removed);
    both.lemma_multiset_has_no_duplicates();
    candidates.lemma_multiset_has_no_duplicates();
    assert forall|name: Seq<char>|
        both.to_multiset().count(name) == candidates.to_multiset().count(name) by {
        to_multiset_contains(both, name);
        to_multiset_contains(candidates, name);
        assert(both.to_set().contains(name) <==> candidates.to_set().contains(name));
    }
    assert(both.to_multiset() =~= candidates.to_multiset());
}

/// A message leaves the split as it finds it: if the two lists split the
/// distinct candidates between them before the message, they do so after it.
pub proof fn lemma_step_partitions(state: State, msg: Message, candidates: Seq<Seq<char>>)
    requires
        state.wf(),
        candidates.no_duplicates(),
        partitions(state, candidates.to_set()),
    ensures
        partitions(state.step(msg), candidates.to_set()),
{
    lemma_partition_entries(state, candidates);
    lemma_step_entries(state, msg);
    lemma_entries_partition(state.step(msg), candidates);
}

/// At every point of every session the two lists split the candidates between
/// them. After the candidates have been split by their names, and after any
/// events whatever, the two lists hold the entries of the candidates, each as
/// often as it is among them, and so together exactly their names; the
/// removed list is ascending. If no candidate occurs twice, then no name
/// occurs twice in a list and none occurs in both lists.
pub proof fn lemma_session_partitions(
    candidates: Seq<Seq<char>>,
    selected: Seq<Seq<char>>,
    events: Seq<InputEvent>,
)
    ensures
        ({
            let start = State::initial(
                unselected_names(candidates, selected),
                selected_names(candidates, selected),
            );
            let end = run(start, events, 0).0;
            &&& start.entries() == candidates.to_multiset()
            &&& end.entries() == candidates.to_multiset()
            &&& start.kept.to_set().union(start.removed.to_set()) == candidates.to_set()
            &&& end.kept.to_set().union(end.removed.to_set()) == candidates.to_set()
            &&& sorted(start.removed)
            &&& sorted(end.removed)
            &&& candidates.no_duplicates() ==> partitions(start, candidates.to_set())
                && partitions(end, candidates.to_set())
        }),
{
    let kept = unselected_names(candidates, selected);
    let removed = selected_names(candidates, selected);
    let start = State::initial(kept, removed);
    let end = run(start, events, 0).0;
    lemma_initial(kept, removed);
    lemma_split_entries(candidates, selected);
    assert(kept.to_multiset().add(removed.to_multiset()) =~= removed.to_multiset().add(
        kept.to_multiset(),
    ));
    lemma_run(start, events, 0);
    lemma_entries_union(start, candidates);
    lemma_entries_union(end, candidates);
    if candidates.no_duplicates() {
        lemma_entries_partition(start, candidates);
        lemma_entries_partition(end, candidates);
    }
}

} // verus!
