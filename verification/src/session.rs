//! A whole session: the selection a program starts with, and what a sequence
//! of input events makes of it.
//!
//! A front end reads one event at a time and draws in between. What it ends
//! up with depends on the events alone, and that is what this module states:
//! [`run`] says where a selection stands after the events it was given, the
//! help overlay taking its share of them, and [`select_multiple`] computes it.

use crate::entry::{names, texts, Entry};
use crate::input::{classify, dismisses, handle_event, should_quit, InputEvent};
use crate::selection::{flow_of, Flow, Selection, State};
use vstd::prelude::*;

verus! {

/// Where the help overlay, opened before the event at `from`, hands control
/// back: just behind the first event at or after `from` that dismisses it, or
/// at the end of the events if none does.
pub open spec fn help_end(events: Seq<InputEvent>, from: int) -> int
    decreases events.len() - from,
{
    if from >= events.len() {
        events.len() as int
    } else if dismisses(events[from]) {
        from + 1
    } else {
        help_end(events, from + 1)
    }
}

/// The help overlay gives control back behind where it took it, and within
/// the events.
pub proof fn lemma_help_end_bounds(events: Seq<InputEvent>, from: int)
    requires
        0 <= from <= events.len(),
    ensures
        from <= help_end(events, from) <= events.len(),
        from < events.len() ==> from < help_end(events, from),
    decreases events.len() - from,
{
    if from < events.len() && !dismisses(events[from]) {
        lemma_help_end_bounds(events, from + 1);
    }
}

/// The state after one event: that after the event's message, or the same
/// state if the event stands for no message.
pub open spec fn state_after(state: State, event: InputEvent) -> State {
    match classify(event) {
        Some(msg) => state.step(msg),
        None => state,
    }
}

/// What the event loop does after one event: what it does after the event's
/// message, or go on if the event stands for no message.
pub open spec fn flow_after(event: InputEvent) -> Flow {
    match classify(event) {
        Some(msg) => flow_of(msg),
        None => Flow::Continue,
    }
}

/// The selection after the events from `from` on, and whether the session was
/// quit. Each event is applied in turn. Opening the help hands the following
/// events to the overlay until one dismisses it. Quitting ends the session,
/// whatever follows; so does the end of the events.
pub open spec fn run(state: State, events: Seq<InputEvent>, from: int) -> (State, bool)
    decreases events.len() - from,
{
    if from < 0 || from >= events.len() {
        (state, false)
    } else {
        match flow_after(events[from]) {
            Flow::Quit => (state, true),
            Flow::OpenHelp => {
                proof {
                    lemma_help_end_bounds(events, from + 1);
                }
                run(state, events, help_end(events, from + 1))
            },
            Flow::Continue => run(state_after(state, events[from]), events, from + 1),
        }
    }
}

/// Runs the help overlay on the events from `from` on: every event is passed
/// over but the one that dismisses the overlay. Returns the index behind that
/// event, or the number of events if none dismisses it.
pub fn help_page(events: &Vec<InputEvent>, from: usize) -> (next: usize)
    ensures
        next == help_end(events@, from as int),
{
    let mut at = from;
    while at < events.len()
        invariant
            from <= at,
            help_end(events@, from as int) == help_end(events@, at as int),
        decreases events.len() - at,
    {
        if should_quit(events[at]) {
            return at + 1;
        }
        at = at + 1;
    }
    events.len()
}

impl Selection {
    /// Takes one event from the terminal: applies the message it stands for,
    /// if any, and tells what the event loop does next.
    pub fn on_event(&mut self, event: InputEvent) -> (flow: Flow)
        ensures
            final(self)@ == state_after(old(self)@, event),
            final(self)@.wf(),
            flow == flow_after(event),
    {
        proof {
            use_type_invariant(&*self);
        }
        match handle_event(event) {
            Some(msg) => self.apply(msg),
            None => Flow::Continue,
        }
    }

    /// Applies the events in turn, up to the one that quits. Returns whether
    /// the session was quit.
    pub fn run(&mut self, events: &Vec<InputEvent>) -> (quit: bool)
        ensures
            (final(self)@, quit) == run(old(self)@, events@, 0),
            final(self)@.wf(),
    {
        proof {
            use_type_invariant(&*self);
        }
        let mut at: usize = 0;
        while at < events.len()
            invariant
                at <= events.len(),
                self@.wf(),
                run(old(self)@, events@, 0) == run(self@, events@, at as int),
            decreases events.len() - at,
        {
            match self.on_event(events[at]) {
                Flow::Quit => {
                    return true;
                },
                Flow::OpenHelp => {
                    proof {
                        lemma_help_end_bounds(events@, at + 1);
                    }
                    at = help_page(events, at + 1);
                },
                Flow::Continue => {
                    at = at + 1;
                },
            }
        }
        false
    }
}

/// Those of the candidates whose names are among `selected`, in the order of
/// the candidates.
pub open spec fn selected_names(candidates: Seq<Seq<char>>, selected: Seq<Seq<char>>) -> Seq<
    Seq<char>,
> {
    candidates.filter(|name: Seq<char>| selected.contains(name))
}

/// Those of the candidates whose names are not among `selected`, in the order
/// of the candidates.
pub open spec fn unselected_names(candidates: Seq<Seq<char>>, selected: Seq<Seq<char>>) -> Seq<
    Seq<char>,
> {
    candidates.filter(|name: Seq<char>| !selected.contains(name))
}

/// Splits the candidates by whether their names were selected before: first
/// those whose names are among `selected`, then the others, each group in the
/// order of the candidates.
pub fn partition(candidates: Vec<Entry>, selected: &Vec<String>) -> (groups: (
    Vec<Entry>,
    Vec<Entry>,
))
    ensures
        names(groups.0@) == selected_names(names(candidates@), texts(selected@)),
        names(groups.1@) == unselected_names(names(candidates@), texts(selected@)),
{
    let ghost all = names(candidates@);
    let ghost chosen = texts(selected@);
    let mut ins: Vec<Entry> = Vec::new();
    let mut outs: Vec<Entry> = Vec::new();
    assert(all.take(0) =~= Seq::empty());
    for entry in it: candidates
        invariant
            it.seq() == candidates@,
            all == names(candidates@),
            chosen == texts(selected@),
            names(ins@) == selected_names(all.take(it.index() as int), chosen),
            names(outs@) == unselected_names(all.take(it.index() as int), chosen),
    {
        let ghost at = it.index() as int;
        let ghost ins_before = ins@;
        let ghost outs_before = outs@;
        proof {
            assert(entry@ == all[at]);
            assert(all.take(at + 1) =~= all.take(at).push(all[at]));
            all.take(at).lemma_filter_push(all[at], |name: Seq<char>| chosen.contains(name));
            all.take(at).lemma_filter_push(all[at], |name: Seq<char>| !chosen.contains(name));
        }
        if entry.is_in(selected) {
            ins.push(entry);
            assert(names(ins@) =~= names(ins_before).push(entry@));
        } else {
            outs.push(entry);
            assert(names(outs@) =~= names(outs_before).push(entry@));
        }
    }
    assert(all.take(all.len() as int) =~= all);
    (ins, outs)
}

/// Runs a session on the two lists as a program would with a terminal that
/// delivers `events`: `selected` holds the entries to remove, `unselected`
/// those to keep. When the session ends both hold what the user left in them.
/// Returns whether the session was quit.
pub fn select_multiple(
    selected: &mut Vec<Entry>,
    unselected: &mut Vec<Entry>,
    events: &Vec<InputEvent>,
) -> (quit: bool)
    ensures
        ({
            let start = State::initial(names(old(unselected)@), names(old(selected)@));
            let end = run(start, events@, 0);
            &&& names(final(unselected)@) == end.0.kept
            &&& names(final(selected)@) == end.0.removed
            &&& quit == end.1
        }),
{
    let mut kept: Vec<Entry> = Vec::new();
    let mut removed: Vec<Entry> = Vec::new();
    core::mem::swap(unselected, &mut kept);
    core::mem::swap(selected, &mut removed);
    let mut selection = Selection::new(kept, removed);
    let quit = selection.run(events);
    let (kept, removed) = selection.into_lists();
    *unselected = kept;
    *selected = removed;
    quit
}

} // verus!
