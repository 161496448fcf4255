use triage::entry::Entry;
use triage::input::{InputEvent, Key, KeyKind};
use triage::selection::{Flow, Focus, Selection};
use triage::session::{help_page, partition, select_multiple};

fn entries(names: &[&str]) -> Vec<Entry> {
    names.iter().map(|name| Entry::new(name.to_string())).collect()
}

fn names(list: &Vec<Entry>) -> Vec<String> {
    list.iter().map(|entry| entry.name().to_string()).collect()
}

fn key(code: Key) -> InputEvent {
    InputEvent::Key { code, kind: KeyKind::Press }
}

fn typed(keys: &str) -> Vec<InputEvent> {
    keys.chars()
        .map(|c| match c {
            '\n' => key(Key::Enter),
            '\t' => key(Key::Tab),
            c => key(Key::Char(c)),
        })
        .collect()
}

#[test]
fn the_help_closes_on_q_and_leaves_the_selection_alone() {
    let mut s = Selection::new(entries(&["a", "b", "c"]), entries(&["x", "y"]));
    assert!(!s.run(&typed("j\tj")));
    assert_eq!(s.focus(), Focus::Removed);
    assert_eq!(s.cursor(Focus::Kept), 1);
    assert_eq!(s.cursor(Focus::Removed), 1);
    // Open the help and press q at once: the overlay closes, the session goes on.
    let quit = s.run(&typed("?q"));
    assert!(!quit);
    assert_eq!(s.focus(), Focus::Removed);
    assert_eq!(s.cursor(Focus::Kept), 1);
    assert_eq!(s.cursor(Focus::Removed), 1);
    assert_eq!(names(s.kept()), ["a", "b", "c"]);
    assert_eq!(names(s.removed()), ["x", "y"]);
}

#[test]
fn the_help_takes_the_events_until_it_is_closed() {
    let mut s = Selection::new(entries(&["a", "b", "c"]), entries(&[]));
    // j, Tab and Escape go to the overlay; Enter closes it; then j moves.
    let mut events = typed("?j\t");
    events.push(key(Key::Esc));
    events.extend(typed("\nj"));
    assert!(!s.run(&events));
    assert_eq!(s.focus(), Focus::Kept);
    assert_eq!(s.cursor(Focus::Kept), 1);
    assert_eq!(names(s.kept()), ["a", "b", "c"]);
    assert!(s.removed().is_empty());
}

#[test]
fn q_quits_only_outside_the_help() {
    let mut s = Selection::new(entries(&["a", "b"]), entries(&[]));
    assert!(s.run(&typed("?qjq\n")));
    // The first q closed the help, j moved, the second q quit, Enter came too late.
    assert_eq!(s.cursor(Focus::Kept), 1);
    assert_eq!(names(s.kept()), ["a", "b"]);
    assert!(s.removed().is_empty());
}

#[test]
fn a_help_that_is_never_closed_takes_everything() {
    let mut s = Selection::new(entries(&["a", "b"]), entries(&[]));
    let mut events = typed("?jj\t");
    events.push(key(Key::Esc));
    assert!(!s.run(&events));
    assert_eq!(s.cursor(Focus::Kept), 0);
    assert_eq!(s.focus(), Focus::Kept);
}

#[test]
fn nothing_after_quit_is_applied() {
    let mut s = Selection::new(entries(&["a", "b"]), entries(&[]));
    let mut events = vec![key(Key::Esc)];
    events.extend(typed("\n\n"));
    assert!(s.run(&events));
    assert_eq!(names(s.kept()), ["a", "b"]);
    assert!(s.removed().is_empty());
}

#[test]
fn ignored_events_change_nothing() {
    let mut s = Selection::new(entries(&["a", "b"]), entries(&["c"]));
    let events = vec![
        InputEvent::Other,
        key(Key::Char('x')),
        InputEvent::Key { code: Key::Char('j'), kind: KeyKind::Release },
        InputEvent::Key { code: Key::Enter, kind: KeyKind::Repeat },
        key(Key::Other),
    ];
    assert!(!s.run(&events));
    assert_eq!(s.focus(), Focus::Kept);
    assert_eq!(s.cursor(Focus::Kept), 0);
    assert_eq!(names(s.kept()), ["a", "b"]);
    assert_eq!(names(s.removed()), ["c"]);
    assert!(!s.run(&Vec::new()));
}

#[test]
fn an_event_is_applied_as_its_message() {
    let mut s = Selection::new(entries(&["a", "b"]), entries(&[]));
    assert_eq!(s.on_event(key(Key::Down)), Flow::Continue);
    assert_eq!(s.cursor(Focus::Kept), 1);
    assert_eq!(s.on_event(key(Key::Enter)), Flow::Continue);
    assert_eq!(names(s.removed()), ["b"]);
    assert_eq!(s.on_event(key(Key::Char('x'))), Flow::Continue);
    assert_eq!(s.on_event(InputEvent::Other), Flow::Continue);
    assert_eq!(s.on_event(key(Key::Char('?'))), Flow::OpenHelp);
    assert_eq!(s.on_event(key(Key::Esc)), Flow::Quit);
    assert_eq!(s.on_event(key(Key::Tab)), Flow::Continue);
    assert_eq!(s.focus(), Focus::Removed);
    assert_eq!(names(s.kept()), ["a"]);
    assert_eq!(names(s.removed()), ["b"]);
}

#[test]
fn help_page_returns_where_the_session_goes_on() {
    let events = typed("jk\tq??");
    assert_eq!(help_page(&events, 0), 4);
    assert_eq!(help_page(&events, 3), 4);
    assert_eq!(help_page(&events, 4), 5);
    assert_eq!(help_page(&events, 6), 6);
    assert_eq!(help_page(&events, 9), 6);
    assert_eq!(help_page(&typed("jjj"), 0), 3);
    assert_eq!(help_page(&typed("\n"), 0), 1);
    assert_eq!(help_page(&Vec::new(), 0), 0);
    let released = vec![InputEvent::Key { code: Key::Enter, kind: KeyKind::Release }];
    assert_eq!(help_page(&released, 0), 1);
    assert_eq!(help_page(&vec![InputEvent::Other, key(Key::Enter)], 0), 2);
}

#[test]
fn select_multiple_leaves_the_result_in_both_lists() {
    let mut selected = entries(&["vim", "gimp"]);
    let mut unselected = entries(&["bash", "zsh", "awk"]);
    // Remove "zsh", go over, keep "gimp" after all, quit.
    let quit = select_multiple(&mut selected, &mut unselected, &typed("j\n\tg\nq"));
    assert!(quit);
    assert_eq!(names(&unselected), ["bash", "awk", "gimp"]);
    assert_eq!(names(&selected), ["vim", "zsh"]);
}

#[test]
fn select_multiple_sorts_what_is_to_be_removed() {
    let mut selected = entries(&["c", "a", "b"]);
    let mut unselected = entries(&["z", "y"]);
    assert!(!select_multiple(&mut selected, &mut unselected, &Vec::new()));
    assert_eq!(names(&selected), ["a", "b", "c"]);
    assert_eq!(names(&unselected), ["z", "y"]);
}

#[test]
fn select_multiple_works_with_arrows_too() {
    let mut selected = entries(&[]);
    let mut unselected = entries(&["c", "b", "a"]);
    let events = vec![
        key(Key::End),
        key(Key::Enter),
        key(Key::Up),
        key(Key::Enter),
        key(Key::Tab),
        key(Key::Down),
        key(Key::Home),
        key(Key::Enter),
        key(Key::Esc),
    ];
    assert!(select_multiple(&mut selected, &mut unselected, &events));
    assert_eq!(names(&unselected), ["b", "a"]);
    assert_eq!(names(&selected), ["c"]);
}

#[test]
fn partition_splits_by_name() {
    let chosen = vec!["vim".to_string(), "awk".to_string(), "missing".to_string()];
    let (selected, unselected) = partition(entries(&["zsh", "vim", "bash", "awk"]), &chosen);
    assert_eq!(names(&selected), ["vim", "awk"]);
    assert_eq!(names(&unselected), ["zsh", "bash"]);
}

#[test]
fn partition_of_nothing_and_by_nothing() {
    let (selected, unselected) = partition(entries(&[]), &vec!["a".to_string()]);
    assert!(selected.is_empty());
    assert!(unselected.is_empty());
    let (selected, unselected) = partition(entries(&["b", "a"]), &Vec::new());
    assert!(selected.is_empty());
    assert_eq!(names(&unselected), ["b", "a"]);
    let (selected, unselected) =
        partition(entries(&["b", "a"]), &vec!["a".to_string(), "b".to_string()]);
    assert_eq!(names(&selected), ["b", "a"]);
    assert!(unselected.is_empty());
}

#[test]
fn a_session_splits_the_candidates_at_every_point() {
    let candidates = ["mpv", "bash", "zsh", "awk", "gimp", "vim"];
    let chosen = vec!["zsh".to_string(), "awk".to_string()];
    let script = typed("\nj\n\tG\nk\n\t\n\n\n\n\n\tgj\n");
    for cut in 0..=script.len() {
        let (mut selected, mut unselected) = partition(entries(&candidates), &chosen);
        select_multiple(&mut selected, &mut unselected, &script[..cut].to_vec());
        let kept = names(&unselected);
        let removed = names(&selected);
        assert_eq!(kept.len() + removed.len(), candidates.len());
        for name in candidates {
            let in_kept = kept.iter().filter(|n| n.as_str() == name).count();
            let in_removed = removed.iter().filter(|n| n.as_str() == name).count();
            assert_eq!(in_kept + in_removed, 1);
        }
        assert!(removed.windows(2).all(|pair| pair[0] <= pair[1]));
    }
}
