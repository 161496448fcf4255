use triage::entry::Entry;
use triage::input::Message;
use triage::screen::{
    help_screen, highlighted_row, render, COLUMN_PERCENT, HELP_HINT, HELP_TITLE,
    HIGHLIGHT_SYMBOL, KEPT_TITLE, REMOVED_TITLE, STATUS_HEIGHT,
};
use triage::selection::{Focus, Selection};

fn picked(kept: &[&str], removed: &[&str]) -> Selection {
    let list = |names: &[&str]| names.iter().map(|n| Entry::new(n.to_string())).collect();
    Selection::new(list(kept), list(removed))
}

#[test]
fn the_screen_shows_both_lists_under_their_titles() {
    let screen = render(&picked(&["zsh", "bash"], &["vim", "awk"]));
    assert_eq!(screen.left.title, "Packages to be kept");
    assert_eq!(screen.left.rows, ["zsh", "bash"]);
    assert_eq!(screen.right.title, "Packages to be removed");
    assert_eq!(screen.right.rows, ["awk", "vim"]);
    assert_eq!(screen.status, "Press ? for help");
    assert_eq!(screen.highlight_symbol, ">");
}

#[test]
fn the_texts_are_the_constants() {
    assert_eq!(KEPT_TITLE, "Packages to be kept");
    assert_eq!(REMOVED_TITLE, "Packages to be removed");
    assert_eq!(HELP_HINT, "Press ? for help");
    assert_eq!(HIGHLIGHT_SYMBOL, ">");
    assert_eq!(HELP_TITLE, "Key maps");
    assert_eq!(COLUMN_PERCENT, 50);
    assert_eq!(STATUS_HEIGHT, 1);
}

#[test]
fn only_the_focused_list_is_highlighted() {
    let mut s = picked(&["a", "b", "c"], &["x", "y"]);
    s.apply(Message::MoveSelection { is_down: true });
    let screen = render(&s);
    assert_eq!(screen.left.highlighted, Some(1));
    assert_eq!(screen.right.highlighted, None);
    s.apply(Message::ChangeFocus);
    let screen = render(&s);
    // The kept list keeps its cursor and shows none.
    assert_eq!(s.cursor(Focus::Kept), 1);
    assert_eq!(screen.left.highlighted, None);
    assert_eq!(screen.right.highlighted, Some(0));
    s.apply(Message::JumpSelection { to_start: false });
    assert_eq!(render(&s).right.highlighted, Some(1));
    assert_eq!(highlighted_row(&s, Focus::Removed), Some(1));
    assert_eq!(highlighted_row(&s, Focus::Kept), None);
}

#[test]
fn an_empty_list_has_no_highlighted_row() {
    let s = picked(&[], &["x"]);
    let screen = render(&s);
    assert_eq!(screen.left.rows, Vec::<String>::new());
    assert_eq!(screen.left.highlighted, None);
    assert_eq!(screen.right.highlighted, None);
    let screen = render(&picked(&[], &[]));
    assert_eq!(screen.left.highlighted, None);
    assert_eq!(screen.right.highlighted, None);
    assert!(screen.right.rows.is_empty());
}

#[test]
fn rendering_leaves_the_selection_alone() {
    let mut s = picked(&["a", "b"], &["x"]);
    s.apply(Message::MoveSelection { is_down: true });
    let first = render(&s);
    let second = render(&s);
    assert_eq!(first.left.rows, second.left.rows);
    assert_eq!(first.left.highlighted, second.left.highlighted);
    assert_eq!(s.cursor(Focus::Kept), 1);
    assert_eq!(s.focus(), Focus::Kept);
    assert_eq!(s.kept().len(), 2);
}

#[test]
fn the_help_lists_every_key_with_its_meaning() {
    let help = help_screen();
    assert_eq!(help.title, "Key maps");
    assert_eq!(help.keys, ["g", "G", "j", "k", "q", "<Return>", "<Tab>", "?"]);
    assert_eq!(
        help.meanings,
        [
            "Go to first item",
            "Go to last item",
            "Go one item down",
            "Go one item up",
            "Close without saving",
            "Move item to other list",
            "Go to other list",
            "Toggle help menu",
        ]
    );
    assert_eq!(help.keys.len(), help.meanings.len());
}
