//! What a front end has to draw.
//!
//! Nothing here touches a terminal. [`render`] describes the picker's screen
//! for a selection, [`help_screen`] the help overlay; a front end turns the
//! description into whatever its terminal library draws.

use crate::entry::{names, texts, Entry};
use crate::selection::{Focus, Selection, State};
use vstd::prelude::*;

verus! {

/// The title of the panel that lists the entries to keep.
pub const KEPT_TITLE: &'static str = "Packages to be kept";

/// The title of the panel that lists the entries to remove.
pub const REMOVED_TITLE: &'static str = "Packages to be removed";

/// The hint in the status bar below the two panels.
pub const HELP_HINT: &'static str = "Press ? for help";

/// The marker in front of the highlighted row.
pub const HIGHLIGHT_SYMBOL: &'static str = ">";

/// The width of each of the two columns, in percent of the width they share.
pub const COLUMN_PERCENT: u16 = 50;

/// The height of the status bar, in lines.
pub const STATUS_HEIGHT: u16 = 1;

/// The title of the help overlay.
pub const HELP_TITLE: &'static str = "Key maps";

/// One bordered panel with a title and a list of rows.
#[derive(Debug)]
pub struct Panel {
    /// The title in the panel's border.
    pub title: String,
    /// The rows, from the top.
    pub rows: Vec<String>,
    /// The row to highlight, if any.
    pub highlighted: Option<usize>,
}

/// The picker's screen: two panels side by side, the kept list on the left
/// and the removed list on the right, and a status bar of one line below.
#[derive(Debug)]
pub struct Screen {
    pub left: Panel,
    pub right: Panel,
    /// The marker that stands in front of a highlighted row.
    pub highlight_symbol: String,
    /// The text of the status bar.
    pub status: String,
}

/// The help overlay: one bordered block around two columns of equal width,
/// the keys on the left and, row by row, what they do on the right.
#[derive(Debug)]
pub struct HelpScreen {
    /// The title in the block's border.
    pub title: String,
    pub keys: Vec<String>,
    pub meanings: Vec<String>,
}

/// The row of a list that is highlighted: the row under the cursor in the
/// list that has the focus, none in the other list, whatever its cursor, and
/// none in a list without rows.
pub open spec fn highlight(state: State, which: Focus) -> Option<usize> {
    if state.focus == which && 0 <= state.cursor(which) < state.list(which).len() {
        Some(state.cursor(which) as usize)
    } else {
        None
    }
}

/// The keys that the help overlay lists, from the top.
pub open spec fn help_keys() -> Seq<Seq<char>> {
    seq!["g"@, "G"@, "j"@, "k"@, "q"@, "<Return>"@, "<Tab>"@, "?"@]
}

/// What the keys do, in the order of `help_keys`.
pub open spec fn help_meanings() -> Seq<Seq<char>> {
    seq![
        "Go to first item"@,
        "Go to last item"@,
        "Go one item down"@,
        "Go one item up"@,
        "Close without saving"@,
        "Move item to other list"@,
        "Go to other list"@,
        "Toggle help menu"@,
    ]
}

/// The names of the entries, one row each.
fn rows_of(entries: &Vec<Entry>) -> (rows: Vec<String>)
    ensures
        texts(rows@) == names(entries@),
{
    let mut rows: Vec<String> = Vec::new();
    let mut at: usize = 0;
    while at < entries.len()
        invariant
            at <= entries.len(),
            texts(rows@) == names(entries@).take(at as int),
        decreases entries.len() - at,
    {
        let ghost before = rows@;
        rows.push(entries[at].name().to_owned());
        assert(texts(rows@) =~= texts(before).push(entries[at as int]@));
        assert(names(entries@).take(at + 1) =~= names(entries@).take(at as int).push(
            entries[at as int]@,
        ));
        at = at + 1;
    }
    assert(names(entries@).take(entries.len() as int) =~= names(entries@));
    rows
}

/// Describes the picker's screen for a selection. The selection stays as it
/// is.
pub fn render(selection: &Selection) -> (screen: Screen)
    ensures
        screen.left.title@ == KEPT_TITLE@,
        texts(screen.left.rows@) == selection@.kept,
        screen.left.highlighted == highlight(selection@, Focus::Kept),
        screen.right.title@ == REMOVED_TITLE@,
        texts(screen.right.rows@) == selection@.removed,
        screen.right.highlighted == highlight(selection@, Focus::Removed),
        screen.highlight_symbol@ == HIGHLIGHT_SYMBOL@,
        screen.status@ == HELP_HINT@,
{
    let left = Panel {
        title: KEPT_TITLE.to_owned(),
        rows: rows_of(selection.kept()),
        highlighted: highlighted_row(selection, Focus::Kept),
    };
    let right = Panel {
        title: REMOVED_TITLE.to_owned(),
        rows: rows_of(selection.removed()),
        highlighted: highlighted_row(selection, Focus::Removed),
    };
    Screen {
        left,
        right,
        highlight_symbol: HIGHLIGHT_SYMBOL.to_owned(),
        status: HELP_HINT.to_owned(),
    }
}

/// The row of one of the two lists that is to be highlighted.
pub fn highlighted_row(selection: &Selection, which: Focus) -> (row: Option<usize>)
    ensures
        row == highlight(selection@, which),
{
    let len = match which {
        Focus::Kept => selection.kept().len(),
        Focus::Removed => selection.removed().len(),
    };
    if selection.focus() == which && len > 0 {
        Some(selection.cursor(which))
    } else {
        None
    }
}

/// Describes the help overlay.
pub fn help_screen() -> (help: HelpScreen)
    ensures
        help.title@ == HELP_TITLE@,
        texts(help.keys@) == help_keys(),
        texts(help.meanings@) == help_meanings(),
{
    let mut keys: Vec<String> = Vec::new();
    let mut meanings: Vec<String> = Vec::new();
    keys.push("g".to_owned());
    meanings.push("Go to first item".to_owned());
    keys.push("G".to_owned());
    meanings.push("Go to last item".to_owned());
    keys.push("j".to_owned());
    meanings.push("Go one item down".to_owned());
    keys.push("k".to_owned());
    meanings.push("Go one item up".to_owned());
    keys.push("q".to_owned());
    meanings.push("Close without saving".to_owned());
    keys.push("<Return>".to_owned());
    meanings.push("Move item to other list".to_owned());
    keys.push("<Tab>".to_owned());
    meanings.push("Go to other list".to_owned());
    keys.push("?".to_owned());
    meanings.push("Toggle help menu".to_owned());
    assert(texts(keys@) =~= help_keys());
    assert(texts(meanings@) =~= help_meanings());
    HelpScreen { title: HELP_TITLE.to_owned(), keys, meanings }
}

} // verus!
