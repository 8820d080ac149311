//! What a key press does, by the key bindings and the view that is shown.

use crate::config::resolve_action;
use crate::config::spec_bindings;
use crate::config::spec_resolve;
use crate::config::Action;
use crate::config::Modifiers;
use crate::stories::SearchMode;
use crate::stories::SortOption;
use vstd::prelude::*;

verus! {

/// The views of the application.
#[derive(Debug, Clone, Copy, PartialEq, Eq, Structural)]
pub enum ViewKind {
    /// The list of stories.
    List,
    /// One story with its comments.
    Story,
    /// A web page.
    Webview,
    /// The bookmarks.
    Bookmarks,
    /// The viewing history.
    History,
    /// The editor of themes.
    ThemeEditor,
    /// The log.
    LogViewer,
}

/// A move of the scroll position.
#[derive(Debug, Clone, Copy, PartialEq, Eq, Structural)]
pub enum ScrollMove {
    /// One step down.
    Down,
    /// One step up.
    Up,
    /// To the top.
    ToTop,
}

/// What the application does on a key press.
#[derive(Debug, Clone, Copy, PartialEq, Eq, Structural)]
pub enum Command {
    /// Nothing.
    Ignore,
    /// Quit the application.
    Quit,
    /// Show the list of stories.
    ShowStories,
    /// Put the focus on the search field.
    FocusSearch,
    /// Search in this mode from now on.
    SetSearchMode(SearchMode),
    /// Order the stories by this option from now on.
    SetSortOption(SortOption),
    /// Order the stories in the other direction.
    ToggleSortOrder,
    /// Scroll the view that is shown.
    Scroll(ScrollMove),
    /// Toggle the bookmark of the story that is shown.
    ToggleBookmark,
    /// Show the bookmarks.
    ShowBookmarks,
    /// Show the viewing history.
    ShowHistory,
    /// Clear the viewing history.
    ClearHistory,
    /// Open the editor of themes.
    OpenThemeEditor,
    /// Show the log.
    ShowLogViewer,
}

/// Whether a view scrolls on the scroll actions: the views of lists and the
/// view of a story do, the others scroll by themselves.
pub open spec fn spec_scrolls(view: ViewKind) -> bool {
    view == ViewKind::List || view == ViewKind::Story || view == ViewKind::Bookmarks || view
        == ViewKind::History
}

/// What an action does in a view.
///
/// Going back leads from bookmarks, history, theme editor and log to the
/// list of stories, and does nothing elsewhere. The search mode and the
/// sort option move on in their cycles. A bookmark is toggled only in the
/// view of a story, the history is cleared only in the view of the history.
pub open spec fn spec_command(
    action: Action,
    view: ViewKind,
    search_mode: SearchMode,
    sort_option: SortOption,
) -> Command {
    match action {
        Action::Quit => Command::Quit,
        Action::Back => if view == ViewKind::Bookmarks || view == ViewKind::History || view
            == ViewKind::ThemeEditor || view == ViewKind::LogViewer {
            Command::ShowStories
        } else {
            Command::Ignore
        },
        Action::FocusSearch => Command::FocusSearch,
        Action::CycleSearchMode => Command::SetSearchMode(search_mode.spec_next()),
        Action::CycleSortOption => Command::SetSortOption(sort_option.spec_next()),
        Action::ToggleSortOrder => Command::ToggleSortOrder,
        Action::ScrollDown => if spec_scrolls(view) {
            Command::Scroll(ScrollMove::Down)
        } else {
            Command::Ignore
        },
        Action::ScrollUp => if spec_scrolls(view) {
            Command::Scroll(ScrollMove::Up)
        } else {
            Command::Ignore
        },
        Action::ScrollToTop => if spec_scrolls(view) {
            Command::Scroll(ScrollMove::ToTop)
        } else {
            Command::Ignore
        },
        Action::ToggleBookmark => if view == ViewKind::Story {
            Command::ToggleBookmark
        } else {
            Command::Ignore
        },
        Action::ShowBookmarks => Command::ShowBookmarks,
        Action::ShowHistory => Command::ShowHistory,
        Action::ClearHistory => if view == ViewKind::History {
            Command::ClearHistory
        } else {
            Command::Ignore
        },
        Action::OpenThemeEditor => Command::OpenThemeEditor,
        Action::ShowLogViewer => Command::ShowLogViewer,
        Action::Unbound => Command::Ignore,
    }
}

fn scrolls(view: ViewKind) -> (scrolls: bool)
    ensures
        scrolls == spec_scrolls(view),
{
    match view {
        ViewKind::List | ViewKind::Story | ViewKind::Bookmarks | ViewKind::History => true,
        ViewKind::Webview | ViewKind::ThemeEditor | ViewKind::LogViewer => false,
    }
}

fn scroll(view: ViewKind, by: ScrollMove) -> (command: Command)
    ensures
        command == if spec_scrolls(view) {
            Command::Scroll(by)
        } else {
            Command::Ignore
        },
{
    if scrolls(view) {
        Command::Scroll(by)
    } else {
        Command::Ignore
    }
}

/// Says what an action does in a view.
pub fn command_for(action: Action, view: ViewKind, search_mode: SearchMode, sort_option: SortOption) -> (command:
    Command)
    ensures
        command == spec_command(action, view, search_mode, sort_option),
{
    match action {
        Action::Quit => Command::Quit,
        Action::Back => match view {
            ViewKind::Bookmarks | ViewKind::History | ViewKind::ThemeEditor | ViewKind::LogViewer => Command::ShowStories,
            _ => Command::Ignore,
        },
        Action::FocusSearch => Command::FocusSearch,
        Action::CycleSearchMode => Command::SetSearchMode(search_mode.next()),
        Action::CycleSortOption => Command::SetSortOption(sort_option.next()),
        Action::ToggleSortOrder => Command::ToggleSortOrder,
        Action::ScrollDown => scroll(view, ScrollMove::Down),
        Action::ScrollUp => scroll(view, ScrollMove::Up),
        Action::ScrollToTop => scroll(view, ScrollMove::ToTop),
        Action::ToggleBookmark => match view {
            ViewKind::Story => Command::ToggleBookmark,
            _ => Command::Ignore,
        },
        Action::ShowBookmarks => Command::ShowBookmarks,
        Action::ShowHistory => Command::ShowHistory,
        Action::ClearHistory => match view {
            ViewKind::History => Command::ClearHistory,
            _ => Command::Ignore,
        },
        Action::OpenThemeEditor => Command::OpenThemeEditor,
        Action::ShowLogViewer => Command::ShowLogViewer,
        Action::Unbound => Command::Ignore,
    }
}

/// Says what the press of `key` with `modifiers` does in a view: what the
/// action does that the bindings give the key.
pub fn handle_key_down(
    bindings: &Vec<(String, Action)>,
    modifiers: Modifiers,
    key: &str,
    view: ViewKind,
    search_mode: SearchMode,
    sort_option: SortOption,
) -> (command: Command)
    ensures
        command == spec_command(
            spec_resolve(spec_bindings(bindings@), modifiers, key@),
            view,
            search_mode,
            sort_option,
        ),
{
    command_for(resolve_action(bindings, modifiers, key), view, search_mode, sort_option)
}

/// A key that is not bound does nothing, and no key press in the view of a
/// web page, of the theme editor or of the log scrolls the view.
pub proof fn law_unbound_keys_do_nothing(
    view: ViewKind,
    search_mode: SearchMode,
    sort_option: SortOption,
    action: Action,
    by: ScrollMove,
)
    ensures
        spec_command(Action::Unbound, view, search_mode, sort_option) == Command::Ignore,
        !spec_scrolls(view) ==> spec_command(action, view, search_mode, sort_option)
            != Command::Scroll(by),
{
}

} // verus!
