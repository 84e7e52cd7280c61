//! From key presses to events, and from events to what the browser does.

use crate::browser::App;
use vstd::prelude::*;
use vstd::string::StringExecFns;

verus! {

/// The key of a key event, as far as the browser tells keys apart.
#[derive(Debug, Clone, Copy, PartialEq, Eq, Structural)]
pub enum Key {
    Char(char),
    Enter,
    Esc,
    Up,
    Down,
    Other,
}

/// Whether a key went down, is held, or came up.
#[derive(Debug, Clone, Copy, PartialEq, Eq, Structural)]
pub enum KeyKind {
    Press,
    Repeat,
    Release,
}

/// One key event: the key, whether the control modifier is held, whether
/// any other modifier is held, and the kind of event.
#[derive(Debug, Clone, Copy, PartialEq, Eq, Structural)]
pub struct KeyInput {
    pub key: Key,
    pub control: bool,
    pub other_modifiers: bool,
    pub kind: KeyKind,
}

/// What the user asks of the browser.
#[derive(Debug, Clone, Copy, PartialEq, Eq, Structural)]
pub enum Event {
    NavigateDown,
    NavigateUp,
    Activate,
    CopySelection,
    Quit,
    Other,
}

/// What the caller is to do after an event.
#[derive(Debug, Clone, PartialEq, Eq)]
pub enum Action {
    /// Nothing beyond showing the next frame.
    Continue,
    /// Open this address in a browser.
    OpenUrl(String),
    /// Put this text on the clipboard.
    WriteClipboard(String),
    /// Leave the loop.
    Quit,
}

/// Model of an `Action`.
pub enum ActionModel {
    Continue,
    OpenUrl(Seq<char>),
    WriteClipboard(Seq<char>),
    Quit,
}

impl DeepView for Action {
    type V = ActionModel;

    open spec fn deep_view(&self) -> ActionModel {
        match self {
            Action::Continue => ActionModel::Continue,
            Action::OpenUrl(url) => ActionModel::OpenUrl(url@),
            Action::WriteClipboard(text) => ActionModel::WriteClipboard(text@),
            Action::Quit => ActionModel::Quit,
        }
    }
}

/// The event that a key event stands for. Only presses count. `q` and
/// escape quit, the arrows and `j`, `k` navigate, enter activates, and `c`
/// with control and no other modifier copies.
pub open spec fn event_of(input: KeyInput) -> Event {
    if input.kind != KeyKind::Press {
        Event::Other
    } else {
        match input.key {
            Key::Char('q') => Event::Quit,
            Key::Esc => Event::Quit,
            Key::Down => Event::NavigateDown,
            Key::Char('j') => Event::NavigateDown,
            Key::Up => Event::NavigateUp,
            Key::Char('k') => Event::NavigateUp,
            Key::Enter => Event::Activate,
            Key::Char('c') => if input.control && !input.other_modifiers {
                Event::CopySelection
            } else {
                Event::Other
            },
            _ => Event::Other,
        }
    }
}

/// Maps a key event to the event that it stands for.
pub fn event_for_key(input: KeyInput) -> (event: Event)
    ensures
        event == event_of(input),
{
    match input.kind {
        KeyKind::Press => match input.key {
            Key::Esc => Event::Quit,
            Key::Down => Event::NavigateDown,
            Key::Up => Event::NavigateUp,
            Key::Enter => Event::Activate,
            Key::Char(c) => {
                if c == 'q' {
                    Event::Quit
                } else if c == 'j' {
                    Event::NavigateDown
                } else if c == 'k' {
                    Event::NavigateUp
                } else if c == 'c' && input.control && !input.other_modifiers {
                    Event::CopySelection
                } else {
                    Event::Other
                }
            },
            Key::Other => Event::Other,
        },
        _ => Event::Other,
    }
}

/// The address of the profile of `username`.
pub open spec fn profile_url_of(username: Seq<char>) -> Seq<char> {
    "https://www.instagram.com/"@ + username + "/"@
}

/// Builds the address of the profile of `username`.
pub fn profile_url(username: &str) -> (url: String)
    ensures
        url@ == profile_url_of(username@),
{
    let mut url = String::from_str("https://www.instagram.com/");
    url.append(username);
    url.append("/");
    url
}

/// The action that `event` leads to in a browser with the given list and
/// selection.
pub open spec fn action_of(items: Seq<Seq<char>>, selected: int, event: Event) -> ActionModel {
    match event {
        Event::Quit => ActionModel::Quit,
        Event::Activate => if items.len() > 0 {
            ActionModel::OpenUrl(profile_url_of(items[selected]))
        } else {
            ActionModel::Continue
        },
        Event::CopySelection => if items.len() > 0 {
            ActionModel::WriteClipboard(items[selected])
        } else {
            ActionModel::Continue
        },
        _ => ActionModel::Continue,
    }
}

/// The selection after `event`.
pub open spec fn selection_after(len: int, selected: int, event: Event) -> int {
    match event {
        Event::NavigateDown => if selected + 1 < len {
            selected + 1
        } else {
            selected
        },
        Event::NavigateUp => if selected > 0 {
            selected - 1
        } else {
            0
        },
        _ => selected,
    }
}

/// The selection after each event of `events` in turn.
pub open spec fn selection_after_all(len: int, selected: int, events: Seq<Event>) -> int
    decreases events.len(),
{
    if events.len() == 0 {
        selected
    } else {
        selection_after(len, selection_after_all(len, selected, events.drop_last()), events.last())
    }
}

/// No sequence of events moves the selection off the list.
pub proof fn lemma_selection_stays_on_list(len: int, selected: int, events: Seq<Event>)
    requires
        0 <= selected < len,
    ensures
        0 <= selection_after_all(len, selected, events) < len,
    decreases events.len(),
{
    if events.len() > 0 {
        lemma_selection_stays_on_list(len, selected, events.drop_last());
    }
}

/// Navigating down on the last row, or up on the first, changes nothing.
pub proof fn lemma_selection_stops_at_ends(len: int)
    requires
        0 < len,
    ensures
        selection_after(len, len - 1, Event::NavigateDown) == len - 1,
        selection_after(len, 0, Event::NavigateUp) == 0,
{
}

/// Reacts to one event: navigation moves the selection, activation and
/// copying ask the caller to act on the selected name, and nothing else
/// changes the browser.
pub fn dispatch(app: &mut App, event: Event) -> (action: Action)
    ensures
        final(app).items() == old(app).items(),
        final(app).offset() == old(app).offset(),
        final(app).selected_index() == selection_after(
            old(app).items().len() as int,
            old(app).selected_index(),
            event,
        ),
        action.deep_view() == action_of(old(app).items(), old(app).selected_index(), event),
{
    match event {
        Event::NavigateDown => {
            app.next();
            Action::Continue
        },
        Event::NavigateUp => {
            app.previous();
            Action::Continue
        },
        Event::Activate => match app.get_selected_username() {
            Some(username) => Action::OpenUrl(profile_url(username.as_str())),
            None => Action::Continue,
        },
        Event::CopySelection => match app.get_selected_username() {
            Some(username) => Action::WriteClipboard(username.clone()),
            None => Action::Continue,
        },
        Event::Quit => Action::Quit,
        Event::Other => Action::Continue,
    }
}

} // verus!
