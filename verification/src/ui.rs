//! The client as a whole: its windows, one of them active, and the keys
//! that act on the set of windows rather than on one of them.

use crate::collections::{index_after, index_before, ActiveVec};
use crate::screens::{action_of_input, after_input, title_of};
use crate::screens::{fresh_login_form, InputEvent, KeyCode, KeyModifiers, MenuStateView};
use crate::screens::{Window, WindowAction, WindowActionView};
use vstd::prelude::*;

verus! {

/// The title of a tab, and whether the tab is the active one.
pub enum TabTitle {
    Active(String),
    Inactive(String),
}

/// What a [`TabTitle`] stands for in contracts.
pub enum TabTitleView {
    Active(Seq<char>),
    Inactive(Seq<char>),
}

impl View for TabTitle {
    type V = TabTitleView;

    open spec fn view(&self) -> TabTitleView {
        match *self {
            TabTitle::Active(title) => TabTitleView::Active(title@),
            TabTitle::Inactive(title) => TabTitleView::Inactive(title@),
        }
    }
}

/// What the client asks of whoever runs it.
pub enum AppAction {
    /// Leave the program.
    Quit,
    /// Nothing.
    Nothing,
    /// What the active window asks for.
    Window(WindowAction),
}

/// What an [`AppAction`] stands for in contracts.
pub enum AppActionView {
    Quit,
    Nothing,
    Window(WindowActionView),
}

impl View for AppAction {
    type V = AppActionView;

    open spec fn view(&self) -> AppActionView {
        match *self {
            AppAction::Quit => AppActionView::Quit,
            AppAction::Nothing => AppActionView::Nothing,
            AppAction::Window(action) => AppActionView::Window(action@),
        }
    }
}

/// What the client stands for in contracts: its windows, and the index of
/// the active one.
pub struct AppView {
    pub windows: Seq<MenuStateView>,
    pub active: Option<usize>,
}

/// What a key means to the client.
pub enum Command {
    /// Control and `q`: leave.
    Quit,
    /// Control and `n`: open a window and go to the window after the
    /// active one.
    NewWindow,
    /// Tab: go to the next window.
    NextWindow,
    /// Backtab: go to the window before.
    PreviousWindow,
    /// Any other key: it goes to the active window.
    ToWindow,
    /// Not a key: it is ignored.
    Ignored,
}

/// What `event` means to the client. Whether a key went down or came up
/// makes no difference here.
pub open spec fn command_of(event: InputEvent) -> Command {
    match event {
        InputEvent::Other => Command::Ignored,
        InputEvent::Key { code, modifiers, kind: _ } => if code == KeyCode::Char('q') && modifiers
            == KeyModifiers::Control {
            Command::Quit
        } else if code == KeyCode::Char('n') && modifiers == KeyModifiers::Control {
            Command::NewWindow
        } else if code == KeyCode::Tab {
            Command::NextWindow
        } else if code == KeyCode::BackTab {
            Command::PreviousWindow
        } else {
            Command::ToWindow
        },
    }
}

impl AppView {
    /// The invariant: there is an active window exactly when there is a
    /// window.
    pub open spec fn wf(self) -> bool {
        match self.active {
            Some(i) => i < self.windows.len(),
            None => self.windows.len() == 0,
        }
    }

    /// The client after `event`.
    pub open spec fn after_event(self, event: InputEvent) -> AppView {
        match command_of(event) {
            Command::Quit => self,
            Command::Ignored => self,
            Command::NewWindow => {
                let windows = self.windows.push(MenuStateView::Login(fresh_login_form()));
                let active = if self.active is None {
                    Some(0usize)
                } else {
                    self.active
                };
                AppView { windows, active: index_after(active, windows.len()) }
            },
            Command::NextWindow => AppView {
                active: index_after(self.active, self.windows.len()),
                ..self
            },
            Command::PreviousWindow => AppView {
                active: index_before(self.active, self.windows.len()),
                ..self
            },
            Command::ToWindow => match self.active {
                Some(i) => AppView {
                    windows: self.windows.update(i as int, after_input(self.windows[i as int], event)),
                    ..self
                },
                None => self,
            },
        }
    }

    /// What the client asks for on `event`.
    pub open spec fn action_of_event(self, event: InputEvent) -> AppActionView {
        match command_of(event) {
            Command::Quit => AppActionView::Quit,
            Command::ToWindow => match self.active {
                Some(i) => AppActionView::Window(action_of_input(self.windows[i as int], event)),
                None => AppActionView::Nothing,
            },
            _ => AppActionView::Nothing,
        }
    }

    /// The titles of the tabs: one for each window, that of the active
    /// window marked.
    pub open spec fn tab_titles(self) -> Seq<TabTitleView> {
        match self.active {
            Some(active) => Seq::new(
                self.windows.len(),
                |i: int|
                    if i == active {
                        TabTitleView::Active(title_of(self.windows[i]))
                    } else {
                        TabTitleView::Inactive(title_of(self.windows[i]))
                    },
            ),
            None => Seq::empty(),
        }
    }
}

/// The views of a list of windows, one of which was replaced, are the views
/// of the list with the view of the new window in that place.
proof fn lemma_update_views(windows: Seq<Window>)
    ensures
        forall|i: int, w: Window|
            0 <= i < windows.len() ==> (#[trigger] windows.update(i, w)).map_values(
                |w: Window| w@,
            ) == windows.map_values(|w: Window| w@).update(i, w@),
{
    assert forall|i: int, w: Window| 0 <= i < windows.len() implies (#[trigger] windows.update(
        i,
        w,
    )).map_values(|w: Window| w@) == windows.map_values(|w: Window| w@).update(i, w@) by {
        assert(windows.update(i, w).map_values(|w: Window| w@) =~= windows.map_values(
            |w: Window| w@,
        ).update(i, w@));
    }
}

/// The windows of the client.
pub struct App {
    screens: ActiveVec<Window>,
}

impl View for App {
    type V = AppView;

    closed spec fn view(&self) -> AppView {
        AppView {
            windows: self.screens.items().map_values(|w: Window| w@),
            active: self.screens.active(),
        }
    }
}

impl App {
    /// A client with one window, a login form.
    pub fn new() -> (app: App)
        ensures
            app@.wf(),
            app@.windows == seq![MenuStateView::Login(fresh_login_form())],
            app@.active == Some(0usize),
    {
        let mut screens: ActiveVec<Window> = ActiveVec::new();
        screens.push(Window::new());
        let app = App { screens };
        assert(app@.windows =~= seq![MenuStateView::Login(fresh_login_form())]);
        app
    }

    /// The titles of the tabs.
    pub fn tab_titles(&self) -> (titles: Vec<TabTitle>)
        requires
            self@.wf(),
        ensures
            titles@.map_values(|t: TabTitle| t@) == self@.tab_titles(),
    {
        let mut titles: Vec<TabTitle> = Vec::new();
        let ghost view = |t: TabTitle| t@;
        match self.screens.get_active_index() {
            None => {
                assert(titles@.map_values(view) =~= self@.tab_titles());
            },
            Some(active) => {
                let count = self.screens.len();
                let mut i: usize = 0;
                while i < count
                    invariant
                        i <= count,
                        count == self.screens.items().len(),
                        self@.active == Some(active),
                        titles@.len() == i,
                        forall|k: int|
                            0 <= k < i ==> (#[trigger] titles@[k])@ == self@.tab_titles()[k],
                    decreases count - i,
                {
                    let title = self.screens.get(i).title();
                    if i == active {
                        titles.push(TabTitle::Active(title));
                    } else {
                        titles.push(TabTitle::Inactive(title));
                    }
                    i += 1;
                }
                assert(titles@.map_values(view) =~= self@.tab_titles());
            },
        }
        titles
    }

    /// The active window, to draw it.
    pub fn active_window(&self) -> (window: Option<&Window>)
        requires
            self@.wf(),
        ensures
            match self@.active {
                Some(i) => window matches Some(w) && w@ == self@.windows[i as int],
                None => window is None,
            },
    {
        self.screens.get_active()
    }

    /// The active window, to report to it how what it asked for went. What
    /// the caller makes of the window is the active window afterwards;
    /// nothing else changes.
    pub fn active_window_mut(&mut self) -> (window: Option<&mut Window>)
        requires
            old(self)@.wf(),
        ensures
            final(self)@.wf(),
            final(self)@.active == old(self)@.active,
            match old(self)@.active {
                Some(i) => window matches Some(w) && w@ == old(self)@.windows[i as int]
                    && final(self)@.windows == old(self)@.windows.update(i as int, final(w)@),
                None => window is None && final(self)@.windows == old(self)@.windows,
            },
    {
        proof {
            lemma_update_views(self.screens.items());
        }
        self.screens.get_active_mut()
    }

    /// Takes an event from the terminal, and returns what the client asks
    /// for in answer to it.
    pub fn handle_event(&mut self, event: &InputEvent) -> (action: AppAction)
        requires
            old(self)@.wf(),
        ensures
            final(self)@.wf(),
            final(self)@ == old(self)@.after_event(*event),
            action@ == old(self)@.action_of_event(*event),
    {
        let (code, modifiers) = match event {
            InputEvent::Other => {
                return AppAction::Nothing;
            },
            InputEvent::Key { code, modifiers, kind: _ } => (*code, *modifiers),
        };
        let ghost before = self@;
        if code == KeyCode::Char('q') && modifiers == KeyModifiers::Control {
            AppAction::Quit
        } else if code == KeyCode::Char('n') && modifiers == KeyModifiers::Control {
            self.screens.push(Window::new());
            self.screens.next();
            assert(self@.windows =~= before.after_event(*event).windows);
            AppAction::Nothing
        } else if code == KeyCode::Tab {
            self.screens.next();
            AppAction::Nothing
        } else if code == KeyCode::BackTab {
            self.screens.prev();
            AppAction::Nothing
        } else {
            proof {
                lemma_update_views(self.screens.items());
            }
            match self.screens.get_active_mut() {
                Some(screen) => AppAction::Window(screen.handle_input(event)),
                None => AppAction::Nothing,
            }
        }
    }
}

} // verus!
