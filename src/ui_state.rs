//! What the terminal front end decides on a key press: popups, list
//! selections and the command to run. Drawing and the commands themselves
//! are the front end's.
use vstd::prelude::*;
use crate::models::ApiProvider;

verus! {

/// The message and error popups and the two selection popups.
#[derive(Clone, Debug)]
pub struct PopupManager {
    pub message: Option<String>,
    pub error: Option<String>,
    pub show_api_selector: bool,
    pub show_database_reset: bool,
}

impl PopupManager {
    pub fn new() -> (r: PopupManager)
        ensures
            r.message is None,
            r.error is None,
            !r.show_api_selector,
            !r.show_database_reset,
    {
        PopupManager { message: None, error: None, show_api_selector: false, show_database_reset: false }
    }

    pub fn show_message(&mut self, message: &str)
        ensures
            final(self).message matches Some(m) && m@ == message@,
            final(self).error == old(self).error,
            final(self).show_api_selector == old(self).show_api_selector,
            final(self).show_database_reset == old(self).show_database_reset,
    {
        self.message = Some(message.to_owned());
    }

    pub fn clear_message(&mut self)
        ensures
            *final(self) == (PopupManager { message: None, ..*old(self) }),
    {
        self.message = None;
    }

    pub fn show_error(&mut self, message: &str)
        ensures
            final(self).error matches Some(m) && m@ == message@,
            final(self).message == old(self).message,
            final(self).show_api_selector == old(self).show_api_selector,
            final(self).show_database_reset == old(self).show_database_reset,
    {
        self.error = Some(message.to_owned());
    }

    pub fn clear_error(&mut self)
        ensures
            *final(self) == (PopupManager { error: None, ..*old(self) }),
    {
        self.error = None;
    }

    pub fn has_error(&self) -> (r: bool)
        ensures
            r == self.error is Some,
    {
        self.error.is_some()
    }

    /// Whether a selection popup is open.
    pub fn has_any_popup(&self) -> (r: bool)
        ensures
            r == (self.show_api_selector || self.show_database_reset),
    {
        self.show_api_selector || self.show_database_reset
    }
}

/// The entry above the selected one, wrapping to the last; the first where
/// nothing is selected.
pub open spec fn entry_above(selected: Option<usize>, list_len: usize) -> usize {
    match selected {
        Some(i) => if i == 0 { (list_len - 1) as usize } else { (i - 1) as usize },
        None => 0,
    }
}

/// The entry below the selected one, wrapping to the first; the first where
/// nothing is selected.
pub open spec fn entry_below(selected: Option<usize>, list_len: usize) -> usize {
    match selected {
        Some(i) => if i >= list_len - 1 { 0 } else { (i + 1) as usize },
        None => 0,
    }
}

pub fn navigate_up(selected: Option<usize>, list_len: usize) -> (r: usize)
    requires
        selected is None || list_len > 0,
    ensures
        r == entry_above(selected, list_len),
        selected matches Some(i) && i < list_len ==> r < list_len,
{
    match selected {
        Some(i) => if i == 0 { list_len - 1 } else { i - 1 },
        None => 0,
    }
}

pub fn navigate_down(selected: Option<usize>, list_len: usize) -> (r: usize)
    requires
        selected is None || list_len > 0,
    ensures
        r == entry_below(selected, list_len),
        list_len > 0 ==> r < list_len,
{
    match selected {
        Some(i) => if i >= list_len - 1 { 0 } else { i + 1 },
        None => 0,
    }
}

/// The number of entries of the database reset popup: cancel, clear the
/// transactions, clear everything.
pub const RESET_CHOICES: usize = 3;

/// The providers offered in the provider popup, in their order.
pub open spec fn offered_provider(i: usize) -> Option<ApiProvider> {
    if i == 0 {
        Some(ApiProvider::AlphaVantage)
    } else if i == 1 {
        Some(ApiProvider::Fmp)
    } else if i == 2 {
        Some(ApiProvider::Marketstack)
    } else {
        None
    }
}

pub const PROVIDER_CHOICES: usize = 3;

pub fn provider_at(i: usize) -> (r: Option<ApiProvider>)
    ensures
        r == offered_provider(i),
{
    if i == 0 {
        Some(ApiProvider::AlphaVantage)
    } else if i == 1 {
        Some(ApiProvider::Fmp)
    } else if i == 2 {
        Some(ApiProvider::Marketstack)
    } else {
        None
    }
}

/// A key press, as far as the front end tells them apart.
#[derive(Clone, Copy, Debug, PartialEq, Eq, Structural)]
pub enum Key {
    Char(char),
    Enter,
    Esc,
    Up,
    Down,
    F(u8),
    Other,
}

/// The command that a key press asks the front end to run.
#[derive(Clone, Copy, Debug, PartialEq, Eq, Structural)]
pub enum Action {
    Nothing,
    Quit,
    ImportTransactions,
    UpdatePrices,
    SetDefaultApi(ApiProvider),
    /// Clear the transactions, and the tickers too where asked.
    ResetDatabase { include_tickers: bool },
}

/// The selections and popups of the front end.
#[derive(Clone, Debug)]
pub struct UiState {
    pub popups: PopupManager,
    pub selection_mode: bool,
    pub table_selected: Option<usize>,
    pub api_selected: Option<usize>,
    pub reset_selected: Option<usize>,
}

/// The state after the holdings table is deselected.
pub open spec fn deselected(s: UiState) -> UiState {
    UiState { selection_mode: false, table_selected: None, ..s }
}

/// The state and command after a key press in the provider popup.
pub open spec fn after_api_key(s: UiState, key: Key) -> (UiState, Action) {
    let s = deselected(s);
    match key {
        Key::Esc => (UiState { popups: PopupManager { show_api_selector: false, ..s.popups }, ..s }, Action::Nothing),
        Key::Down => (UiState { api_selected: Some(entry_below(s.api_selected, PROVIDER_CHOICES)), ..s }, Action::Nothing),
        Key::Up => (UiState { api_selected: Some(entry_above(s.api_selected, PROVIDER_CHOICES)), ..s }, Action::Nothing),
        Key::Enter => match s.api_selected {
            Some(i) => match offered_provider(i) {
                Some(p) => (UiState { popups: PopupManager { show_api_selector: false, ..s.popups }, ..s }, Action::SetDefaultApi(p)),
                None => (s, Action::Nothing),
            },
            None => (s, Action::Nothing),
        },
        _ => (s, Action::Nothing),
    }
}

/// The state and command after a key press in the database reset popup.
pub open spec fn after_reset_key(s: UiState, key: Key) -> (UiState, Action) {
    let s = deselected(s);
    let closed = UiState { popups: PopupManager { show_database_reset: false, ..s.popups }, selection_mode: true, ..s };
    match key {
        Key::Esc => (UiState { popups: PopupManager { show_database_reset: false, ..s.popups }, ..s }, Action::Nothing),
        Key::Down => (UiState { reset_selected: Some(entry_below(s.reset_selected, RESET_CHOICES)), ..s }, Action::Nothing),
        Key::Up => (UiState { reset_selected: Some(entry_above(s.reset_selected, RESET_CHOICES)), ..s }, Action::Nothing),
        Key::Enter => match s.reset_selected {
            Some(0) => (closed, Action::Nothing),
            Some(1) => (closed, Action::ResetDatabase { include_tickers: false }),
            Some(2) => (closed, Action::ResetDatabase { include_tickers: true }),
            _ => (s, Action::Nothing),
        },
        _ => (s, Action::Nothing),
    }
}

/// The state after an arrow key over the holdings table of `rows` rows.
pub open spec fn after_table_key(s: UiState, key: Key, rows: usize) -> UiState {
    let s = if !(s.popups.show_api_selector || s.popups.show_database_reset) {
        UiState { selection_mode: true, ..s }
    } else {
        s
    };
    if rows == 0 {
        s
    } else {
        match key {
            Key::Down => UiState { table_selected: Some(entry_below(s.table_selected, rows)), ..s },
            Key::Up => UiState { table_selected: Some(entry_above(s.table_selected, rows)), ..s },
            _ => s,
        }
    }
}

/// The state and command after a key press.
pub open spec fn after_key(s: UiState, key: Key, rows: usize) -> (UiState, Action) {
    if s.popups.show_api_selector {
        after_api_key(s, key)
    } else if s.popups.show_database_reset {
        after_reset_key(s, key)
    } else {
        match key {
            Key::Char(c) => if c == 'q' { (s, Action::Quit) } else { (s, Action::Nothing) },
            Key::Enter => if s.popups.error is Some {
                (UiState { popups: PopupManager { error: None, ..s.popups }, ..s }, Action::Nothing)
            } else {
                (s, Action::Nothing)
            },
            Key::Esc => if s.popups.error is Some {
                (UiState { popups: PopupManager { error: None, ..s.popups }, ..s }, Action::Nothing)
            } else {
                (deselected(s), Action::Nothing)
            },
            Key::F(n) => if n == 4 {
                (s, Action::ImportTransactions)
            } else if n == 5 {
                (s, Action::UpdatePrices)
            } else if n == 8 {
                let d = deselected(s);
                (UiState { popups: PopupManager { show_api_selector: true, ..d.popups }, ..d }, Action::Nothing)
            } else if n == 12 {
                let d = deselected(s);
                (UiState { popups: PopupManager { show_database_reset: true, ..d.popups }, ..d }, Action::Nothing)
            } else {
                (s, Action::Nothing)
            },
            Key::Up => (after_table_key(s, key, rows), Action::Nothing),
            Key::Down => (after_table_key(s, key, rows), Action::Nothing),
            Key::Other => (s, Action::Nothing),
        }
    }
}

impl UiState {
    /// Nothing selected in the table, the first entry of each popup list.
    pub fn new() -> (r: UiState)
        ensures
            r.popups.message is None && r.popups.error is None,
            !r.popups.show_api_selector && !r.popups.show_database_reset,
            !r.selection_mode,
            r.table_selected is None,
            r.api_selected == Some(0usize),
            r.reset_selected == Some(0usize),
    {
        UiState {
            popups: PopupManager::new(),
            selection_mode: false,
            table_selected: None,
            api_selected: Some(0),
            reset_selected: Some(0),
        }
    }

    pub fn deselect_table(&mut self)
        ensures
            *final(self) == deselected(*old(self)),
    {
        self.selection_mode = false;
        self.table_selected = None;
    }

    fn handle_api_popup_key(&mut self, key: Key) -> (r: Action)
        ensures
            (*final(self), r) == after_api_key(*old(self), key),
    {
        self.deselect_table();
        match key {
            Key::Esc => {
                self.popups.show_api_selector = false;
                Action::Nothing
            },
            Key::Down => {
                self.api_selected = Some(navigate_down(self.api_selected, PROVIDER_CHOICES));
                Action::Nothing
            },
            Key::Up => {
                self.api_selected = Some(navigate_up(self.api_selected, PROVIDER_CHOICES));
                Action::Nothing
            },
            Key::Enter => match self.api_selected {
                Some(i) => match provider_at(i) {
                    Some(p) => {
                        self.popups.show_api_selector = false;
                        Action::SetDefaultApi(p)
                    },
                    None => Action::Nothing,
                },
                None => Action::Nothing,
            },
            _ => Action::Nothing,
        }
    }

    fn handle_reset_popup_key(&mut self, key: Key) -> (r: Action)
        ensures
            (*final(self), r) == after_reset_key(*old(self), key),
    {
        self.deselect_table();
        match key {
            Key::Esc => {
                self.popups.show_database_reset = false;
                Action::Nothing
            },
            Key::Down => {
                self.reset_selected = Some(navigate_down(self.reset_selected, RESET_CHOICES));
                Action::Nothing
            },
            Key::Up => {
                self.reset_selected = Some(navigate_up(self.reset_selected, RESET_CHOICES));
                Action::Nothing
            },
            Key::Enter => {
                let action = match self.reset_selected {
                    Some(0) => Action::Nothing,
                    Some(1) => Action::ResetDatabase { include_tickers: false },
                    Some(2) => Action::ResetDatabase { include_tickers: true },
                    _ => return Action::Nothing,
                };
                self.popups.show_database_reset = false;
                self.selection_mode = true;
                action
            },
            _ => Action::Nothing,
        }
    }

    fn handle_table_navigation(&mut self, key: Key, rows: usize)
        ensures
            *final(self) == after_table_key(*old(self), key, rows),
    {
        if !self.popups.has_any_popup() {
            self.selection_mode = true;
        }
        if rows == 0 {
            return;
        }
        match key {
            Key::Down => {
                self.table_selected = Some(navigate_down(self.table_selected, rows));
            },
            Key::Up => {
                self.table_selected = Some(navigate_up(self.table_selected, rows));
            },
            _ => {},
        }
    }

    /// Applies a key press with `rows` holdings on screen and returns the
    /// command to run.
    pub fn handle_key(&mut self, key: Key, rows: usize) -> (r: Action)
        ensures
            (*final(self), r) == after_key(*old(self), key, rows),
    {
        if self.popups.show_api_selector {
            return self.handle_api_popup_key(key);
        }
        if self.popups.show_database_reset {
            return self.handle_reset_popup_key(key);
        }
        match key {
            Key::Char(c) => if c == 'q' { Action::Quit } else { Action::Nothing },
            Key::Enter => {
                if self.popups.has_error() {
                    self.popups.clear_error();
                }
                Action::Nothing
            },
            Key::Esc => {
                if self.popups.has_error() {
                    self.popups.clear_error();
                } else {
                    self.deselect_table();
                }
                Action::Nothing
            },
            Key::F(n) => if n == 4 {
                Action::ImportTransactions
            } else if n == 5 {
                Action::UpdatePrices
            } else if n == 8 {
                self.deselect_table();
                self.popups.show_api_selector = true;
                Action::Nothing
            } else if n == 12 {
                self.deselect_table();
                self.popups.show_database_reset = true;
                Action::Nothing
            } else {
                Action::Nothing
            },
            Key::Up => {
                self.handle_table_navigation(key, rows);
                Action::Nothing
            },
            Key::Down => {
                self.handle_table_navigation(key, rows);
                Action::Nothing
            },
            Key::Other => Action::Nothing,
        }
    }

    /// Before a long command: the table is deselected and the message shown.
    pub fn start_work(&mut self, message: &str)
        ensures
            final(self).popups.message matches Some(m) && m@ == message@,
            final(self).popups.error == old(self).popups.error,
            !final(self).selection_mode,
            final(self).table_selected is None,
    {
        self.deselect_table();
        self.popups.show_message(message);
    }

    /// After a long command: the message is cleared and its error, if any,
    /// shown.
    pub fn finish_work(&mut self, error: Option<String>)
        ensures
            final(self).popups.message is None,
            error is Some ==> final(self).popups.error == error,
            error is None ==> final(self).popups.error == old(self).popups.error,
    {
        self.popups.clear_message();
        if let Some(e) = error {
            self.popups.error = Some(e);
        }
    }
}

} // verus!
