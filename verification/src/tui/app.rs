//! State of the terminal interface and how key presses change it.
use vstd::prelude::*;
use crate::text::{decimal, push_decimal};

verus! {

/// Number of strategies listed in the strategy view.
pub const NUM_STRATEGIES: usize = 11;

/// The screens of the interface.
#[derive(Debug, Clone, Copy, PartialEq, Eq, Structural)]
pub enum Screen {
    Dashboard,
    StrategyList,
    Detail,
    Settings,
}

/// The screen that follows `v` (Tab).
pub open spec fn view_after(v: Screen) -> Screen {
    match v {
        Screen::Dashboard => Screen::StrategyList,
        Screen::StrategyList => Screen::Detail,
        Screen::Detail => Screen::Settings,
        Screen::Settings => Screen::Dashboard,
    }
}

/// The screen that precedes `v` (Shift-Tab, Esc).
pub open spec fn view_before(v: Screen) -> Screen {
    match v {
        Screen::Dashboard => Screen::Settings,
        Screen::StrategyList => Screen::Dashboard,
        Screen::Detail => Screen::StrategyList,
        Screen::Settings => Screen::Detail,
    }
}

/// The strategy selected after moving down on screen `v`.
pub open spec fn strategy_after_down(v: Screen, sel: int) -> int {
    if v == Screen::StrategyList && sel + 1 < NUM_STRATEGIES {
        sel + 1
    } else {
        sel
    }
}

/// The strategy selected after moving up on screen `v`.
pub open spec fn strategy_after_up(v: Screen, sel: int) -> int {
    if v == Screen::StrategyList && sel > 0 {
        sel - 1
    } else {
        sel
    }
}

/// The opportunity selected after moving down on screen `v`, with `len` listed.
pub open spec fn opportunity_after_down(v: Screen, sel: int, len: int) -> int {
    if v == Screen::Detail && sel + 1 < len {
        sel + 1
    } else {
        sel
    }
}

/// The opportunity selected after moving up on screen `v`.
pub open spec fn opportunity_after_up(v: Screen, sel: int) -> int {
    if v == Screen::Detail && sel > 0 {
        sel - 1
    } else {
        sel
    }
}

/// Enter opens the detail view: from the strategy list, or from the
/// dashboard when something was found.
pub open spec fn enter_opens_detail(v: Screen, len: int) -> bool {
    v == Screen::StrategyList || (v == Screen::Dashboard && len > 0)
}

/// A key as the interface reads it.
#[derive(Debug, Clone, Copy, PartialEq, Eq, Structural)]
pub enum KeyCode {
    Char(char),
    Tab,
    BackTab,
    Esc,
    Enter,
    Up,
    Down,
    Other,
}

/// A key press: the key, and whether Control was held.
#[derive(Debug, Clone, Copy, PartialEq, Eq, Structural)]
pub struct KeyPress {
    pub code: KeyCode,
    pub control: bool,
}

/// What the caller must do after a key press.
#[derive(Debug, Clone, Copy, PartialEq, Eq, Structural)]
pub enum KeyAction {
    /// Nothing beyond redrawing.
    Nothing,
    /// Start a scan in the background and hand its findings to `finish_scan`.
    StartScan,
}

/// The status line shown before the first scan.
pub open spec fn ready_message() -> Seq<char> {
    "Ready. Press 's' to scan or 'q' to quit."@
}

/// The status line shown while `n` tickers are scanned.
pub open spec fn scanning_message(n: nat) -> Seq<char> {
    "Scanning "@ + decimal(n) + " tickers..."@
}

/// The status line shown after a scan found `n` opportunities.
pub open spec fn found_message(n: nat) -> Seq<char> {
    "Found "@ + decimal(n) + " opportunities. Press 's' to rescan."@
}

/// The state of the interface; `T` is the kind of opportunity listed.
pub struct App<T> {
    pub current_view: Screen,
    pub opportunities: Vec<T>,
    pub selected_strategy: usize,
    pub selected_opportunity: usize,
    pub should_quit: bool,
    pub status_message: String,
    pub scan_in_progress: bool,
}

impl<T> App<T> {
    /// The interface at start: the dashboard, nothing found, nothing selected.
    pub fn new() -> (r: Self)
        ensures
            r.current_view == Screen::Dashboard,
            r.opportunities@.len() == 0,
            r.selected_strategy == 0,
            r.selected_opportunity == 0,
            !r.should_quit,
            r.status_message@ == ready_message(),
            !r.scan_in_progress,
    {
        App {
            current_view: Screen::Dashboard,
            opportunities: Vec::new(),
            selected_strategy: 0,
            selected_opportunity: 0,
            should_quit: false,
            status_message: String::from_str("Ready. Press 's' to scan or 'q' to quit."),
            scan_in_progress: false,
        }
    }

    /// Moves to the next screen.
    pub fn next_view(&mut self)
        ensures
            final(self).current_view == view_after(old(self).current_view),
            old(self).current_view == Screen::Dashboard ==> final(self).current_view == Screen::StrategyList,
            old(self).current_view == Screen::StrategyList ==> final(self).current_view == Screen::Detail,
            old(self).current_view == Screen::Detail ==> final(self).current_view == Screen::Settings,
            old(self).current_view == Screen::Settings ==> final(self).current_view == Screen::Dashboard,
            *final(self) == (App { current_view: final(self).current_view, ..*old(self) }),
    {
        self.current_view = match self.current_view {
            Screen::Dashboard => Screen::StrategyList,
            Screen::StrategyList => Screen::Detail,
            Screen::Detail => Screen::Settings,
            Screen::Settings => Screen::Dashboard,
        };
    }

    /// Moves to the previous screen.
    pub fn prev_view(&mut self)
        ensures
            final(self).current_view == view_before(old(self).current_view),
            old(self).current_view == Screen::Dashboard ==> final(self).current_view == Screen::Settings,
            old(self).current_view == Screen::StrategyList ==> final(self).current_view == Screen::Dashboard,
            old(self).current_view == Screen::Detail ==> final(self).current_view == Screen::StrategyList,
            old(self).current_view == Screen::Settings ==> final(self).current_view == Screen::Detail,
            *final(self) == (App { current_view: final(self).current_view, ..*old(self) }),
    {
        self.current_view = match self.current_view {
            Screen::Dashboard => Screen::Settings,
            Screen::StrategyList => Screen::Dashboard,
            Screen::Detail => Screen::StrategyList,
            Screen::Settings => Screen::Detail,
        };
    }

    /// Moves the selection down in the strategy list or the detail view,
    /// stopping at the last entry; other screens are left as they are.
    pub fn select_next(&mut self)
        ensures
            final(self).selected_strategy == strategy_after_down(
                old(self).current_view,
                old(self).selected_strategy as int,
            ),
            final(self).selected_opportunity == opportunity_after_down(
                old(self).current_view,
                old(self).selected_opportunity as int,
                old(self).opportunities@.len() as int,
            ),
            old(self).current_view == Screen::StrategyList && old(self).selected_strategy < 10
                ==> final(self).selected_strategy == old(self).selected_strategy + 1,
            old(self).current_view != Screen::StrategyList || old(self).selected_strategy >= 10
                ==> final(self).selected_strategy == old(self).selected_strategy,
            old(self).current_view == Screen::Detail && old(self).selected_opportunity + 1
                < old(self).opportunities@.len() ==> final(self).selected_opportunity
                == old(self).selected_opportunity + 1,
            old(self).current_view != Screen::Detail || old(self).selected_opportunity + 1
                >= old(self).opportunities@.len() ==> final(self).selected_opportunity
                == old(self).selected_opportunity,
            *final(self) == (App {
                selected_strategy: final(self).selected_strategy,
                selected_opportunity: final(self).selected_opportunity,
                ..*old(self)
            }),
    {
        match self.current_view {
            Screen::StrategyList => {
                if self.selected_strategy < NUM_STRATEGIES - 1 {
                    self.selected_strategy = self.selected_strategy + 1;
                }
            },
            Screen::Detail => {
                if self.opportunities.len() > 0 && self.selected_opportunity < self.opportunities.len()
                    - 1 {
                    self.selected_opportunity = self.selected_opportunity + 1;
                }
            },
            _ => {},
        }
    }

    /// Moves the selection up in the strategy list or the detail view,
    /// stopping at the first entry; other screens are left as they are.
    pub fn select_prev(&mut self)
        ensures
            final(self).selected_strategy == strategy_after_up(
                old(self).current_view,
                old(self).selected_strategy as int,
            ),
            final(self).selected_opportunity == opportunity_after_up(
                old(self).current_view,
                old(self).selected_opportunity as int,
            ),
            old(self).current_view == Screen::StrategyList && old(self).selected_strategy > 0
                ==> final(self).selected_strategy == old(self).selected_strategy - 1,
            old(self).current_view != Screen::StrategyList || old(self).selected_strategy == 0
                ==> final(self).selected_strategy == old(self).selected_strategy,
            old(self).current_view == Screen::Detail && old(self).selected_opportunity > 0
                ==> final(self).selected_opportunity == old(self).selected_opportunity - 1,
            old(self).current_view != Screen::Detail || old(self).selected_opportunity == 0
                ==> final(self).selected_opportunity == old(self).selected_opportunity,
            *final(self) == (App {
                selected_strategy: final(self).selected_strategy,
                selected_opportunity: final(self).selected_opportunity,
                ..*old(self)
            }),
    {
        match self.current_view {
            Screen::StrategyList => {
                if self.selected_strategy > 0 {
                    self.selected_strategy = self.selected_strategy - 1;
                }
            },
            Screen::Detail => {
                if self.selected_opportunity > 0 {
                    self.selected_opportunity = self.selected_opportunity - 1;
                }
            },
            _ => {},
        }
    }

    /// The status line announcing a scan of `ticker_count` tickers.
    fn scanning_status(ticker_count: usize) -> (r: String)
        ensures
            r@ == scanning_message(ticker_count as nat),
    {
        let mut s = String::from_str("Scanning ");
        push_decimal(&mut s, ticker_count);
        s.append(" tickers...");
        s
    }

    /// Applies a key press: `q` or Control-C quits, Tab and Shift-Tab/Esc
    /// change screen, Enter opens the detail view from the strategy list (or
    /// from the dashboard when something was found), Down/`j` and Up/`k` move
    /// the selection, and `s` starts a scan of `ticker_count` tickers unless
    /// one is running.
    pub fn handle_key(&mut self, key: KeyPress, ticker_count: usize) -> (r: KeyAction)
        ensures
            key.code == KeyCode::Enter && (old(self).current_view == Screen::Detail || old(self).current_view
                == Screen::Settings || (old(self).current_view == Screen::Dashboard
                && old(self).opportunities@.len() == 0)) ==> final(self).current_view == old(self).current_view
                && final(self).selected_opportunity == old(self).selected_opportunity,
            key.code == KeyCode::Enter && (old(self).current_view == Screen::StrategyList || (old(self).current_view
                == Screen::Dashboard && old(self).opportunities@.len() > 0)) ==> final(self).current_view
                == Screen::Detail && final(self).selected_opportunity == 0,
            r == (if key.code == KeyCode::Char('s') && !old(self).scan_in_progress {
                KeyAction::StartScan
            } else {
                KeyAction::Nothing
            }),
            final(self).opportunities == old(self).opportunities,
            final(self).should_quit == (old(self).should_quit || key.code == KeyCode::Char('q') || (key.code
                == KeyCode::Char('c') && key.control)),
            final(self).scan_in_progress == (old(self).scan_in_progress || key.code == KeyCode::Char('s')),
            final(self).status_message@ == (if key.code == KeyCode::Char('s') && !old(self).scan_in_progress {
                scanning_message(ticker_count as nat)
            } else {
                old(self).status_message@
            }),
            final(self).current_view == (match key.code {
                KeyCode::Tab => view_after(old(self).current_view),
                KeyCode::BackTab | KeyCode::Esc => view_before(old(self).current_view),
                KeyCode::Enter => if enter_opens_detail(
                    old(self).current_view,
                    old(self).opportunities@.len() as int,
                ) {
                    Screen::Detail
                } else {
                    old(self).current_view
                },
                _ => old(self).current_view,
            }),
            final(self).selected_strategy == (match key.code {
                KeyCode::Down | KeyCode::Char('j') => strategy_after_down(
                    old(self).current_view,
                    old(self).selected_strategy as int,
                ),
                KeyCode::Up | KeyCode::Char('k') => strategy_after_up(
                    old(self).current_view,
                    old(self).selected_strategy as int,
                ),
                _ => old(self).selected_strategy as int,
            }),
            final(self).selected_opportunity == (match key.code {
                KeyCode::Enter => if enter_opens_detail(
                    old(self).current_view,
                    old(self).opportunities@.len() as int,
                ) {
                    0
                } else {
                    old(self).selected_opportunity as int
                },
                KeyCode::Down | KeyCode::Char('j') => opportunity_after_down(
                    old(self).current_view,
                    old(self).selected_opportunity as int,
                    old(self).opportunities@.len() as int,
                ),
                KeyCode::Up | KeyCode::Char('k') => opportunity_after_up(
                    old(self).current_view,
                    old(self).selected_opportunity as int,
                ),
                _ => old(self).selected_opportunity as int,
            }),
    {
        match key.code {
            KeyCode::Char('q') => {
                self.should_quit = true;
            },
            KeyCode::Char('c') if key.control => {
                self.should_quit = true;
            },
            KeyCode::Tab => {
                self.next_view();
            },
            KeyCode::BackTab => {
                self.prev_view();
            },
            KeyCode::Esc => {
                self.prev_view();
            },
            KeyCode::Enter => {
                if self.current_view == Screen::StrategyList {
                    self.current_view = Screen::Detail;
                    self.selected_opportunity = 0;
                } else if self.current_view == Screen::Dashboard && self.opportunities.len() > 0 {
                    self.current_view = Screen::Detail;
                    self.selected_opportunity = 0;
                }
            },
            KeyCode::Down | KeyCode::Char('j') => {
                self.select_next();
            },
            KeyCode::Up | KeyCode::Char('k') => {
                self.select_prev();
            },
            KeyCode::Char('s') => {
                if !self.scan_in_progress {
                    self.scan_in_progress = true;
                    self.status_message = Self::scanning_status(ticker_count);
                    return KeyAction::StartScan;
                }
            },
            _ => {},
        }
        KeyAction::Nothing
    }

    /// Takes the findings of a finished scan.
    pub fn finish_scan(&mut self, opportunities: Vec<T>)
        ensures
            final(self).opportunities == opportunities,
            !final(self).scan_in_progress,
            final(self).status_message@ == found_message(opportunities@.len()),
            final(self).current_view == old(self).current_view,
            final(self).selected_strategy == old(self).selected_strategy,
            final(self).selected_opportunity == old(self).selected_opportunity,
            final(self).should_quit == old(self).should_quit,
    {
        let count = opportunities.len();
        self.opportunities = opportunities;
        self.scan_in_progress = false;
        let mut s = String::from_str("Found ");
        push_decimal(&mut s, count);
        s.append(" opportunities. Press 's' to rescan.");
        self.status_message = s;
    }

    /// The entry shown by the detail view: the selected one, or the last one
    /// when the selection lies beyond the list; none when nothing was found.
    pub fn detail_index(&self) -> (r: Option<usize>)
        ensures
            r == (if self.opportunities@.len() == 0 {
                None
            } else if self.selected_opportunity < self.opportunities@.len() {
                Some(self.selected_opportunity)
            } else {
                Some((self.opportunities@.len() - 1) as usize)
            }),
    {
        if self.opportunities.len() == 0 {
            None
        } else if self.selected_opportunity < self.opportunities.len() {
            Some(self.selected_opportunity)
        } else {
            Some(self.opportunities.len() - 1)
        }
    }
}

/// Enter opens the detail view only from the strategy list, or from the
/// dashboard when something was found; on the detail and settings screens,
/// and on an empty dashboard, it changes nothing.
pub proof fn lemma_enter_targets(v: Screen, len: int)
    ensures
        enter_opens_detail(v, len) <==> (v == Screen::StrategyList || (v == Screen::Dashboard && len > 0)),
        !enter_opens_detail(Screen::Detail, len),
        !enter_opens_detail(Screen::Settings, len),
        len <= 0 ==> !enter_opens_detail(Screen::Dashboard, len),
{
}

/// Shift-Tab undoes Tab and Tab undoes Shift-Tab.
pub proof fn lemma_view_steps_inverse(v: Screen)
    ensures
        view_before(view_after(v)) == v,
        view_after(view_before(v)) == v,
{
}

/// Four presses of Tab lead back to the starting screen.
pub proof fn lemma_views_cycle(v: Screen)
    ensures
        view_after(view_after(view_after(view_after(v)))) == v,
        view_after(v) != v,
{
}

/// Moving the selection never leaves the list: a selection inside the
/// strategy list, or inside the found opportunities, stays inside it.
pub proof fn lemma_selection_stays_in_range(v: Screen, sel: int, len: int)
    requires
        0 <= sel,
    ensures
        sel < NUM_STRATEGIES ==> 0 <= strategy_after_down(v, sel) < NUM_STRATEGIES,
        sel < NUM_STRATEGIES ==> 0 <= strategy_after_up(v, sel) < NUM_STRATEGIES,
        sel < len ==> 0 <= opportunity_after_down(v, sel, len) < len,
        sel < len ==> 0 <= opportunity_after_up(v, sel) < len,
{
}

/// Moving up undoes a move down that changed the selection.
pub proof fn lemma_up_undoes_down(v: Screen, sel: int, len: int)
    requires
        0 <= sel,
    ensures
        strategy_after_down(v, sel) != sel ==> strategy_after_up(v, strategy_after_down(v, sel)) == sel,
        opportunity_after_down(v, sel, len) != sel ==> opportunity_after_up(
            v,
            opportunity_after_down(v, sel, len),
        ) == sel,
{
}

} // verus!
