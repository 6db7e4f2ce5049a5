//! The menu as mathematics: what is configured, what changes while the user
//! types, and what each key does.
//!
//! Three kinds of position meet here. A *menu* position counts the
//! entries of the menu as configured. A *visible* position counts the rows
//! that the filter text leaves. A *page* is a block of visible positions.
//! Check marks go by menu position and so survive every change of the
//! filter; cursor and page go by visible position and are settled again
//! after every key.

use crate::filter::matching_indices;
use crate::paging::{in_window, next_page_of, page_count_of, page_of, prev_page_of};
use crate::selection::checked_indices;
use vstd::prelude::*;

verus! {

/// A key as the menu understands it. The space bar is `Char(' ')`.
#[derive(Clone, Copy, Debug, PartialEq, Eq, Structural)]
pub enum Key {
    ArrowUp,
    ArrowDown,
    ArrowLeft,
    ArrowRight,
    Enter,
    Escape,
    Backspace,
    Char(char),
    /// Any key that the menu has no use for.
    Other,
}

/// What is configured before the interaction starts and never changes
/// during it.
pub struct Config {
    /// The label of each entry.
    pub labels: Seq<Seq<char>>,
    /// Whether each entry starts out checked.
    pub defaults: Seq<bool>,
    /// The prompt shown above the rows, if there is one.
    pub prompt: Option<Seq<char>>,
    /// Whether the rows are wiped from the screen when the interaction ends.
    pub clear: bool,
    /// Whether the rows are shown a page at a time.
    pub paged: bool,
    /// How many rows a page holds when paging is on.
    pub page_size: nat,
}

/// What changes during the interaction.
pub struct State {
    /// Whether each entry is checked, by menu position.
    pub checked: Seq<bool>,
    /// The cursor, as a visible position.
    pub cursor: nat,
    /// The page on show.
    pub page: nat,
    /// The filter text typed so far.
    pub filter: Seq<char>,
}

impl Config {
    /// Every entry has a label and a starting check mark.
    pub open spec fn wf(self) -> bool {
        self.defaults.len() == self.labels.len()
    }

    /// The menu positions of the rows that `filter` leaves visible.
    pub open spec fn visible(self, filter: Seq<char>) -> Seq<int> {
        matching_indices(self.labels, filter)
    }

    /// How many rows a page holds when `total` rows are visible: the
    /// configured page size (10 if none is set) with paging on, else all
    /// rows.
    pub open spec fn capacity(self, total: nat) -> nat {
        if self.paged {
            if self.page_size > 0 {
                self.page_size
            } else {
                10
            }
        } else {
            total
        }
    }

    /// The state in which the interaction starts.
    pub open spec fn initial(self) -> State {
        State { checked: self.defaults, cursor: 0, page: 0, filter: Seq::empty() }
    }
}

/// What holds of every state that the interaction can reach: one check mark
/// per entry; the cursor on a visible row whenever there is one; the page
/// on show is the page of the cursor.
pub open spec fn inv(cfg: Config, s: State) -> bool {
    let n = cfg.visible(s.filter).len();
    &&& s.checked.len() == cfg.labels.len()
    &&& n > 0 ==> s.cursor < n
    &&& s.page == page_of(s.cursor, cfg.capacity(n))
}

/// Brings cursor and page back in line with the visible rows: a cursor
/// past the last row moves onto it, and a page that does not show the
/// cursor gives way to the one that does. With no row visible the cursor
/// is left alone.
pub open spec fn settle(cfg: Config, s: State) -> State {
    let n = cfg.visible(s.filter).len();
    let cap = cfg.capacity(n);
    let cursor = if n > 0 && s.cursor >= n {
        (n - 1) as nat
    } else {
        s.cursor
    };
    let page = if in_window(cursor, s.page, cap, n) {
        s.page
    } else {
        page_of(cursor, cap)
    };
    State { cursor, page, ..s }
}

/// The bare effect of a key, before cursor and page are settled again.
pub open spec fn press(cfg: Config, s: State, key: Key) -> State {
    let rows = cfg.visible(s.filter);
    let n = rows.len();
    let cap = cfg.capacity(n);
    let pages = page_count_of(n, cap);
    match key {
        Key::ArrowDown => if n > 0 {
            State { cursor: ((s.cursor as int + 1) % (n as int)) as nat, ..s }
        } else {
            s
        },
        Key::ArrowUp => if n > 0 {
            State { cursor: ((s.cursor as int + n - 1) % (n as int)) as nat, ..s }
        } else {
            s
        },
        Key::ArrowLeft => if cfg.paged && n > 0 {
            let page = prev_page_of(s.page, pages);
            State { page, cursor: page * cap, ..s }
        } else {
            s
        },
        Key::ArrowRight => if cfg.paged && n > 0 {
            let page = next_page_of(s.page, pages);
            State { page, cursor: page * cap, ..s }
        } else {
            s
        },
        Key::Char(c) => if c == ' ' {
            if 0 <= s.cursor < n && 0 <= rows[s.cursor as int] < s.checked.len() {
                let at = rows[s.cursor as int];
                State { checked: s.checked.update(at, !s.checked[at]), ..s }
            } else {
                s
            }
        } else {
            State { filter: s.filter.push(c), ..s }
        },
        Key::Backspace => if s.filter.len() > 0 {
            State { filter: s.filter.drop_last(), ..s }
        } else {
            s
        },
        Key::Enter | Key::Escape | Key::Other => s,
    }
}

/// Whether the key ends the interaction.
pub open spec fn ends(key: Key) -> bool {
    key == Key::Enter || key == Key::Escape
}

/// The state after a key. Enter and Escape end the interaction and change
/// nothing; after any other key cursor and page are settled.
pub open spec fn step(cfg: Config, s: State, key: Key) -> State {
    if ends(key) {
        s
    } else {
        settle(cfg, press(cfg, s, key))
    }
}

/// What the interaction returns on a key: on Enter the checked entries, on
/// Escape the entries that were checked to begin with, whatever was edited
/// since, and nothing on any other key. Positions are menu positions,
/// ascending.
pub open spec fn result_of(cfg: Config, s: State, key: Key) -> Option<Seq<int>> {
    match key {
        Key::Enter => Some(checked_indices(s.checked)),
        Key::Escape => Some(checked_indices(cfg.defaults)),
        _ => None,
    }
}

/// The state after a run of keys, from the start of the interaction.
pub open spec fn run(cfg: Config, keys: Seq<Key>) -> State
    decreases keys.len(),
{
    if keys.len() == 0 {
        cfg.initial()
    } else {
        step(cfg, run(cfg, keys.drop_last()), keys.last())
    }
}

/// The state after the same key is pressed `times` times.
pub open spec fn repeat(cfg: Config, s: State, key: Key, times: nat) -> State
    decreases times,
{
    if times == 0 {
        s
    } else {
        step(cfg, repeat(cfg, s, key, (times - 1) as nat), key)
    }
}

} // verus!
