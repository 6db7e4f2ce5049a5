//! The interaction: a state that takes one key at a time and says what is
//! to be drawn and when the user is done.

use crate::config::MultiSelect;
use crate::filter::{lemma_matching_indices, matching};
use crate::item::{default_flags, labels_of, positions, Item};
use crate::laws::{lemma_page_shows_cursor, lemma_start_in_order, lemma_step_keeps_order};
use crate::lines::line_sizes;
use crate::model::{ends, inv, press, result_of, settle, step, Config, Key, State};
use crate::paging::{lemma_page_start_in_range, next_page, page_count, prev_page, window};
use crate::render::{
    calls_of, frame_of, labels_at, prompt_line_of, reaction_of, row_of, summary_labels_of, Call,
    DrawCall,
};
use crate::selection::{checked_positions, is_selection_of, lemma_checked_indices};
use crate::text::{push_char, texts_of, without_last};
use vstd::prelude::*;

verus! {

/// The error of a menu that is started without entries.
#[derive(Clone, Copy, Debug, PartialEq, Eq)]
pub struct EmptyInputError;

impl EmptyInputError {
    /// What went wrong, in words.
    pub fn message(&self) -> (text: &'static str)
        ensures
            text@ == "Empty list of items given to `MultiSelect`"@,
    {
        "Empty list of items given to `MultiSelect`"
    }
}

/// How an interaction ended, with the selection it returns: menu
/// positions, ascending.
#[derive(Debug, PartialEq, Eq)]
pub enum Outcome {
    /// The user pressed Enter: the entries that are checked.
    Confirmed(Vec<usize>),
    /// The user pressed Escape: the entries that were checked to begin
    /// with.
    Cancelled(Vec<usize>),
}

impl Outcome {
    /// The positions that the interaction returns.
    pub open spec fn selection(&self) -> Seq<int> {
        match *self {
            Outcome::Confirmed(v) => positions(v@),
            Outcome::Cancelled(v) => positions(v@),
        }
    }

    /// The positions that the interaction returns.
    pub fn into_selection(self) -> (v: Vec<usize>)
        ensures
            positions(v@) == self.selection(),
    {
        match self {
            Outcome::Confirmed(v) => v,
            Outcome::Cancelled(v) => v,
        }
    }
}

/// What follows a key: the calls to make on the renderer, and the outcome
/// if the key ended the interaction.
#[derive(Debug, PartialEq, Eq)]
pub struct Reaction {
    pub calls: Vec<DrawCall>,
    pub outcome: Option<Outcome>,
}

/// A running interaction: a menu and the state of the user's work on it.
pub struct Interaction<'m, 'a, T: ?Sized> {
    menu: &'m MultiSelect<'a, T>,
    checked: Vec<bool>,
    cursor: usize,
    page: usize,
    filter: String,
}

impl<'m, 'a, T: ?Sized> View for Interaction<'m, 'a, T> {
    type V = State;

    closed spec fn view(&self) -> State {
        State {
            checked: self.checked@,
            cursor: self.cursor as nat,
            page: self.page as nat,
            filter: self.filter@,
        }
    }
}

/// The labels of the entries at the given positions.
fn labels_of_positions(items: &Vec<Item>, at: &Vec<usize>) -> (labels: Vec<String>)
    requires
        forall|k: int| 0 <= k < at.len() ==> at[k] < items.len(),
    ensures
        texts_of(labels@) == labels_at(labels_of(items@), positions(at@)),
{
    let mut labels: Vec<String> = Vec::new();
    let mut k: usize = 0;
    while k < at.len()
        invariant
            k <= at.len(),
            labels.len() == k,
            forall|j: int| 0 <= j < at.len() ==> at[j] < items.len(),
            forall|j: int| 0 <= j < k ==> (#[trigger] labels@[j])@ == items@[at[j] as int].label@,
        decreases at.len() - k,
    {
        labels.push(items[at[k]].label.clone());
        k += 1;
    }
    assert(texts_of(labels@) =~= labels_at(labels_of(items@), positions(at@)));
    labels
}

impl<'a, T: ?Sized> MultiSelect<'a, T> {
    /// Starts the interaction: every entry checked as configured, the
    /// cursor on the first row of the first page, the filter text empty.
    /// A menu without entries cannot be started, and nothing is drawn for
    /// it.
    pub fn start<'m>(&'m self) -> (r: Result<Interaction<'m, 'a, T>, EmptyInputError>)
        ensures
            r is Err <==> self@.labels.len() == 0,
            r matches Ok(i) ==> i@ == self@.initial() && i.config() == self@ && inv(self@, i@),
    {
        let items = self.entries();
        if items.len() == 0 {
            return Err(EmptyInputError);
        }
        let checked = default_flags(items);
        proof {
            self.lemma_wf();
            lemma_start_in_order(self@);
        }
        Ok(Interaction { menu: self, checked, cursor: 0, page: 0, filter: String::new() })
    }
}

/// Computes [`settle`] on the cursor and the page.
fn settle_position<T: ?Sized>(
    menu: &MultiSelect<'_, T>,
    filter: &str,
    cursor: usize,
    page: usize,
    Ghost(checked): Ghost<Seq<bool>>,
) -> (r: (usize, usize))
    ensures
        settle(
            menu@,
            State { checked, cursor: cursor as nat, page: page as nat, filter: filter@ },
        ) == (State { checked, cursor: r.0 as nat, page: r.1 as nat, filter: filter@ }),
{
    let rows = matching(menu.entries(), filter);
    let n: usize = rows.len();
    assert(n == positions(rows@).len());
    let cap: usize = menu.capacity(n);
    let cursor: usize = if n > 0 && cursor >= n {
        n - 1
    } else {
        cursor
    };
    let (start, end) = window(page, cap, n);
    let page: usize = if start <= cursor && cursor < end {
        page
    } else if cap == 0 {
        0
    } else {
        cursor / cap
    };
    (cursor, page)
}

/// The text of the prompt line, see [`prompt_line_of`].
fn prompt_line<T: ?Sized>(menu: &MultiSelect<'_, T>, filter: &str, Ghost(s): Ghost<State>) -> (text:
    String)
    requires
        s.filter == filter@,
    ensures
        text@ == prompt_line_of(menu@, s),
{
    let mut text = match menu.prompt_text() {
        Some(p) => p.clone(),
        None => String::new(),
    };
    proof {
        reveal_strlit(" ");
        assert(" "@ =~= seq![' ']);
    }
    text.append(" ");
    text.append(filter);
    text
}

impl<'m, 'a, T: ?Sized> Interaction<'m, 'a, T> {
    #[verifier::type_invariant]
    spec fn in_order(self) -> bool {
        inv(self.menu@, self@)
    }

    /// What the menu of this interaction is configured to be.
    pub closed spec fn config(&self) -> Config {
        self.menu@
    }

    /// The menu of this interaction.
    pub fn menu(&self) -> (menu: &'m MultiSelect<'a, T>)
        ensures
            menu@ == self.config(),
    {
        self.menu
    }

    /// The cursor, as a position among the visible rows.
    pub fn cursor(&self) -> (at: usize)
        ensures
            at == self@.cursor,
    {
        self.cursor
    }

    /// The page on show.
    pub fn page(&self) -> (page: usize)
        ensures
            page == self@.page,
    {
        self.page
    }

    /// The filter text typed so far.
    pub fn filter_text(&self) -> (text: &str)
        ensures
            text@ == self@.filter,
    {
        self.filter.as_str()
    }

    /// Whether each entry is checked, by menu position: one flag per
    /// entry of the menu.
    pub fn checked(&self) -> (flags: &Vec<bool>)
        ensures
            flags@ == self@.checked,
            flags@.len() == self.config().labels.len(),
    {
        proof {
            use_type_invariant(self);
        }
        &self.checked
    }

    /// The menu positions of the rows that the filter text leaves
    /// visible, top to bottom. While there is such a row, the cursor is on
    /// one of them.
    pub fn visible(&self) -> (rows: Vec<usize>)
        ensures
            positions(rows@) == self.config().visible(self@.filter),
            rows.len() > 0 ==> self@.cursor < rows.len(),
    {
        proof {
            use_type_invariant(self);
        }
        let rows = matching(self.menu.entries(), self.filter.as_str());
        assert(rows.len() == positions(rows@).len());
        rows
    }

    /// The calls that draw the state as it is, see [`frame_of`]. The same
    /// state gives the same calls, however often it is drawn.
    pub fn frame(&self) -> (calls: Vec<DrawCall>)
        ensures
            calls_of(calls@) == frame_of(self.config(), self@),
    {
        proof {
            use_type_invariant(self);
        }
        let ghost cfg = self.menu@;
        let ghost s = self@;
        let items = self.menu.entries();
        let rows = matching(items, self.filter.as_str());
        proof {
            lemma_matching_indices(cfg.labels, s.filter);
            assert(rows.len() == positions(rows@).len());
        }
        let n: usize = rows.len();
        let cap: usize = self.menu.capacity(n);
        let (start, end) = window(self.page, cap, n);
        let mut calls: Vec<DrawCall> = Vec::new();
        calls.push(DrawCall::Clear);
        calls.push(DrawCall::PromptLine(prompt_line(self.menu, self.filter.as_str(), Ghost(s))));
        let ghost head = seq![Call::Clear, Call::PromptLine(prompt_line_of(cfg, s))];
        assert(calls_of(calls@) =~= head);
        let mut k: usize = start;
        while k < end
            invariant
                start <= k <= end <= n,
                n == rows.len(),
                cfg == self.menu@,
                s == self@,
                inv(cfg, s),
                labels_of(items@) == cfg.labels,
                positions(rows@) == cfg.visible(s.filter),
                forall|j: int|
                    0 <= j < n ==> 0 <= #[trigger] cfg.visible(s.filter)[j] < cfg.labels.len(),
                calls_of(calls@) == head + Seq::new(
                    (k - start) as nat,
                    |j: int| row_of(cfg, s, start + j),
                ),
            decreases end - k,
        {
            let at: usize = rows[k];
            assert(positions(rows@)[k as int] == at);
            let ghost drawn = calls_of(calls@);
            calls.push(
                DrawCall::ItemRow {
                    label: items[at].label.clone(),
                    checked: self.checked[at],
                    active: k == self.cursor,
                },
            );
            proof {
                assert(calls_of(calls@) =~= drawn.push(row_of(cfg, s, k as int)));
                assert(drawn.push(row_of(cfg, s, k as int)) =~= head + Seq::new(
                    (k + 1 - start) as nat,
                    |j: int| row_of(cfg, s, start + j),
                ));
            }
            k += 1;
        }
        calls
    }

    /// The calls that follow Enter or Escape, see [`reaction_of`].
    fn closing_calls(&self, key: Key) -> (calls: Vec<DrawCall>)
        requires
            ends(key),
        ensures
            calls_of(calls@) == reaction_of(self.config(), self@, key),
    {
        proof {
            use_type_invariant(self);
        }
        let ghost cfg = self.menu@;
        let ghost s = self@;
        let mut calls: Vec<DrawCall> = Vec::new();
        if self.menu.clears_on_exit() {
            calls.push(DrawCall::Clear);
        }
        let ghost wipe = calls_of(calls@);
        assert(wipe =~= if cfg.clear {
            seq![Call::Clear]
        } else {
            Seq::empty()
        });
        match self.menu.prompt_text() {
            Some(prompt) => {
                let items = self.menu.entries();
                let shown = matching(items, self.filter.as_str());
                assert(shown.len() == positions(shown@).len());
                let labels = if key == Key::Enter && shown.len() > 0 {
                    let at = checked_positions(&self.checked);
                    proof {
                        lemma_checked_indices(s.checked);
                        assert forall|k: int| 0 <= k < at.len() implies at[k] < items.len() by {
                            assert(positions(at@)[k] == at[k]);
                        }
                    }
                    labels_of_positions(items, &at)
                } else {
                    Vec::new()
                };
                let ghost names = texts_of(labels@);
                assert(names =~= if key == Key::Enter {
                    summary_labels_of(cfg, s)
                } else {
                    Seq::empty()
                });
                calls.push(DrawCall::SelectionSummary { prompt: prompt.clone(), labels });
                assert(calls_of(calls@) =~= wipe + seq![
                    Call::SelectionSummary { prompt: prompt@, labels: names },
                ]);
            },
            None => {
                assert(calls_of(calls@) =~= wipe + Seq::empty());
            },
        }
        calls
    }

    /// Takes one key. The state that comes back is [`step`] of this one:
    /// in order again, with one check mark per entry and the cursor on a
    /// visible row whenever there is one. The reaction holds the calls of
    /// [`reaction_of`], and an outcome exactly when the key was Enter or
    /// Escape: then the selection of [`result_of`].
    pub fn handle_key(self, key: Key) -> (r: (Interaction<'m, 'a, T>, Reaction))
        ensures
            r.0@ == step(self.config(), self@, key),
            r.0.config() == self.config(),
            inv(r.0.config(), r.0@),
            calls_of(r.1.calls@) == reaction_of(self.config(), self@, key),
            r.1.outcome is Some <==> ends(key),
            r.1.outcome matches Some(outcome) ==> Some(outcome.selection()) == result_of(
                self.config(),
                self@,
                key,
            ) && (outcome is Confirmed <==> key == Key::Enter),
            r.1.outcome matches Some(outcome) ==> is_selection_of(
                outcome.selection(),
                if key == Key::Enter {
                    self@.checked
                } else {
                    self.config().defaults
                },
            ),
    {
        proof {
            use_type_invariant(&self);
            self.menu.lemma_wf();
            lemma_checked_indices(self@.checked);
            lemma_checked_indices(self.menu@.defaults);
        }
        let ghost cfg = self.menu@;
        let ghost s = self@;
        match key {
            Key::Enter => {
                let calls = self.closing_calls(key);
                let selection = checked_positions(&self.checked);
                (self, Reaction { calls, outcome: Some(Outcome::Confirmed(selection)) })
            },
            Key::Escape => {
                let calls = self.closing_calls(key);
                let flags = default_flags(self.menu.entries());
                let selection = checked_positions(&flags);
                (self, Reaction { calls, outcome: Some(Outcome::Cancelled(selection)) })
            },
            _ => {
                let Interaction { menu, mut checked, mut cursor, mut page, mut filter } = self;
                let items = menu.entries();
                let rows = matching(items, filter.as_str());
                let n: usize = rows.len();
                let cap: usize = menu.capacity(n);
                let pages: usize = page_count(n, cap);
                proof {
                    assert(n == positions(rows@).len());
                    lemma_matching_indices(cfg.labels, s.filter);
                    if n > 0 {
                        lemma_page_shows_cursor(cfg, s);
                    }
                }
                match key {
                    Key::ArrowDown => {
                        if n > 0 {
                            cursor = (cursor + 1) % n;
                        }
                    },
                    Key::ArrowUp => {
                        if n > 0 {
                            proof {
                                let c = cursor as int;
                                let m = n as int;
                                assert((c + m - 1) % m == if c == 0 {
                                    m - 1
                                } else {
                                    c - 1
                                }) by (nonlinear_arith)
                                    requires
                                        0 <= c < m,
                                ;
                            }
                            cursor = if cursor == 0 {
                                n - 1
                            } else {
                                cursor - 1
                            };
                        }
                    },
                    Key::ArrowLeft => {
                        if menu.is_paged() && n > 0 {
                            page = prev_page(page, pages);
                            proof {
                                lemma_page_start_in_range(page as nat, cap as nat, n as nat);
                            }
                            cursor = page * cap;
                        }
                    },
                    Key::ArrowRight => {
                        if menu.is_paged() && n > 0 {
                            page = next_page(page, pages);
                            proof {
                                lemma_page_start_in_range(page as nat, cap as nat, n as nat);
                            }
                            cursor = page * cap;
                        }
                    },
                    Key::Char(c) => {
                        if c == ' ' {
                            if n > 0 {
                                let at: usize = rows[cursor];
                                assert(positions(rows@)[cursor as int] == at);
                                let flag = checked[at];
                                checked.set(at, !flag);
                            }
                        } else {
                            push_char(&mut filter, c);
                        }
                    },
                    Key::Backspace => {
                        filter = without_last(filter.as_str());
                    },
                    _ => {},
                }
                let ghost pressed = State {
                    checked: checked@,
                    cursor: cursor as nat,
                    page: page as nat,
                    filter: filter@,
                };
                assert(pressed == press(cfg, s, key));
                let (cursor, page) = settle_position(
                    menu,
                    filter.as_str(),
                    cursor,
                    page,
                    Ghost(checked@),
                );
                proof {
                    lemma_step_keeps_order(cfg, s, key);
                }
                let mut calls: Vec<DrawCall> = Vec::new();
                calls.push(DrawCall::ClearPreservingPrompt(line_sizes(items)));
                assert(calls_of(calls@) =~= reaction_of(cfg, s, key));
                (
                    Interaction { menu, checked, cursor, page, filter },
                    Reaction { calls, outcome: None },
                )
            },
        }
    }
}

} // verus!
