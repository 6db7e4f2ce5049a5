//! What is drawn: the calls that make up a frame, and the calls that follow
//! a key.
//!
//! The menu draws nothing itself. It says which calls are to be made on a
//! renderer, in which order, and the caller makes them.

use crate::lines::{all_line_sizes, sizes_of};
use crate::model::{ends, Config, Key, State};
use crate::paging::window_of;
use crate::selection::checked_indices;
use crate::text::texts_of;
use vstd::prelude::*;

verus! {

/// One call on the renderer.
#[derive(Debug, PartialEq, Eq)]
pub enum DrawCall {
    /// Wipe what was drawn before.
    Clear,
    /// Draw the line that holds the prompt and the filter text.
    PromptLine(String),
    /// Draw the row of one entry.
    ItemRow { label: String, checked: bool, active: bool },
    /// Wipe the rows and leave the prompt line; the sizes are those of the
    /// lines of all labels, for the renderer to work out their height.
    ClearPreservingPrompt(Vec<usize>),
    /// Draw the line that sums up the selection.
    SelectionSummary { prompt: String, labels: Vec<String> },
}

/// A [`DrawCall`] as a plain value.
pub enum Call {
    Clear,
    PromptLine(Seq<char>),
    ItemRow { label: Seq<char>, checked: bool, active: bool },
    ClearPreservingPrompt(Seq<nat>),
    SelectionSummary { prompt: Seq<char>, labels: Seq<Seq<char>> },
}

impl View for DrawCall {
    type V = Call;

    open spec fn view(&self) -> Call {
        match *self {
            DrawCall::Clear => Call::Clear,
            DrawCall::PromptLine(text) => Call::PromptLine(text@),
            DrawCall::ItemRow { label, checked, active } => Call::ItemRow {
                label: label@,
                checked,
                active,
            },
            DrawCall::ClearPreservingPrompt(sizes) => Call::ClearPreservingPrompt(sizes_of(sizes@)),
            DrawCall::SelectionSummary { prompt, labels } => Call::SelectionSummary {
                prompt: prompt@,
                labels: texts_of(labels@),
            },
        }
    }
}

/// A list of draw calls as plain values.
pub open spec fn calls_of(calls: Seq<DrawCall>) -> Seq<Call> {
    Seq::new(calls.len(), |i: int| calls[i]@)
}

/// The text of the prompt line: the prompt (nothing, if there is none), a
/// space, and the filter text.
pub open spec fn prompt_line_of(cfg: Config, s: State) -> Seq<char> {
    let prompt = match cfg.prompt {
        Some(p) => p,
        None => Seq::empty(),
    };
    prompt + seq![' '] + s.filter
}

/// The row drawn for the visible position `at`.
pub open spec fn row_of(cfg: Config, s: State, at: int) -> Call {
    let entry = cfg.visible(s.filter)[at];
    Call::ItemRow { label: cfg.labels[entry], checked: s.checked[entry], active: at == s.cursor }
}

/// The calls that draw a state: wipe, prompt line, then the rows of the
/// page on show, top to bottom.
pub open spec fn frame_of(cfg: Config, s: State) -> Seq<Call> {
    let n = cfg.visible(s.filter).len();
    let (start, end) = window_of(s.page, cfg.capacity(n), n);
    seq![Call::Clear, Call::PromptLine(prompt_line_of(cfg, s))] + Seq::new(
        (end - start) as nat,
        |k: int| row_of(cfg, s, start + k),
    )
}

/// The labels at the given positions.
pub open spec fn labels_at(labels: Seq<Seq<char>>, at: Seq<int>) -> Seq<Seq<char>> {
    Seq::new(at.len(), |k: int| labels[at[k]])
}

/// The labels named in the summary on Enter: those of the checked entries,
/// or none while the filter hides every row.
pub open spec fn summary_labels_of(cfg: Config, s: State) -> Seq<Seq<char>> {
    if cfg.visible(s.filter).len() == 0 {
        Seq::empty()
    } else {
        labels_at(cfg.labels, checked_indices(s.checked))
    }
}

/// The calls that follow a key. After Enter or Escape: a wipe if the menu
/// is to clear up after itself, then, if a prompt is set, the summary,
/// which names the checked labels on Enter and none on Escape. After any
/// other key: the rows are wiped for the next frame.
pub open spec fn reaction_of(cfg: Config, s: State, key: Key) -> Seq<Call> {
    if ends(key) {
        let wipe = if cfg.clear {
            seq![Call::Clear]
        } else {
            Seq::empty()
        };
        let labels = if key == Key::Enter {
            summary_labels_of(cfg, s)
        } else {
            Seq::empty()
        };
        let summary = match cfg.prompt {
            Some(prompt) => seq![Call::SelectionSummary { prompt, labels }],
            None => Seq::empty(),
        };
        wipe + summary
    } else {
        seq![Call::ClearPreservingPrompt(all_line_sizes(cfg.labels))]
    }
}

} // verus!
