//! What holds of the menu whatever the user types.

use crate::filter::{lemma_empty_query_shows_all, lemma_matching_indices};
use crate::model::{inv, press, repeat, run, settle, step, Config, Key, State};
use crate::paging::{in_window, lemma_page_of_row, page_count_of, page_of, window_of};
use crate::render::{frame_of, row_of, Call};
use vstd::prelude::*;

verus! {

/// Settling puts any state with the right number of check marks in order.
pub proof fn lemma_settle_restores_order(cfg: Config, s: State)
    requires
        s.checked.len() == cfg.labels.len(),
    ensures
        inv(cfg, settle(cfg, s)),
        settle(cfg, s).checked == s.checked,
        settle(cfg, s).filter == s.filter,
{
    let n = cfg.visible(s.filter).len();
    let cap = cfg.capacity(n);
    let t = settle(cfg, s);
    if in_window(t.cursor, s.page, cap, n) {
        assert(cap > 0);
        lemma_page_of_row(t.cursor, cap, n);
    }
}

/// A state that is in order is already settled.
pub proof fn lemma_settled_stays(cfg: Config, s: State)
    requires
        inv(cfg, s),
    ensures
        settle(cfg, s) == s,
{
}

/// The interaction starts in order: one check mark per entry, the cursor on
/// the first row of the first page.
pub proof fn lemma_start_in_order(cfg: Config)
    requires
        cfg.wf(),
    ensures
        inv(cfg, cfg.initial()),
{
    let n = cfg.visible(Seq::empty()).len();
    let cap = cfg.capacity(n);
    if cap > 0 {
        assert(0int / (cap as int) == 0) by (nonlinear_arith)
            requires
                cap > 0,
        ;
    }
}

/// No key brings the state out of order: there stays one check mark per
/// entry, and the cursor stays on a visible row whenever there is one.
pub proof fn lemma_step_keeps_order(cfg: Config, s: State, key: Key)
    requires
        inv(cfg, s),
    ensures
        inv(cfg, step(cfg, s, key)),
        step(cfg, s, key).checked.len() == cfg.labels.len(),
        cfg.visible(step(cfg, s, key).filter).len() > 0 ==> step(cfg, s, key).cursor
            < cfg.visible(step(cfg, s, key).filter).len(),
{
    lemma_settle_restores_order(cfg, press(cfg, s, key));
}

/// Every state that the interaction can reach is in order.
pub proof fn lemma_reachable_in_order(cfg: Config, keys: Seq<Key>)
    requires
        cfg.wf(),
    ensures
        inv(cfg, run(cfg, keys)),
        run(cfg, keys).checked.len() == cfg.labels.len(),
        cfg.visible(run(cfg, keys).filter).len() > 0 ==> run(cfg, keys).cursor < cfg.visible(
            run(cfg, keys).filter,
        ).len(),
    decreases keys.len(),
{
    if keys.len() == 0 {
        lemma_start_in_order(cfg);
    } else {
        lemma_reachable_in_order(cfg, keys.drop_last());
        lemma_step_keeps_order(cfg, run(cfg, keys.drop_last()), keys.last());
    }
}

/// While a row is visible, the page on show is one of the pages there are,
/// and the cursor is one of its rows.
pub proof fn lemma_page_shows_cursor(cfg: Config, s: State)
    requires
        inv(cfg, s),
        cfg.visible(s.filter).len() > 0,
    ensures
        s.page < page_count_of(
            cfg.visible(s.filter).len(),
            cfg.capacity(cfg.visible(s.filter).len()),
        ),
        in_window(
            s.cursor,
            s.page,
            cfg.capacity(cfg.visible(s.filter).len()),
            cfg.visible(s.filter).len(),
        ),
{
    let n = cfg.visible(s.filter).len();
    lemma_page_of_row(s.cursor, cfg.capacity(n), n);
}

/// The space bar pressed twice in a row leaves every check mark, and the
/// whole state, as it was.
pub proof fn lemma_toggle_twice(cfg: Config, s: State)
    requires
        inv(cfg, s),
    ensures
        step(cfg, step(cfg, s, Key::Char(' ')), Key::Char(' ')) == s,
{
    let space = Key::Char(' ');
    let once = press(cfg, s, space);
    lemma_matching_indices(cfg.labels, s.filter);
    assert(inv(cfg, once));
    assert(settle(cfg, once) == once);
    let twice = press(cfg, once, space);
    assert(twice.checked =~= s.checked);
    assert(twice == s);
}

/// Arrow-down moves the cursor one row on, from the last row to the first.
pub proof fn lemma_down_moves_on(cfg: Config, s: State)
    requires
        inv(cfg, s),
        cfg.visible(s.filter).len() > 0,
    ensures
        step(cfg, s, Key::ArrowDown).cursor == (s.cursor + 1) % cfg.visible(s.filter).len(),
        step(cfg, s, Key::ArrowDown).checked == s.checked,
        step(cfg, s, Key::ArrowDown).filter == s.filter,
        inv(cfg, step(cfg, s, Key::ArrowDown)),
{
    lemma_step_keeps_order(cfg, s, Key::ArrowDown);
}

proof fn lemma_down_repeated(cfg: Config, s: State, times: nat)
    requires
        inv(cfg, s),
        cfg.visible(s.filter).len() > 0,
    ensures
        inv(cfg, repeat(cfg, s, Key::ArrowDown, times)),
        repeat(cfg, s, Key::ArrowDown, times).cursor == (s.cursor + times) % cfg.visible(s.filter).len(),
        repeat(cfg, s, Key::ArrowDown, times).checked == s.checked,
        repeat(cfg, s, Key::ArrowDown, times).filter == s.filter,
    decreases times,
{
    let n = cfg.visible(s.filter).len() as int;
    let c = s.cursor as int;
    if times == 0 {
        assert(c % n == c) by (nonlinear_arith)
            requires
                0 <= c < n,
        ;
    } else {
        let k = (times - 1) as nat;
        lemma_down_repeated(cfg, s, k);
        let before = repeat(cfg, s, Key::ArrowDown, k);
        lemma_down_moves_on(cfg, before);
        assert(((c + k) % n + 1) % n == (c + k + 1) % n) by (nonlinear_arith)
            requires
                n > 0,
                c + k >= 0,
        ;
    }
}

/// Arrow-down pressed once for every visible row brings the cursor, and
/// the whole state, back to where it was.
pub proof fn lemma_down_wraps_around(cfg: Config, s: State)
    requires
        inv(cfg, s),
    ensures
        repeat(cfg, s, Key::ArrowDown, cfg.visible(s.filter).len()) == s,
        repeat(cfg, s, Key::ArrowDown, cfg.visible(s.filter).len()).cursor == s.cursor,
{
    let n = cfg.visible(s.filter).len();
    if n > 0 {
        lemma_down_repeated(cfg, s, n);
        let c = s.cursor as int;
        let m = n as int;
        assert((c + m) % m == c) by (nonlinear_arith)
            requires
                0 <= c < m,
        ;
    }
}

proof fn lemma_backspace_repeated(cfg: Config, s: State, times: nat)
    requires
        inv(cfg, s),
        times <= s.filter.len(),
    ensures
        inv(cfg, repeat(cfg, s, Key::Backspace, times)),
        repeat(cfg, s, Key::Backspace, times).filter == s.filter.take(s.filter.len() - times),
        repeat(cfg, s, Key::Backspace, times).checked == s.checked,
    decreases times,
{
    if times == 0 {
        assert(s.filter.take(s.filter.len() as int) =~= s.filter);
    } else {
        let k = (times - 1) as nat;
        lemma_backspace_repeated(cfg, s, k);
        let before = repeat(cfg, s, Key::Backspace, k);
        lemma_step_keeps_order(cfg, before, Key::Backspace);
        lemma_settle_restores_order(cfg, press(cfg, before, Key::Backspace));
        assert(s.filter.take(s.filter.len() - k).drop_last() =~= s.filter.take(
            s.filter.len() - times,
        ));
    }
}

/// Backspace pressed once for every character of the filter text empties
/// it, and the whole menu is visible again, in its own order, with every
/// check mark as it was.
pub proof fn lemma_backspace_restores_all(cfg: Config, s: State)
    requires
        inv(cfg, s),
    ensures
        repeat(cfg, s, Key::Backspace, s.filter.len()).filter == Seq::<char>::empty(),
        cfg.visible(repeat(cfg, s, Key::Backspace, s.filter.len()).filter) == Seq::new(
            cfg.labels.len(),
            |i: int| i,
        ),
        repeat(cfg, s, Key::Backspace, s.filter.len()).checked == s.checked,
{
    lemma_backspace_repeated(cfg, s, s.filter.len());
    assert(s.filter.take(0) =~= Seq::<char>::empty());
    lemma_empty_query_shows_all(cfg.labels);
}

/// Equal states are drawn by equal calls: a frame depends on what is
/// configured and on the state, and on nothing else.
pub proof fn lemma_frame_repeats(cfg: Config, first: State, second: State)
    requires
        first == second,
    ensures
        frame_of(cfg, first) == frame_of(cfg, second),
{
}

/// While a row is visible, the frame holds the row of the cursor, marked
/// as active, and no other row is.
pub proof fn lemma_frame_shows_cursor(cfg: Config, s: State)
    requires
        inv(cfg, s),
        cfg.visible(s.filter).len() > 0,
    ensures
        ({
            let n = cfg.visible(s.filter).len();
            let (start, end) = window_of(s.page, cfg.capacity(n), n);
            &&& start <= s.cursor < end
            &&& frame_of(cfg, s).len() == 2 + end - start
            &&& forall|at: int|
                start <= at < end ==> #[trigger] frame_of(cfg, s)[2 + at - start] == row_of(
                    cfg,
                    s,
                    at,
                )
            &&& forall|at: int|
                start <= at < end ==> (#[trigger] row_of(cfg, s, at) matches Call::ItemRow {
                    active,
                    ..
                } && active == (at == s.cursor))
        }),
{
    lemma_page_shows_cursor(cfg, s);
}

} // verus!
