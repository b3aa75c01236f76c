//! A terminal multi-select list: the user moves a cursor over lines, toggles
//! the lines to keep, and confirms or cancels.
//!
//! The library holds the selector's state and decides what every input
//! event does to it and what is shown; the caller owns the terminal, reads
//! the events and writes the frames.
use vstd::prelude::*;

pub mod keys;
pub mod render;
pub mod selector;
pub mod status;
pub mod store;
pub mod viewport;

use crate::selector::{
    initial_view, opt_view, spec_run, spec_step, Outcome, OutcomeView, SelectorState, SelectorView,
};
use crate::store::{
    lemma_selection_keeps_input_order, pick, selected_contents, texts, toggle_all, toggled_odd_times,
};

verus! {

/// Runs a session over `lines` that receives `events` in turn, on a screen of
/// `screen_height` rows, and returns its outcome as soon as an event decides
/// it, or `None` if none does.
pub fn select(lines: Vec<String>, events: &Vec<[u8; 3]>, screen_height: usize) -> (r: Option<Outcome>)
    requires
        screen_height >= 2,
    ensures
        opt_view(r) == spec_run(initial_view(texts(lines@)), events@, screen_height as int),
{
    let ghost h = screen_height as int;
    let ghost start = initial_view(texts(lines@));
    let mut state = SelectorState::new(lines);
    let mut i: usize = 0;
    assert(events@.subrange(0, events.len() as int) =~= events@);
    while i < events.len()
        invariant
            state.wf(),
            screen_height >= 2,
            h == screen_height as int,
            start == initial_view(texts(lines@)),
            i <= events.len(),
            spec_run(start, events@, h) == spec_run(state@, events@.subrange(i as int, events.len() as int), h),
        decreases events.len() - i,
    {
        let ghost before = state@;
        let ghost rest = events@.subrange(i as int, events.len() as int);
        assert(rest[0] == events@[i as int]);
        assert(rest.drop_first() =~= events@.subrange(i + 1, events.len() as int));
        let r = state.handle_input(events[i], screen_height);
        assert(spec_run(before, rest, h) == if r is Some {
            opt_view(r)
        } else {
            spec_run(state@, rest.drop_first(), h)
        });
        if r.is_some() {
            return r;
        }
        i = i + 1;
    }
    None
}

/// An event whose second byte is not zero, such as an arrow key's escape
/// sequence, changes nothing and ends nothing, whatever its first byte.
pub proof fn lemma_escape_sequences_ignored(v: SelectorView, event: [u8; 3], height: int)
    requires
        event[1] != 0,
    ensures
        spec_step(v, event, height) == (v, None::<OutcomeView>),
{
}

/// An event that presses `j`, `k` or Space.
pub open spec fn is_navigation_or_toggle(e: [u8; 3]) -> bool {
    e[1] == 0 && (e[0] == 106 || e[0] == 107 || e[0] == 32)
}

/// The items under the cursor at each Space among `events`, in order, in a
/// session over `n` items whose cursor starts at `cursor`: `j` moves the
/// cursor down and `k` up, each wrapping around at the ends of the list.
pub open spec fn space_positions(n: int, cursor: int, events: Seq<[u8; 3]>) -> Seq<int>
    decreases events.len(),
{
    if events.len() == 0 {
        seq![]
    } else {
        let rest = events.drop_first();
        if events[0][0] == 32 {
            seq![cursor] + space_positions(n, cursor, rest)
        } else if events[0][0] == 106 {
            space_positions(n, if cursor == n - 1 { 0 } else { cursor + 1 }, rest)
        } else {
            space_positions(n, if cursor == 0 { n - 1 } else { cursor - 1 }, rest)
        }
    }
}

proof fn lemma_space_positions_in_range(n: int, cursor: int, events: Seq<[u8; 3]>)
    requires
        0 <= cursor < n,
    ensures
        forall|k: int|
            0 <= k < space_positions(n, cursor, events).len() ==> 0 <= #[trigger] space_positions(
                n,
                cursor,
                events,
            )[k] < n,
    decreases events.len(),
{
    if events.len() > 0 {
        let rest = events.drop_first();
        let next = if events[0][0] == 32 {
            cursor
        } else if events[0][0] == 106 {
            if cursor == n - 1 { 0 } else { cursor + 1 }
        } else {
            if cursor == 0 { n - 1 } else { cursor - 1 }
        };
        lemma_space_positions_in_range(n, next, rest);
        if events[0][0] == 32 {
            let tail = space_positions(n, cursor, rest);
            let all = seq![cursor] + tail;
            assert(space_positions(n, cursor, events) == all);
            assert forall|k: int| 0 <= k < all.len() implies 0 <= #[trigger] all[k] < n by {
                if k > 0 {
                    assert(all[k] == tail[k - 1]);
                }
            }
        } else {
            assert(space_positions(n, cursor, events) == space_positions(n, next, rest));
        }
    }
}

proof fn lemma_run_until_confirm(v: SelectorView, events: Seq<[u8; 3]>, enter: [u8; 3], height: int)
    requires
        0 <= v.cursor < v.items.len(),
        height >= 2,
        forall|k: int| 0 <= k < events.len() ==> is_navigation_or_toggle(#[trigger] events[k]),
        enter[0] == 13 && enter[1] == 0,
    ensures
        spec_run(v, events.push(enter), height) == Some(
            OutcomeView::Confirmed(
                selected_contents(toggle_all(v.items, space_positions(v.items.len() as int, v.cursor, events))),
            ),
        ),
    decreases events.len(),
{
    let n = v.items.len() as int;
    let all = events.push(enter);
    if events.len() == 0 {
        assert(all[0] == enter);
    } else {
        let e = events[0];
        let rest = events.drop_first();
        assert(is_navigation_or_toggle(e));
        assert(all[0] == e);
        assert(all.drop_first() =~= rest.push(enter));
        let next = spec_step(v, e, height).0;
        assert forall|k: int| 0 <= k < rest.len() implies is_navigation_or_toggle(#[trigger] rest[k]) by {
            assert(rest[k] == events[k + 1]);
        }
        lemma_run_until_confirm(next, rest, enter, height);
        if e[0] == 32 {
            let tail = space_positions(n, v.cursor, rest);
            assert((seq![v.cursor] + tail)[0] == v.cursor);
            assert((seq![v.cursor] + tail).drop_first() =~= tail);
        }
    }
}

/// A session that receives any mix of `j`, `k` and Space and then Enter
/// confirms the items that were under the cursor at an odd number of Space
/// presses, in the order of the input list, never in the order they were
/// toggled.
pub proof fn lemma_confirm_keeps_input_order(
    strs: Seq<Seq<char>>,
    events: Seq<[u8; 3]>,
    enter: [u8; 3],
    height: int,
)
    requires
        strs.len() > 0,
        height >= 2,
        forall|k: int| 0 <= k < events.len() ==> is_navigation_or_toggle(#[trigger] events[k]),
        enter[0] == 13 && enter[1] == 0,
    ensures
        spec_run(initial_view(strs), events.push(enter), height) == Some(
            OutcomeView::Confirmed(
                pick(strs, toggled_odd_times(space_positions(strs.len() as int, 0, events))),
            ),
        ),
{
    let v = initial_view(strs);
    lemma_run_until_confirm(v, events, enter, height);
    let positions = space_positions(strs.len() as int, 0, events);
    lemma_space_positions_in_range(strs.len() as int, 0, events);
    lemma_selection_keeps_input_order(strs, positions);
}

} // verus!
