//! The selector: its state, the effect of one input event on it, and the
//! lines it shows.
use vstd::prelude::*;

use crate::keys::{spec_key_of, Key};
use crate::render::{append_clear, append_joined, spec_clear, spec_join};
use crate::store::{
    fresh_items, items_of, marshal_strings_into_lines, selected_contents, selected_lines, texts,
    toggle_line, toggled, Line,
};
use crate::viewport::{move_down, move_up, spec_move_down, spec_move_up, valid_position, visible_rows};

verus! {

/// How a session ended.
#[derive(Debug, PartialEq)]
pub enum Outcome {
    /// The user confirmed; the selected lines in their input order.
    Confirmed(Vec<String>),
    /// The user quit with `q` or Escape.
    CancelledGracefully,
    /// The user interrupted with Ctrl-C.
    CancelledForcefully,
}

/// An [`Outcome`] with the selected lines as texts.
pub enum OutcomeView {
    Confirmed(Seq<Seq<char>>),
    CancelledGracefully,
    CancelledForcefully,
}

impl View for Outcome {
    type V = OutcomeView;

    open spec fn view(&self) -> OutcomeView {
        match self {
            Outcome::Confirmed(v) => OutcomeView::Confirmed(texts(v@)),
            Outcome::CancelledGracefully => OutcomeView::CancelledGracefully,
            Outcome::CancelledForcefully => OutcomeView::CancelledForcefully,
        }
    }
}

/// An optional outcome as its view.
pub open spec fn opt_view(o: Option<Outcome>) -> Option<OutcomeView> {
    match o {
        Some(x) => Some(x@),
        None => None,
    }
}

impl Outcome {
    /// Status with which the hosting process ends after a cancelled session:
    /// 0 when the user quit, 130 when the user interrupted. A confirmed
    /// session does not end the process.
    pub fn exit_code(&self) -> (r: Option<i32>)
        ensures
            match self@ {
                OutcomeView::Confirmed(_) => r is None,
                OutcomeView::CancelledGracefully => r == Some(0i32),
                OutcomeView::CancelledForcefully => r == Some(130i32),
            },
    {
        match self {
            Outcome::Confirmed(_) => None,
            Outcome::CancelledGracefully => Some(0),
            Outcome::CancelledForcefully => Some(130),
        }
    }
}

/// The items with their flags, the cursor and the first visible item.
pub struct SelectorView {
    pub items: Seq<(Seq<char>, bool)>,
    pub cursor: int,
    pub top: int,
}

/// The state at the start of a session over `strs`.
pub open spec fn initial_view(strs: Seq<Seq<char>>) -> SelectorView {
    SelectorView { items: fresh_items(strs), cursor: 0, top: 0 }
}

/// The state after one input event, and the outcome if the event ends the
/// session. An event is the three bytes of one read from the terminal: only
/// one with a zero second byte is a key, so escape sequences are ignored.
pub open spec fn spec_step(v: SelectorView, event: [u8; 3], height: int) -> (SelectorView, Option<OutcomeView>) {
    let n = v.items.len() as int;
    if event[1] != 0 {
        (v, None)
    } else {
        match spec_key_of(event[0]) {
            Some(Key::Q) | Some(Key::Escape) => (v, Some(OutcomeView::CancelledGracefully)),
            Some(Key::CtrlC) => (v, Some(OutcomeView::CancelledForcefully)),
            Some(Key::Enter) => (v, Some(OutcomeView::Confirmed(selected_contents(v.items)))),
            Some(Key::Space) => {
                if n > 0 {
                    (SelectorView { items: toggled(v.items, v.cursor), cursor: v.cursor, top: v.top }, None)
                } else {
                    (v, None)
                }
            },
            Some(Key::K) => {
                let p = spec_move_up(n, v.cursor, v.top, height);
                (SelectorView { items: v.items, cursor: p.0, top: p.1 }, None)
            },
            Some(Key::J) => {
                let p = spec_move_down(n, v.cursor, v.top, height);
                (SelectorView { items: v.items, cursor: p.0, top: p.1 }, None)
            },
            None => (v, None),
        }
    }
}

/// The outcome of a session that receives `events` in turn, or `None` if
/// none of them ends it.
pub open spec fn spec_run(v: SelectorView, events: Seq<[u8; 3]>, height: int) -> Option<OutcomeView>
    decreases events.len(),
{
    if events.len() == 0 {
        None
    } else {
        let (next, o) = spec_step(v, events[0], height);
        if o is Some {
            o
        } else {
            spec_run(next, events.drop_first(), height)
        }
    }
}

/// Rows `[start, end)` of the items that a screen of `height` rows shows.
pub open spec fn spec_window(n: int, top: int, height: int) -> (int, int) {
    if n > height {
        (top, if top + visible_rows(height) < n { top + visible_rows(height) } else { n })
    } else {
        (0, n)
    }
}

/// One item as shown: cursor marker, selection marker in brackets, text.
pub open spec fn spec_fmt_line(item: (Seq<char>, bool), under_cursor: bool) -> Seq<char> {
    seq![if under_cursor { '>' } else { ' ' }, ' ', '[', if item.1 { '*' } else { ' ' }, ']', ' ']
        + item.0
}

/// The lines shown on a screen of `height` rows.
pub open spec fn rendered_lines(v: SelectorView, height: int) -> Seq<Seq<char>> {
    let (start, end) = spec_window(v.items.len() as int, v.top, height);
    Seq::new(
        (end - start) as nat,
        |k: int| spec_fmt_line(v.items[start + k], start + k == v.cursor),
    )
}

fn fmt_line(line: &Line, under_cursor: bool) -> (r: String)
    ensures
        r@ == spec_fmt_line(line@, under_cursor),
{
    let mut s = if under_cursor {
        String::from_str("> [")
    } else {
        String::from_str("  [")
    };
    if line.is_selected {
        s.append("*");
    } else {
        s.append(" ");
    }
    s.append("] ");
    s.append(line.content.as_str());
    proof {
        reveal_strlit("> [");
        reveal_strlit("  [");
        reveal_strlit("*");
        reveal_strlit(" ");
        reveal_strlit("] ");
    }
    assert(s@ =~= spec_fmt_line(line@, under_cursor));
    s
}

/// The state of one interactive session.
pub struct SelectorState {
    /// How many lines the last frame wrote, to be erased before the next.
    pub max_number_of_lines: usize,
    pub selector_index: usize,
    pub top_of_screen_index: usize,
    pub lines: Vec<Line>,
}

impl View for SelectorState {
    type V = SelectorView;

    open spec fn view(&self) -> SelectorView {
        SelectorView {
            items: items_of(self.lines@),
            cursor: self.selector_index as int,
            top: self.top_of_screen_index as int,
        }
    }
}

impl SelectorState {
    pub open spec fn wf(&self) -> bool {
        valid_position(self.lines.len() as int, self.selector_index as int, self.top_of_screen_index as int)
    }

    /// A session over `strings`, none selected, the cursor on the first.
    pub fn new(strings: Vec<String>) -> (r: SelectorState)
        ensures
            r.wf(),
            r@ == initial_view(texts(strings@)),
            r.max_number_of_lines == 0,
    {
        SelectorState {
            max_number_of_lines: 0,
            top_of_screen_index: 0,
            selector_index: 0,
            lines: marshal_strings_into_lines(strings),
        }
    }

    /// Flips the selection of the item under the cursor.
    pub fn select_file_under_selector(&mut self)
        requires
            old(self).wf(),
            old(self).lines.len() > 0,
        ensures
            final(self).wf(),
            final(self)@ == (SelectorView {
                items: toggled(old(self)@.items, old(self)@.cursor),
                ..old(self)@
            }),
            final(self).max_number_of_lines == old(self).max_number_of_lines,
    {
        toggle_line(&mut self.lines, self.selector_index);
    }

    pub fn move_selector_down(&mut self, screen_height: usize)
        requires
            old(self).wf(),
            screen_height >= 2,
        ensures
            final(self).wf(),
            (final(self)@.cursor, final(self)@.top) == spec_move_down(
                old(self)@.items.len() as int,
                old(self)@.cursor,
                old(self)@.top,
                screen_height as int,
            ),
            final(self)@.items == old(self)@.items,
            final(self).max_number_of_lines == old(self).max_number_of_lines,
    {
        let (c, t) = move_down(self.lines.len(), self.selector_index, self.top_of_screen_index, screen_height);
        self.selector_index = c;
        self.top_of_screen_index = t;
    }

    pub fn move_selector_up(&mut self, screen_height: usize)
        requires
            old(self).wf(),
            screen_height >= 2,
        ensures
            final(self).wf(),
            (final(self)@.cursor, final(self)@.top) == spec_move_up(
                old(self)@.items.len() as int,
                old(self)@.cursor,
                old(self)@.top,
                screen_height as int,
            ),
            final(self)@.items == old(self)@.items,
            final(self).max_number_of_lines == old(self).max_number_of_lines,
    {
        let (c, t) = move_up(self.lines.len(), self.selector_index, self.top_of_screen_index, screen_height);
        self.selector_index = c;
        self.top_of_screen_index = t;
    }

    /// The contents of the selected lines, in their input order.
    pub fn get_selected_lines(&self) -> (r: Vec<String>)
        ensures
            texts(r@) == selected_contents(self@.items),
    {
        selected_lines(&self.lines)
    }

    /// The lines to show on a screen of `screen_height` rows.
    pub fn fmt_lines_for_display(&self, screen_height: usize) -> (r: Vec<String>)
        requires
            self.wf(),
            screen_height >= 2,
        ensures
            texts(r@) == rendered_lines(self@, screen_height as int),
    {
        let n = self.lines.len();
        let (start, end) = if n > screen_height {
            let top = self.top_of_screen_index;
            if top < n - (screen_height - 1) {
                (top, top + (screen_height - 1))
            } else {
                (top, n)
            }
        } else {
            (0, n)
        };
        let mut out: Vec<String> = Vec::new();
        let mut i: usize = start;
        while i < end
            invariant
                start <= i <= end <= n == self.lines.len(),
                out.len() == i - start,
                forall|k: int|
                    0 <= k < out.len() ==> #[trigger] out@[k]@ == spec_fmt_line(
                        self@.items[start + k],
                        start + k == self.selector_index,
                    ),
            decreases end - i,
        {
            let s = fmt_line(&self.lines[i], i == self.selector_index);
            out.push(s);
            i = i + 1;
        }
        assert(texts(out@) =~= rendered_lines(self@, screen_height as int));
        out
    }

    /// The text that erases the last frame written on a screen `width`
    /// columns wide and leaves the cursor where that frame began.
    pub fn clear_screen(&self, width: usize) -> (r: String)
        ensures
            r@ == spec_clear(self.max_number_of_lines as nat, width as nat),
    {
        let mut out = String::new();
        append_clear(&mut out, self.max_number_of_lines, width);
        out
    }

    /// The text that replaces the last frame with `lines`, each ended by a
    /// newline; remembers how many lines the new frame has.
    pub fn display(&mut self, lines: Vec<String>, width: usize) -> (r: String)
        ensures
            r@ == spec_clear(old(self).max_number_of_lines as nat, width as nat) + spec_join(texts(lines@))
                + seq!['\n'],
            final(self).max_number_of_lines == lines.len(),
            final(self)@ == old(self)@,
            final(self).lines.len() == old(self).lines.len(),
    {
        let mut out = self.clear_screen(width);
        append_joined(&mut out, &lines);
        out.append("\n");
        proof {
            reveal_strlit("\n");
        }
        self.max_number_of_lines = lines.len();
        out
    }

    /// Applies one input event, as read from the terminal in raw mode, and
    /// returns the outcome if it ends the session.
    pub fn handle_input(&mut self, event: [u8; 3], screen_height: usize) -> (r: Option<Outcome>)
        requires
            old(self).wf(),
            screen_height >= 2,
        ensures
            final(self).wf(),
            (final(self)@, opt_view(r)) == spec_step(old(self)@, event, screen_height as int),
            final(self).max_number_of_lines == old(self).max_number_of_lines,
    {
        if event[1] != 0 {
            return None;
        }
        match Key::from_u8(event[0]) {
            Some(Key::Q) | Some(Key::Escape) => Some(Outcome::CancelledGracefully),
            Some(Key::CtrlC) => Some(Outcome::CancelledForcefully),
            Some(Key::Enter) => Some(Outcome::Confirmed(self.get_selected_lines())),
            Some(Key::Space) => {
                if self.lines.len() > 0 {
                    self.select_file_under_selector();
                }
                None
            },
            Some(Key::K) => {
                self.move_selector_up(screen_height);
                None
            },
            Some(Key::J) => {
                self.move_selector_down(screen_height);
                None
            },
            None => None,
        }
    }
}

} // verus!
