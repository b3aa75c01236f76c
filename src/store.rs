//! The selectable items and their selection flags.
use vstd::prelude::*;

verus! {

/// One selectable item.
#[derive(Debug, PartialEq)]
pub struct Line {
    pub content: String,
    pub is_selected: bool,
}

impl View for Line {
    type V = (Seq<char>, bool);

    open spec fn view(&self) -> (Seq<char>, bool) {
        (self.content@, self.is_selected)
    }
}

/// The text of each string.
pub open spec fn texts(v: Seq<String>) -> Seq<Seq<char>> {
    v.map_values(|s: String| s@)
}

/// Each line as its text and its selection flag.
pub open spec fn items_of(v: Seq<Line>) -> Seq<(Seq<char>, bool)> {
    v.map_values(|l: Line| l@)
}

/// One unselected item per text, in the same order.
pub open spec fn fresh_items(strs: Seq<Seq<char>>) -> Seq<(Seq<char>, bool)> {
    strs.map_values(|s: Seq<char>| (s, false))
}

/// The items with the flag of item `i` flipped.
pub open spec fn toggled(items: Seq<(Seq<char>, bool)>, i: int) -> Seq<(Seq<char>, bool)> {
    items.update(i, (items[i].0, !items[i].1))
}

/// The texts of the selected items, in the order of the items.
pub open spec fn selected_contents(items: Seq<(Seq<char>, bool)>) -> Seq<Seq<char>>
    decreases items.len(),
{
    if items.len() == 0 {
        seq![]
    } else {
        let init = selected_contents(items.drop_last());
        if items.last().1 {
            init.push(items.last().0)
        } else {
            init
        }
    }
}

/// The items after flipping the flag at each index of `toggles`, in turn.
pub open spec fn toggle_all(items: Seq<(Seq<char>, bool)>, toggles: Seq<int>) -> Seq<(Seq<char>, bool)>
    decreases toggles.len(),
{
    if toggles.len() == 0 {
        items
    } else {
        toggle_all(toggled(items, toggles[0]), toggles.drop_first())
    }
}

/// The texts whose index is in `chosen`, in the order of `strs`.
pub open spec fn pick(strs: Seq<Seq<char>>, chosen: Set<int>) -> Seq<Seq<char>>
    decreases strs.len(),
{
    if strs.len() == 0 {
        seq![]
    } else {
        let init = pick(strs.drop_last(), chosen);
        if chosen.contains(strs.len() - 1) {
            init.push(strs.last())
        } else {
            init
        }
    }
}

/// Builds one unselected line per string, in the same order.
pub fn marshal_strings_into_lines(strings: Vec<String>) -> (r: Vec<Line>)
    ensures
        items_of(r@) == fresh_items(texts(strings@)),
{
    let mut lines: Vec<Line> = Vec::new();
    let mut i: usize = 0;
    while i < strings.len()
        invariant
            i <= strings.len(),
            lines.len() == i,
            forall|j: int| 0 <= j < i ==> #[trigger] lines@[j]@ == (strings@[j]@, false),
        decreases strings.len() - i,
    {
        let content = strings[i].clone();
        lines.push(Line { content, is_selected: false });
        i = i + 1;
    }
    assert(items_of(lines@) =~= fresh_items(texts(strings@)));
    lines
}

/// Flips the selection flag of line `i`.
pub fn toggle_line(lines: &mut Vec<Line>, i: usize)
    requires
        i < old(lines).len(),
    ensures
        final(lines).len() == old(lines).len(),
        items_of(final(lines)@) == toggled(items_of(old(lines)@), i as int),
{
    let flag = lines[i].is_selected;
    lines[i].is_selected = !flag;
    assert(items_of(final(lines)@) =~= toggled(items_of(old(lines)@), i as int));
}

/// The contents of the selected lines, in the order of the lines.
pub fn selected_lines(lines: &Vec<Line>) -> (r: Vec<String>)
    ensures
        texts(r@) == selected_contents(items_of(lines@)),
{
    let mut out: Vec<String> = Vec::new();
    let mut i: usize = 0;
    while i < lines.len()
        invariant
            i <= lines.len(),
            texts(out@) == selected_contents(items_of(lines@.subrange(0, i as int))),
        decreases lines.len() - i,
    {
        assert(items_of(lines@.subrange(0, i + 1)).drop_last() =~= items_of(lines@.subrange(0, i as int)));
        if lines[i].is_selected {
            out.push(lines[i].content.clone());
        }
        i = i + 1;
        assert(texts(out@) =~= selected_contents(items_of(lines@.subrange(0, i as int))));
    }
    assert(lines@.subrange(0, i as int) =~= lines@);
    out
}

/// Toggling the same item twice gives back the items as they were.
pub proof fn lemma_toggle_twice(items: Seq<(Seq<char>, bool)>, i: int)
    requires
        0 <= i < items.len(),
    ensures
        toggled(toggled(items, i), i) == items,
{
    assert(toggled(toggled(items, i), i) =~= items);
}

/// Whether `j` occurs an odd number of times in `s`.
pub open spec fn odd_count(s: Seq<int>, j: int) -> bool
    decreases s.len(),
{
    if s.len() == 0 {
        false
    } else {
        (s[0] == j) != odd_count(s.drop_first(), j)
    }
}

/// The indices that occur an odd number of times in `toggles`.
pub open spec fn toggled_odd_times(toggles: Seq<int>) -> Set<int> {
    Set::new(|j: int| odd_count(toggles, j))
}

proof fn lemma_toggle_all_flags(items: Seq<(Seq<char>, bool)>, toggles: Seq<int>)
    requires
        forall|k: int| 0 <= k < toggles.len() ==> 0 <= #[trigger] toggles[k] < items.len(),
    ensures
        toggle_all(items, toggles).len() == items.len(),
        forall|j: int|
            0 <= j < items.len() ==> #[trigger] toggle_all(items, toggles)[j] == (
                items[j].0,
                items[j].1 != odd_count(toggles, j),
            ),
    decreases toggles.len(),
{
    if toggles.len() > 0 {
        let rest = toggles.drop_first();
        let once = toggled(items, toggles[0]);
        assert forall|k: int| 0 <= k < rest.len() implies 0 <= #[trigger] rest[k] < once.len() by {
            assert(rest[k] == toggles[k + 1]);
        }
        lemma_toggle_all_flags(once, rest);
    }
}

proof fn lemma_selected_is_pick(strs: Seq<Seq<char>>, chosen: Set<int>, items: Seq<(Seq<char>, bool)>)
    requires
        items.len() == strs.len(),
        forall|j: int| 0 <= j < strs.len() ==> #[trigger] items[j] == (strs[j], chosen.contains(j)),
    ensures
        selected_contents(items) == pick(strs, chosen),
    decreases strs.len(),
{
    if strs.len() > 0 {
        let n = strs.len();
        assert forall|j: int| 0 <= j < n - 1 implies #[trigger] items.drop_last()[j] == (
            strs.drop_last()[j],
            chosen.contains(j),
        ) by {
            assert(items.drop_last()[j] == items[j]);
        }
        lemma_selected_is_pick(strs.drop_last(), chosen, items.drop_last());
        assert(items[n - 1] == (strs[n - 1], chosen.contains(n - 1)));
    }
}

/// Whatever order the items are toggled in, and however often each, the
/// selected contents are the items toggled an odd number of times, in the
/// order of the input list.
pub proof fn lemma_selection_keeps_input_order(strs: Seq<Seq<char>>, toggles: Seq<int>)
    requires
        forall|k: int| 0 <= k < toggles.len() ==> 0 <= #[trigger] toggles[k] < strs.len(),
    ensures
        selected_contents(toggle_all(fresh_items(strs), toggles)) == pick(strs, toggled_odd_times(toggles)),
{
    let items = fresh_items(strs);
    lemma_toggle_all_flags(items, toggles);
    let after = toggle_all(items, toggles);
    assert forall|j: int| 0 <= j < strs.len() implies #[trigger] after[j] == (
        strs[j],
        toggled_odd_times(toggles).contains(j),
    ) by {
        assert(after[j] == (items[j].0, items[j].1 != odd_count(toggles, j)));
    }
    lemma_selected_is_pick(strs, toggled_odd_times(toggles), after);
}

} // verus!
