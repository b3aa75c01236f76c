//! The text written to the terminal: frames of lines, and the escape
//! sequences and blank rows that erase the previous frame.
use vstd::prelude::*;

use crate::store::texts;

verus! {

/// The decimal digit for `d` in `0..10`.
pub open spec fn digit(d: int) -> char {
    seq!['0', '1', '2', '3', '4', '5', '6', '7', '8', '9'][d]
}

/// `n` written in decimal.
pub open spec fn spec_decimal(n: nat) -> Seq<char>
    decreases n,
{
    if n < 10 {
        seq![digit(n as int)]
    } else {
        spec_decimal(n / 10).push(digit((n % 10) as int))
    }
}

/// `s` written `count` times.
pub open spec fn repeat(s: Seq<char>, count: nat) -> Seq<char>
    decreases count,
{
    if count == 0 {
        seq![]
    } else {
        repeat(s, (count - 1) as nat) + s
    }
}

/// The escape sequence `ESC [ n A` that moves the cursor up `n` rows;
/// nothing for zero rows.
pub open spec fn spec_cursor_up(n: nat) -> Seq<char> {
    if n == 0 {
        seq![]
    } else {
        seq!['\u{1b}', '['] + spec_decimal(n) + seq!['A']
    }
}

/// A row of `width` spaces and a newline.
pub open spec fn blank_row(width: nat) -> Seq<char> {
    repeat(seq![' '], width) + seq!['\n']
}

/// What erases `rows` rows written above the cursor on a screen `width`
/// columns wide, leaving the cursor where the first of them began.
pub open spec fn spec_clear(rows: nat, width: nat) -> Seq<char> {
    spec_cursor_up(rows) + repeat(blank_row(width), rows) + spec_cursor_up(rows)
}

/// The lines joined with newlines between them.
pub open spec fn spec_join(lines: Seq<Seq<char>>) -> Seq<char>
    decreases lines.len(),
{
    if lines.len() == 0 {
        seq![]
    } else if lines.len() == 1 {
        lines[0]
    } else {
        spec_join(lines.drop_last()) + seq!['\n'] + lines.last()
    }
}

fn append_decimal(out: &mut String, n: usize)
    ensures
        final(out)@ == old(out)@ + spec_decimal(n as nat),
    decreases n,
{
    if n >= 10 {
        append_decimal(out, n / 10);
    }
    let d = n % 10;
    let digits = "0123456789";
    proof {
        reveal_strlit("0123456789");
    }
    assert(digits@ =~= seq!['0', '1', '2', '3', '4', '5', '6', '7', '8', '9']);
    let s = digits.substring_char(d, d + 1);
    assert(s@ =~= seq![digit(d as int)]);
    out.append(s);
    assert(final(out)@ =~= old(out)@ + spec_decimal(n as nat));
}

pub fn append_cursor_up(out: &mut String, n: usize)
    ensures
        final(out)@ == old(out)@ + spec_cursor_up(n as nat),
{
    if n != 0 {
        out.append("\u{1b}[");
        append_decimal(out, n);
        out.append("A");
        proof {
            reveal_strlit("\u{1b}[");
            reveal_strlit("A");
        }
        assert(final(out)@ =~= old(out)@ + spec_cursor_up(n as nat));
    }
}

/// Appends `s` to `out` `count` times.
pub fn append_repeat(out: &mut String, s: &str, count: usize)
    ensures
        final(out)@ == old(out)@ + repeat(s@, count as nat),
{
    let mut i: usize = 0;
    while i < count
        invariant
            i <= count,
            out@ == old(out)@ + repeat(s@, i as nat),
        decreases count - i,
    {
        out.append(s);
        i = i + 1;
        assert(out@ =~= old(out)@ + repeat(s@, i as nat));
    }
}

pub fn append_clear(out: &mut String, rows: usize, width: usize)
    ensures
        final(out)@ == old(out)@ + spec_clear(rows as nat, width as nat),
{
    let mut row = String::new();
    append_repeat(&mut row, " ", width);
    row.append("\n");
    proof {
        reveal_strlit(" ");
        reveal_strlit("\n");
    }
    assert(" "@ =~= seq![' ']);
    assert(row@ =~= blank_row(width as nat));
    append_cursor_up(out, rows);
    append_repeat(out, row.as_str(), rows);
    append_cursor_up(out, rows);
    assert(final(out)@ =~= old(out)@ + spec_clear(rows as nat, width as nat));
}

pub fn append_joined(out: &mut String, lines: &Vec<String>)
    ensures
        final(out)@ == old(out)@ + spec_join(texts(lines@)),
{
    let ghost all = texts(lines@);
    let mut i: usize = 0;
    while i < lines.len()
        invariant
            i <= lines.len(),
            all == texts(lines@),
            out@ == old(out)@ + spec_join(all.subrange(0, i as int)),
        decreases lines.len() - i,
    {
        if i > 0 {
            out.append("\n");
        }
        out.append(lines[i].as_str());
        proof {
            reveal_strlit("\n");
            let next = all.subrange(0, i + 1);
            assert(next.drop_last() =~= all.subrange(0, i as int));
            if i == 0 {
                assert(spec_join(next) == next[0]);
            }
        }
        i = i + 1;
        assert(out@ =~= old(out)@ + spec_join(all.subrange(0, i as int)));
    }
    assert(all.subrange(0, i as int) =~= all);
}

} // verus!
