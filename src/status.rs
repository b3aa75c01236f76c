//! Turning the short status listing of a version-control tool into
//! selectable entries, and entries into display lines.
//!
//! Each line of the listing is a two-character status code, a separator and
//! a path: ` M src/main.rs`.
use vstd::prelude::*;

verus! {

/// One entry of a status listing.
#[derive(Debug, PartialEq)]
pub struct File {
    pub status: String,
    pub path: String,
    pub is_selected: bool,
}

impl View for File {
    type V = (Seq<char>, Seq<char>, bool);

    open spec fn view(&self) -> (Seq<char>, Seq<char>, bool) {
        (self.status@, self.path@, self.is_selected)
    }
}

pub open spec fn files_view(v: Seq<File>) -> Seq<(Seq<char>, Seq<char>, bool)> {
    v.map_values(|f: File| f@)
}

/// The text split at each newline: one more piece than there are newlines.
pub open spec fn pieces(s: Seq<char>) -> Seq<Seq<char>>
    decreases s.len(),
{
    if s.len() == 0 {
        seq![seq![]]
    } else {
        let p = pieces(s.drop_last());
        if s.last() == '\n' {
            p.push(seq![])
        } else {
            p.update(p.len() - 1, p.last().push(s.last()))
        }
    }
}

/// A line without the carriage return that ended it, if any.
pub open spec fn strip_cr(l: Seq<char>) -> Seq<char> {
    if l.len() > 0 && l.last() == '\r' {
        l.drop_last()
    } else {
        l
    }
}

/// The lines of a text: split at `\n`, a `\r` before the `\n` removed,
/// and no empty last line after a final newline.
pub open spec fn text_lines(s: Seq<char>) -> Seq<Seq<char>> {
    let p = pieces(s);
    let ended = p.drop_last().map_values(|l: Seq<char>| strip_cr(l));
    if p.last().len() == 0 {
        ended
    } else {
        ended.push(p.last())
    }
}

/// Number of bytes of `c` in UTF-8.
pub open spec fn utf8_len(c: char) -> int {
    let u = c as u32;
    if u < 0x80 {
        1
    } else if u < 0x800 {
        2
    } else if u < 0x10000 {
        3
    } else {
        4
    }
}

/// Number of leading characters of `l` that fit in its first `bytes`
/// bytes of UTF-8.
pub open spec fn chars_within(l: Seq<char>, bytes: int) -> int
    decreases l.len(),
{
    if l.len() == 0 || utf8_len(l[0]) > bytes {
        0
    } else {
        1 + chars_within(l.drop_first(), bytes - utf8_len(l[0]))
    }
}

/// Number of leading characters of `l` that begin before byte `bytes` of
/// its UTF-8 encoding.
pub open spec fn chars_starting_before(l: Seq<char>, bytes: int) -> int
    decreases l.len(),
{
    if l.len() == 0 || bytes <= 0 {
        0
    } else {
        1 + chars_starting_before(l.drop_first(), bytes - utf8_len(l[0]))
    }
}

/// The entry a line describes, by UTF-8 byte offsets: bytes `0..2` are the
/// status and what follows byte 3 is the path. Where byte 2 or 3 falls
/// inside a character, the status keeps only the characters that end within
/// byte 2 and the path starts at the first character that begins at byte 3
/// or later; a line shorter than 3 bytes has all of it as status and an
/// empty path.
pub open spec fn entry_of(l: Seq<char>) -> (Seq<char>, Seq<char>, bool) {
    (l.subrange(0, chars_within(l, 2)), l.subrange(chars_starting_before(l, 3), l.len() as int), false)
}

/// The entries of a status listing, one per line, none selected.
pub open spec fn spec_entries(s: Seq<char>) -> Seq<(Seq<char>, Seq<char>, bool)> {
    text_lines(s).map_values(|l: Seq<char>| entry_of(l))
}

fn char_utf8_len(c: char) -> (r: usize)
    ensures
        r as int == utf8_len(c),
{
    let u = c as u32;
    if u < 0x80 {
        1
    } else if u < 0x800 {
        2
    } else if u < 0x10000 {
        3
    } else {
        4
    }
}

/// `chars_within` of the characters `[start, end)` of `s`.
fn count_chars_within(s: &str, start: usize, end: usize, bytes: usize) -> (k: usize)
    requires
        start <= end <= s@.len(),
    ensures
        k as int == chars_within(s@.subrange(start as int, end as int), bytes as int),
        start + k <= end,
{
    let ghost l = s@.subrange(start as int, end as int);
    let mut i: usize = start;
    let mut left: usize = bytes;
    while i < end
        invariant
            start <= i <= end <= s@.len(),
            l == s@.subrange(start as int, end as int),
            left <= bytes,
            chars_within(l, bytes as int) == (i - start) + chars_within(
                s@.subrange(i as int, end as int),
                left as int,
            ),
        decreases end - i,
    {
        let ghost rest = s@.subrange(i as int, end as int);
        assert(rest[0] == s@[i as int]);
        assert(rest.drop_first() =~= s@.subrange(i + 1, end as int));
        let n = char_utf8_len(s.get_char(i));
        if n > left {
            return i - start;
        }
        left = left - n;
        i = i + 1;
    }
    assert(s@.subrange(i as int, end as int).len() == 0);
    i - start
}

/// `chars_starting_before` of the characters `[start, end)` of `s`.
fn count_chars_starting_before(s: &str, start: usize, end: usize, bytes: usize) -> (k: usize)
    requires
        start <= end <= s@.len(),
    ensures
        k as int == chars_starting_before(s@.subrange(start as int, end as int), bytes as int),
        start + k <= end,
{
    let ghost l = s@.subrange(start as int, end as int);
    let mut i: usize = start;
    let mut left: usize = bytes;
    while i < end
        invariant
            start <= i <= end <= s@.len(),
            l == s@.subrange(start as int, end as int),
            chars_starting_before(l, bytes as int) == (i - start) + chars_starting_before(
                s@.subrange(i as int, end as int),
                left as int,
            ),
        decreases end - i,
    {
        let ghost rest = s@.subrange(i as int, end as int);
        assert(rest[0] == s@[i as int]);
        assert(rest.drop_first() =~= s@.subrange(i + 1, end as int));
        if left == 0 {
            return i - start;
        }
        let n = char_utf8_len(s.get_char(i));
        if n >= left {
            proof {
                let r2 = rest.drop_first();
                if r2.len() > 0 {
                    assert(chars_starting_before(r2, left - n) == 0);
                }
            }
            assert(chars_starting_before(rest, left as int) == 1);
            return i + 1 - start;
        }
        left = left - n;
        i = i + 1;
    }
    assert(s@.subrange(i as int, end as int).len() == 0);
    i - start
}

/// The entry for the characters `[start, end)` of `s`.
fn entry_at(s: &str, start: usize, end: usize) -> (r: File)
    requires
        start <= end <= s@.len(),
    ensures
        r@ == entry_of(s@.subrange(start as int, end as int)),
{
    let mid = start + count_chars_within(s, start, end, 2);
    let from = start + count_chars_starting_before(s, start, end, 3);
    let status = String::from_str(s.substring_char(start, mid));
    let path = String::from_str(s.substring_char(from, end));
    let ghost l = s@.subrange(start as int, end as int);
    assert(status@ =~= entry_of(l).0);
    assert(path@ =~= entry_of(l).1);
    File { status, path, is_selected: false }
}

/// The entries of a status listing, one per line, in order, none selected.
pub fn marshal_status_in_files(status: String) -> (r: Vec<File>)
    ensures
        files_view(r@) == spec_entries(status@),
{
    let s = status.as_str();
    let n = s.unicode_len();
    let mut files: Vec<File> = Vec::new();
    let mut start: usize = 0;
    let mut i: usize = 0;
    let ghost mut done: Seq<Seq<char>> = seq![];
    assert(s@.subrange(0, 0) =~= Seq::<char>::empty());
    while i < n
        invariant
            n == s@.len(),
            start <= i <= n,
            pieces(s@.subrange(0, i as int)) == done.push(s@.subrange(start as int, i as int)),
            files.len() == done.len(),
            forall|k: int| 0 <= k < done.len() ==> #[trigger] files@[k]@ == entry_of(strip_cr(done[k])),
        decreases n - i,
    {
        let c = s.get_char(i);
        let ghost prefix = s@.subrange(0, i + 1);
        assert(prefix.drop_last() =~= s@.subrange(0, i as int));
        assert(prefix.last() == c);
        if c == '\n' {
            let mut end = i;
            if i > start {
                if s.get_char(i - 1) == '\r' {
                    end = i - 1;
                }
            }
            let ghost line = s@.subrange(start as int, i as int);
            assert(strip_cr(line) =~= s@.subrange(start as int, end as int));
            let f = entry_at(s, start, end);
            files.push(f);
            proof {
                done = done.push(line);
                assert(s@.subrange(i + 1, i + 1) =~= Seq::<char>::empty());
            }
            start = i + 1;
        } else {
            assert(s@.subrange(start as int, i + 1) =~= s@.subrange(start as int, i as int).push(c));
        }
        i = i + 1;
    }
    assert(s@.subrange(0, n as int) =~= s@);
    let ghost ended = done.map_values(|l: Seq<char>| strip_cr(l));
    assert(pieces(s@).drop_last() =~= done);
    if start < n {
        let f = entry_at(s, start, n);
        files.push(f);
        assert(text_lines(s@) =~= ended.push(s@.subrange(start as int, n as int)));
    } else {
        assert(text_lines(s@) =~= ended);
    }
    assert(files_view(files@) =~= spec_entries(status@));
    files
}

/// An entry as shown: selection marker in brackets, status, path.
pub open spec fn spec_fmt_file(f: (Seq<char>, Seq<char>, bool)) -> Seq<char> {
    seq!['[', if f.2 { '*' } else { ' ' }, ']', ' '] + f.0 + seq![' '] + f.1
}

/// One display line per entry, in order.
pub fn fmt_files_to_strings(files: Vec<File>) -> (r: Vec<String>)
    ensures
        r@.len() == files@.len(),
        forall|i: int| 0 <= i < files@.len() ==> #[trigger] r@[i]@ == spec_fmt_file(files@[i]@),
{
    let mut out: Vec<String> = Vec::new();
    let mut i: usize = 0;
    while i < files.len()
        invariant
            i <= files.len(),
            out.len() == i,
            forall|k: int| 0 <= k < i ==> #[trigger] out@[k]@ == spec_fmt_file(files@[k]@),
        decreases files.len() - i,
    {
        let f = &files[i];
        let mut s = if f.is_selected {
            String::from_str("[*] ")
        } else {
            String::from_str("[ ] ")
        };
        s.append(f.status.as_str());
        s.append(" ");
        s.append(f.path.as_str());
        proof {
            reveal_strlit("[*] ");
            reveal_strlit("[ ] ");
            reveal_strlit(" ");
        }
        assert(s@ =~= spec_fmt_file(f@));
        out.push(s);
        i = i + 1;
    }
    out
}

} // verus!
