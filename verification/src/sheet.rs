//! Decisions of the rendered and printed chord sheet: how a part's items
//! fall into rows, repeat-sign labels, text colours and lyrics line breaks.
use vstd::prelude::*;
use vstd::string::*;
use vstd::utf8::*;
use crate::text::{owned, push_decimal, decimal};
use crate::auth::hex::hex_value;
use crate::song::part::{PartItem, PartItemView, items_view};

verus! {

broadcast use vstd::string::group_string_axioms;

/// The label printed for a repeat sign: `||:`, followed by ` x<times>`
/// when a repeat count is given.
pub open spec fn repeat_text(times: u8) -> Seq<char> {
    if times > 0 {
        "||: x"@ + decimal(times as nat)
    } else {
        "||:"@
    }
}

/// The label printed for a repeat sign.
pub fn repeat_label(times: u8) -> (r: String)
    ensures
        r@ == repeat_text(times),
{
    if times > 0 {
        let mut r = owned("||: x");
        push_decimal(&mut r, times as u64);
        r
    } else {
        owned("||:")
    }
}

/// `s` without its leading `#` characters.
pub open spec fn strip_hashes(s: Seq<u8>) -> Seq<u8>
    decreases s.len(),
{
    if s.len() > 0 && s[0] == 35 {
        strip_hashes(s.drop_first())
    } else {
        s
    }
}

/// The value of a two-character base-16 number, as `u8::from_str_radix`
/// reads it: two hex digits, or `+` and one hex digit; `None` otherwise.
pub open spec fn radix16_pair(a: u8, b: u8) -> Option<int> {
    match (hex_value(a), hex_value(b)) {
        (Some(h), Some(l)) => Some(h * 16 + l),
        (None, Some(l)) => if a == 43 {
            Some(l)
        } else {
            None
        },
        _ => None,
    }
}

/// One colour channel: the pair's value, or `fallback` when it does not parse.
pub open spec fn channel(a: u8, b: u8, fallback: int) -> int {
    match radix16_pair(a, b) {
        Some(v) => v,
        None => fallback,
    }
}

/// The RGB colour of a lyrics colour string such as `#3a3a4e`: leading `#`s
/// are dropped; six remaining bytes give three channels (a channel that
/// does not parse is 0x55); any other length gives grey (0x55, 0x55, 0x55).
pub open spec fn color_rgb(bytes: Seq<u8>) -> (int, int, int) {
    let h = strip_hashes(bytes);
    if h.len() == 6 {
        (channel(h[0], h[1], 0x55), channel(h[2], h[3], 0x55), channel(h[4], h[5], 0x55))
    } else {
        (0x55, 0x55, 0x55)
    }
}

/// The colours whose channel slices fall between characters (the sheet
/// slices the text by bytes and cannot cut a character in two).
pub open spec fn color_sliceable(bytes: Seq<u8>) -> bool {
    let h = strip_hashes(bytes);
    h.len() == 6 ==> is_char_boundary(h, 2) && is_char_boundary(h, 4)
}

/// The RGB colour of a comment's colour string: leading `#`s are dropped;
/// six bytes give three channels, three bytes give three channels of one
/// doubled digit each (`#abc` is `#aabbcc`); a channel that does not parse
/// is 0x88, and any other length gives grey (0x88, 0x88, 0x88).
pub open spec fn comment_rgb(bytes: Seq<u8>) -> (int, int, int) {
    let h = strip_hashes(bytes);
    if h.len() == 6 {
        (channel(h[0], h[1], 0x88), channel(h[2], h[3], 0x88), channel(h[4], h[5], 0x88))
    } else if h.len() == 3 {
        (channel(h[0], h[0], 0x88), channel(h[1], h[1], 0x88), channel(h[2], h[2], 0x88))
    } else {
        (0x88, 0x88, 0x88)
    }
}

/// The comment colours whose channel slices fall between characters.
pub open spec fn comment_color_sliceable(bytes: Seq<u8>) -> bool {
    let h = strip_hashes(bytes);
    &&& h.len() == 6 ==> is_char_boundary(h, 2) && is_char_boundary(h, 4)
    &&& h.len() == 3 ==> is_char_boundary(h, 1) && is_char_boundary(h, 2)
}

fn channel_exec(a: u8, b: u8, fallback: u8) -> (r: u8)
    ensures
        r as int == channel(a, b, fallback as int),
{
    let hv = |c: u8| -> (r: Option<u8>)
        ensures
            match r {
                Some(v) => hex_value(c) == Some(v as int),
                None => hex_value(c) is None,
            },
        {
            if 48 <= c && c <= 57 {
                Some(c - 48)
            } else if 97 <= c && c <= 102 {
                Some(c - 87)
            } else if 65 <= c && c <= 70 {
                Some(c - 55)
            } else {
                None
            }
        };
    match (hv(a), hv(b)) {
        (Some(h), Some(l)) => h * 16 + l,
        (None, Some(l)) => if a == 43 {
            l
        } else {
            fallback
        },
        _ => fallback,
    }
}

/// How many `#` bytes lead `b`.
fn hash_prefix_len(b: &[u8]) -> (r: usize)
    ensures
        r <= b@.len(),
        strip_hashes(b@) == b@.subrange(r as int, b@.len() as int),
{
    let mut i: usize = 0;
    assert(b@.subrange(0, b@.len() as int) =~= b@);
    while i < b.len() && b[i] == 35
        invariant
            i <= b@.len(),
            strip_hashes(b@) == strip_hashes(b@.subrange(i as int, b@.len() as int)),
        decreases b@.len() - i,
    {
        assert(b@.subrange(i as int, b@.len() as int).drop_first() =~= b@.subrange(
            i + 1,
            b@.len() as int,
        ));
        i = i + 1;
    }
    i
}

/// The RGB colour of a lyrics colour string (see `color_rgb`).
pub fn text_color_rgb(color: &str) -> (r: (u8, u8, u8))
    requires
        color_sliceable(color.spec_bytes()),
    ensures
        (r.0 as int, r.1 as int, r.2 as int) == color_rgb(color.spec_bytes()),
{
    let b = color.as_bytes();
    let i = hash_prefix_len(b);
    if b.len() - i == 6 {
        (
            channel_exec(b[i], b[i + 1], 0x55),
            channel_exec(b[i + 2], b[i + 3], 0x55),
            channel_exec(b[i + 4], b[i + 5], 0x55),
        )
    } else {
        (0x55, 0x55, 0x55)
    }
}

/// The RGB colour of a comment's colour string (see `comment_rgb`).
pub fn comment_color_rgb(color: &str) -> (r: (u8, u8, u8))
    requires
        comment_color_sliceable(color.spec_bytes()),
    ensures
        (r.0 as int, r.1 as int, r.2 as int) == comment_rgb(color.spec_bytes()),
{
    let b = color.as_bytes();
    let i = hash_prefix_len(b);
    if b.len() - i == 6 {
        (
            channel_exec(b[i], b[i + 1], 0x88),
            channel_exec(b[i + 2], b[i + 3], 0x88),
            channel_exec(b[i + 4], b[i + 5], 0x88),
        )
    } else if b.len() - i == 3 {
        (
            channel_exec(b[i], b[i], 0x88),
            channel_exec(b[i + 1], b[i + 1], 0x88),
            channel_exec(b[i + 2], b[i + 2], 0x88),
        )
    } else {
        (0x88, 0x88, 0x88)
    }
}

/// The position of the last space byte of `s`, if it has one.
pub open spec fn last_space(s: Seq<u8>) -> Option<int>
    decreases s.len(),
{
    if s.len() == 0 {
        None
    } else if s.last() == 32 {
        Some(s.len() - 1)
    } else {
        last_space(s.drop_last())
    }
}

/// The last space of `s`, when there is one, lies inside `s`.
pub proof fn lemma_last_space_in_range(s: Seq<u8>)
    ensures
        last_space(s) matches Some(i) ==> 0 <= i < s.len() && s[i] == 32,
    decreases s.len(),
{
    if s.len() > 0 && s.last() != 32 {
        lemma_last_space_in_range(s.drop_last());
    }
}

/// How many bytes of `s` go on the next line when at most `max` fit: all
/// of them when they fit, else everything up to and including the last
/// space among the first `max` bytes, else exactly `max`.
pub open spec fn wrap_take(s: Seq<u8>, max: int) -> int {
    if s.len() <= max {
        s.len() as int
    } else {
        match last_space(s.subrange(0, max)) {
            Some(i) => i + 1,
            None => max,
        }
    }
}

/// The byte offsets at which the lines of `s` end when it is wrapped from
/// `start` on, at most `max` bytes a line.
pub open spec fn wrap_ends(s: Seq<u8>, max: int, start: int) -> Seq<int>
    decreases s.len() - start,
    when 0 <= start && max >= 1
{
    if start >= s.len() {
        seq![]
    } else {
        let t = wrap_take(s.subrange(start, s.len() as int), max);
        proof {
            if s.len() - start > max {
                lemma_last_space_in_range(s.subrange(start, s.len() as int).subrange(0, max));
            }
        }
        seq![start + t] + wrap_ends(s, max, start + t)
    }
}

/// The last space byte of `b[lo..hi]`, counted from `lo`.
fn last_space_in(b: &[u8], lo: usize, hi: usize) -> (r: Option<usize>)
    requires
        lo <= hi <= b@.len(),
    ensures
        match r {
            Some(i) => last_space(b@.subrange(lo as int, hi as int)) == Some(i as int),
            None => last_space(b@.subrange(lo as int, hi as int)) is None,
        },
{
    let mut j: usize = hi;
    while j > lo
        invariant
            lo <= j <= hi <= b@.len(),
            last_space(b@.subrange(lo as int, hi as int)) == last_space(
                b@.subrange(lo as int, j as int),
            ),
        decreases j,
    {
        if b[j - 1] == 32 {
            return Some(j - 1 - lo);
        }
        assert(b@.subrange(lo as int, j as int).drop_last() =~= b@.subrange(
            lo as int,
            j - 1,
        ));
        j = j - 1;
    }
    assert(b@.subrange(lo as int, j as int).len() == 0);
    None
}

/// Where the lyrics line `line` breaks when at most `max_chars` bytes fit
/// on a printed line: the byte offset at which each printed line ends.
pub fn wrap_line_ends(line: &str, max_chars: usize) -> (r: Vec<usize>)
    requires
        max_chars >= 1,
    ensures
        r@.len() == wrap_ends(line.spec_bytes(), max_chars as int, 0).len(),
        forall|k: int|
            0 <= k < r@.len() ==> r@[k] as int == #[trigger] wrap_ends(
                line.spec_bytes(),
                max_chars as int,
                0,
            )[k],
{
    let b = line.as_bytes();
    let ghost s = b@;
    let ghost m = max_chars as int;
    let n = b.len();
    let mut ends: Vec<usize> = Vec::new();
    let mut start: usize = 0;
    while start < n
        invariant
            b@ == s,
            s == line.spec_bytes(),
            m == max_chars as int,
            max_chars >= 1,
            n == s.len(),
            start <= n,
            ends@.len() + wrap_ends(s, m, start as int).len() == wrap_ends(s, m, 0).len(),
            forall|k: int| 0 <= k < ends@.len() ==> ends@[k] as int == #[trigger] wrap_ends(s, m, 0)[k],
            forall|k: int|
                0 <= k < wrap_ends(s, m, start as int).len() ==> #[trigger] wrap_ends(
                    s,
                    m,
                    start as int,
                )[k] == wrap_ends(s, m, 0)[ends@.len() + k],
        decreases n - start,
    {
        let rem = n - start;
        let ghost rest = s.subrange(start as int, n as int);
        let take: usize = if rem <= max_chars {
            rem
        } else {
            assert(rest.subrange(0, m) =~= s.subrange(start as int, start + m));
            match last_space_in(b, start, start + max_chars) {
                Some(i) => {
                    proof {
                        lemma_last_space_in_range(s.subrange(start as int, start + m));
                    }
                    i + 1
                },
                None => max_chars,
            }
        };
        assert(take as int == wrap_take(rest, m));
        let ghost tail = wrap_ends(s, m, start as int);
        assert(tail == seq![start + take as int] + wrap_ends(s, m, start + take as int));
        assert(tail[0] == start + take);
        assert forall|k: int| 0 <= k < wrap_ends(s, m, start + take as int).len() implies
            wrap_ends(s, m, start + take as int)[k] == #[trigger] wrap_ends(s, m, 0)[ends@.len() + 1 + k] by {
            assert(tail[k + 1] == wrap_ends(s, m, start + take as int)[k]);
            assert(tail[k + 1] == wrap_ends(s, m, 0)[ends@.len() + (k + 1)]);
            assert(ends@.len() + (k + 1) == ends@.len() + 1 + k);
        }
        ends.push(start + take);
        start = start + take;
    }
    ends
}

/// A row of a rendered chord part: a run of chord-grid items, or a comment
/// on a line of its own; each given by item positions.
#[derive(Debug, Clone, PartialEq)]
pub enum SheetRow {
    Chords(Vec<usize>),
    Text(usize),
}

/// The abstract content of a row.
pub enum SheetRowView {
    Chords(Seq<int>),
    Text(int),
}

impl View for SheetRow {
    type V = SheetRowView;

    open spec fn view(&self) -> SheetRowView {
        match self {
            SheetRow::Chords(v) => SheetRowView::Chords(v@.map_values(|i: usize| i as int)),
            SheetRow::Text(i) => SheetRowView::Text(*i as int),
        }
    }
}

/// The rows a part's items fall into: a line break starts a new row; a
/// comment closes a non-empty row, stands on a row of its own, and is
/// followed by a new row; every other item joins the current row.
pub open spec fn sheet_rows_of(items: Seq<PartItemView>) -> Seq<SheetRowView>
    decreases items.len(),
{
    if items.len() == 0 {
        seq![SheetRowView::Chords(seq![])]
    } else {
        let r = sheet_rows_of(items.drop_last());
        let i = items.len() - 1;
        match items.last() {
            PartItemView::LineBreak => r.push(SheetRowView::Chords(seq![])),
            PartItemView::Text { .. } => {
                let r1 = match r.last() {
                    SheetRowView::Chords(v) => if v.len() > 0 {
                        r.push(SheetRowView::Chords(seq![]))
                    } else {
                        r
                    },
                    SheetRowView::Text(_) => r,
                };
                r1.push(SheetRowView::Text(i)).push(SheetRowView::Chords(seq![]))
            },
            _ => match r.last() {
                SheetRowView::Chords(v) => r.update(r.len() - 1, SheetRowView::Chords(v.push(i))),
                SheetRowView::Text(_) => r,
            },
        }
    }
}

/// The rows of a part's items (see `sheet_rows_of`).
pub fn sheet_rows(items: &Vec<PartItem>) -> (r: Vec<SheetRow>)
    ensures
        r@.map_values(|row: SheetRow| row@) == sheet_rows_of(items_view(items@)),
{
    let ghost iv = items_view(items@);
    let mut done: Vec<SheetRow> = Vec::new();
    let mut cur: Vec<usize> = Vec::new();
    let mut i: usize = 0;
    assert(iv.take(0) =~= Seq::<PartItemView>::empty());
    assert(cur@.map_values(|x: usize| x as int) =~= Seq::<int>::empty());
    while i < items.len()
        invariant
            i <= items@.len(),
            iv == items_view(items@),
            sheet_rows_of(iv.take(i as int)) == done@.map_values(|row: SheetRow| row@).push(
                SheetRowView::Chords(cur@.map_values(|x: usize| x as int)),
            ),
        decreases items@.len() - i,
    {
        let ghost before = done@.map_values(|row: SheetRow| row@);
        let ghost open_row = cur@.map_values(|x: usize| x as int);
        let ghost next = iv.take(i + 1);
        assert(next.drop_last() =~= iv.take(i as int));
        assert(next.last() == items@[i as int]@);
        match &items[i] {
            PartItem::LineBreak => {
                let finished = cur;
                cur = Vec::new();
                done.push(SheetRow::Chords(finished));
                assert(done@.map_values(|row: SheetRow| row@) =~= before.push(
                    SheetRowView::Chords(open_row),
                ));
                assert(cur@.map_values(|x: usize| x as int) =~= Seq::<int>::empty());
            },
            PartItem::Text { .. } => {
                let finished = cur;
                cur = Vec::new();
                let nonempty = finished.len() > 0;
                done.push(SheetRow::Chords(finished));
                if nonempty {
                    done.push(SheetRow::Chords(Vec::new()));
                }
                done.push(SheetRow::Text(i));
                assert(cur@.map_values(|x: usize| x as int) =~= Seq::<int>::empty());
                if nonempty {
                    assert(done@.map_values(|row: SheetRow| row@) =~= before.push(
                        SheetRowView::Chords(open_row),
                    ).push(SheetRowView::Chords(Seq::<int>::empty())).push(SheetRowView::Text(i as int)));
                } else {
                    assert(open_row =~= Seq::<int>::empty());
                    assert(done@.map_values(|row: SheetRow| row@) =~= before.push(
                        SheetRowView::Chords(open_row),
                    ).push(SheetRowView::Text(i as int)));
                }
            },
            _ => {
                cur.push(i);
                assert(cur@.map_values(|x: usize| x as int) =~= open_row.push(i as int));
            },
        }
        i = i + 1;
    }
    assert(iv.take(items@.len() as int) =~= iv);
    let ghost before = done@.map_values(|row: SheetRow| row@);
    done.push(SheetRow::Chords(cur));
    assert(done@.map_values(|row: SheetRow| row@) =~= before.push(
        SheetRowView::Chords(cur@.map_values(|x: usize| x as int)),
    ));
    done
}

} // verus!
