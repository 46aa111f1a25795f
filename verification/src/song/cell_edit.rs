//! The tab editor's cell field: the text a cell is edited as, and the cell
//! that typed text stands for.
use vstd::prelude::*;
use vstd::string::*;
use crate::text::{
    owned, str_eq, trim, trim_start, trim_end, trim_str, is_ws, decimal, digit_char, digits_value,
    all_digits, parse_u8_text, parse_byte, push_decimal,
};
use crate::song::tab::{TabCell, TabCellView, cell_text};

verus! {

broadcast use vstd::string::group_string_axioms;

/// The cell that typed text stands for, once trimmed: `x`, `h`, `p`, `r`
/// and `b` (either case) are a muted note, hammer-on, pull-off, release and
/// bend; `/` and `\` are slides; `(n)` is a ghost note (capped at fret 24;
/// empty when `n` is not a `u8`); a `u8` up to 24 is a fret; nothing is
/// empty; anything else is kept as written.
pub open spec fn cell_of_text(text: Seq<char>) -> TabCellView {
    let v = trim(text);
    if v == "x"@ || v == "X"@ {
        TabCellView::Muted
    } else if v == "h"@ || v == "H"@ {
        TabCellView::HammerOn
    } else if v == "p"@ || v == "P"@ {
        TabCellView::PullOff
    } else if v == "r"@ || v == "R"@ {
        TabCellView::Release
    } else if v == "b"@ || v == "B"@ {
        TabCellView::Bend
    } else if v == "/"@ {
        TabCellView::SlideUp
    } else if v == "\\"@ {
        TabCellView::SlideDown
    } else if v.len() >= 2 && v[0] == '(' && v.last() == ')' {
        match parse_u8_text(v.subrange(1, v.len() - 1)) {
            Some(n) => TabCellView::GhostNote(
                if n > 24 {
                    24u8
                } else {
                    n as u8
                },
            ),
            None => TabCellView::Empty,
        }
    } else if parse_u8_text(v) matches Some(n) && n <= 24 {
        TabCellView::Fret(parse_u8_text(v)->0 as u8)
    } else if v.len() == 0 {
        TabCellView::Empty
    } else {
        TabCellView::Custom(v)
    }
}

/// The text a cell is edited as.
pub open spec fn cell_edit_text(c: TabCellView) -> Seq<char> {
    match c {
        TabCellView::Empty => ""@,
        TabCellView::Fret(n) => decimal(n as nat),
        TabCellView::Muted => "x"@,
        TabCellView::GhostNote(n) => "("@ + decimal(n as nat) + ")"@,
        TabCellView::HammerOn => "h"@,
        TabCellView::PullOff => "p"@,
        TabCellView::Release => "r"@,
        TabCellView::Bend => "b"@,
        TabCellView::SlideUp => "/"@,
        TabCellView::SlideDown => "\\"@,
        TabCellView::Custom(s) => s,
    }
}

proof fn lemma_digit_char_value(k: nat)
    requires
        k < 10,
    ensures
        digit_char(k) as int - '0' as int == k,
        '0' <= digit_char(k) <= '9',
{
}

proof fn lemma_decimal_digits(n: nat)
    ensures
        decimal(n).len() >= 1,
        all_digits(decimal(n)),
        digits_value(decimal(n)) == n,
    decreases n,
{
    if n < 10 {
        lemma_digit_char_value(n);
        assert(decimal(n).drop_last() =~= Seq::<char>::empty());
        assert(digits_value(decimal(n)) == digits_value(Seq::<char>::empty()) * 10 + (digit_char(
            n,
        ) as int - '0' as int));
    } else {
        lemma_decimal_digits(n / 10);
        lemma_digit_char_value(n % 10);
        let d = decimal(n / 10);
        assert(decimal(n).drop_last() =~= d);
        assert(decimal(n).last() == digit_char(n % 10));
        assert(digits_value(decimal(n)) == digits_value(d) * 10 + (digit_char(n % 10) as int
            - '0' as int));
        assert((n / 10) * 10 + n % 10 == n);
        assert forall|k: int| 0 <= k < decimal(n).len() implies '0' <= #[trigger] decimal(n)[k] && decimal(n)[k] <= '9' by {
            if k < d.len() {
                assert(decimal(n)[k] == d[k]);
            }
        }
    }
}

proof fn lemma_trim_unchanged(s: Seq<char>)
    requires
        s.len() == 0 || (!is_ws(s[0]) && !is_ws(s.last())),
    ensures
        trim(s) == s,
{
    if s.len() > 0 {
        assert(trim_end(s) == s);
        assert(trim_start(s) == s);
    }
}

/// The one-character symbols of the cell field.
spec fn symbol_texts() -> Seq<Seq<char>> {
    seq!["x"@, "X"@, "h"@, "H"@, "p"@, "P"@, "r"@, "R"@, "b"@, "B"@, "/"@, "\\"@]
}

proof fn lemma_symbol_texts()
    ensures
        forall|k: int| 0 <= k < 12 ==> #[trigger] symbol_texts()[k].len() == 1,
        symbol_texts()[0][0] == 'x' && symbol_texts()[1][0] == 'X',
        symbol_texts()[2][0] == 'h' && symbol_texts()[3][0] == 'H',
        symbol_texts()[4][0] == 'p' && symbol_texts()[5][0] == 'P',
        symbol_texts()[6][0] == 'r' && symbol_texts()[7][0] == 'R',
        symbol_texts()[8][0] == 'b' && symbol_texts()[9][0] == 'B',
        symbol_texts()[10][0] == '/' && symbol_texts()[11][0] == '\\',
{
    reveal_strlit("x");
    reveal_strlit("X");
    reveal_strlit("h");
    reveal_strlit("H");
    reveal_strlit("p");
    reveal_strlit("P");
    reveal_strlit("r");
    reveal_strlit("R");
    reveal_strlit("b");
    reveal_strlit("B");
    reveal_strlit("/");
    reveal_strlit("\\");
}

/// Editing a cell and keeping its text gives the cell back, for every cell
/// other than free text whose fret (for frets and ghost notes) is at most 24.
pub proof fn lemma_edit_text_round_trip(c: TabCellView)
    requires
        !(c is Custom),
        c matches TabCellView::Fret(n) ==> n <= 24,
        c matches TabCellView::GhostNote(n) ==> n <= 24,
    ensures
        cell_of_text(cell_edit_text(c)) == c,
{
    lemma_symbol_texts();
    reveal_strlit("");
    reveal_strlit("(");
    reveal_strlit(")");
    let t = cell_edit_text(c);
    match c {
        TabCellView::Empty => {
            lemma_trim_unchanged(t);
            assert(parse_u8_text(t) is None);
        },
        TabCellView::Fret(n) => {
            lemma_decimal_digits(n as nat);
            assert('0' <= t[0] <= '9');
            assert('0' <= t.last() <= '9');
            lemma_trim_unchanged(t);
            assert forall|k: int| 0 <= k < 12 implies t != #[trigger] symbol_texts()[k] by {
                if t == symbol_texts()[k] {
                    assert(t[0] == symbol_texts()[k][0]);
                }
            }
            assert(t != symbol_texts()[0] && t != symbol_texts()[1]);
            assert(t != symbol_texts()[2] && t != symbol_texts()[3]);
            assert(t != symbol_texts()[4] && t != symbol_texts()[5]);
            assert(t != symbol_texts()[6] && t != symbol_texts()[7]);
            assert(t != symbol_texts()[8] && t != symbol_texts()[9]);
            assert(t != symbol_texts()[10] && t != symbol_texts()[11]);
            assert(parse_u8_text(t) == Some(n as int));
        },
        TabCellView::GhostNote(n) => {
            lemma_decimal_digits(n as nat);
            let d = decimal(n as nat);
            assert(t[0] == '(');
            assert(t.last() == ')');
            lemma_trim_unchanged(t);
            assert forall|k: int| 0 <= k < 12 implies t != #[trigger] symbol_texts()[k] by {
                if t == symbol_texts()[k] {
                    assert(t[0] == symbol_texts()[k][0]);
                }
            }
            assert(t != symbol_texts()[0] && t != symbol_texts()[1]);
            assert(t != symbol_texts()[2] && t != symbol_texts()[3]);
            assert(t != symbol_texts()[4] && t != symbol_texts()[5]);
            assert(t != symbol_texts()[6] && t != symbol_texts()[7]);
            assert(t != symbol_texts()[8] && t != symbol_texts()[9]);
            assert(t != symbol_texts()[10] && t != symbol_texts()[11]);
            assert(t.subrange(1, t.len() - 1) =~= d);
            assert(d[0] != '+');
            assert(parse_u8_text(d) == Some(n as int));
        },
        _ => {
            assert(t.len() == 1);
            lemma_trim_unchanged(t);
            assert forall|k: int, j: int| 0 <= k < j < 12 implies #[trigger] symbol_texts()[k] != #[trigger] symbol_texts()[j] by {
                if symbol_texts()[k] == symbol_texts()[j] {
                    assert(symbol_texts()[k][0] == symbol_texts()[j][0]);
                }
            }
        },
    }
}

/// The cell that typed text stands for (see `cell_of_text`).
pub fn cell_from_text(text: &str) -> (r: TabCell)
    ensures
        r@ == cell_of_text(text@),
{
    let v = trim_str(text);
    if str_eq(v, "x") || str_eq(v, "X") {
        return TabCell::Muted;
    }
    if str_eq(v, "h") || str_eq(v, "H") {
        return TabCell::HammerOn;
    }
    if str_eq(v, "p") || str_eq(v, "P") {
        return TabCell::PullOff;
    }
    if str_eq(v, "r") || str_eq(v, "R") {
        return TabCell::Release;
    }
    if str_eq(v, "b") || str_eq(v, "B") {
        return TabCell::Bend;
    }
    if str_eq(v, "/") {
        return TabCell::SlideUp;
    }
    if str_eq(v, "\\") {
        return TabCell::SlideDown;
    }
    let n = v.unicode_len();
    if n >= 2 && v.get_char(0) == '(' && v.get_char(n - 1) == ')' {
        let inner = v.substring_char(1, n - 1);
        return match parse_byte(inner) {
            Some(k) => TabCell::GhostNote(
                if k > 24 {
                    24
                } else {
                    k
                },
            ),
            None => TabCell::Empty,
        };
    }
    match parse_byte(v) {
        Some(k) => {
            if k <= 24 {
                return TabCell::Fret(k);
            }
        },
        None => {},
    }
    if n == 0 {
        TabCell::Empty
    } else {
        TabCell::Custom(owned(v))
    }
}

impl TabCell {
    /// The text this cell is edited as (see `cell_edit_text`).
    pub fn edit_text(&self) -> (r: String)
        ensures
            r@ == cell_edit_text(self@),
    {
        proof {
            reveal_strlit("");
        }
        match self {
            TabCell::Empty => String::new(),
            TabCell::Fret(n) => {
                let mut r = String::new();
                push_decimal(&mut r, *n as u64);
                r
            },
            TabCell::Muted => owned("x"),
            TabCell::GhostNote(n) => {
                let mut r = owned("(");
                push_decimal(&mut r, *n as u64);
                r.append(")");
                r
            },
            TabCell::HammerOn => owned("h"),
            TabCell::PullOff => owned("p"),
            TabCell::Release => owned("r"),
            TabCell::Bend => owned("b"),
            TabCell::SlideUp => owned("/"),
            TabCell::SlideDown => owned("\\"),
            TabCell::Custom(s) => s.clone(),
        }
    }
}

/// In an ASCII tab, a muted note or a playing technique is drawn as its
/// one-letter symbol between two dashes, and that letter typed into the
/// cell editor stands for the same cell; so no two of them are drawn alike.
pub proof fn lemma_technique_cells_drawn_by_letter(c: TabCellView, d: TabCellView)
    requires
        c is Muted || c is HammerOn || c is PullOff || c is Release || c is Bend || c is SlideUp
            || c is SlideDown,
        d is Muted || d is HammerOn || d is PullOff || d is Release || d is Bend || d is SlideUp
            || d is SlideDown,
    ensures
        cell_text(c).len() == 3,
        cell_text(c)[0] == '-' && cell_text(c)[2] == '-',
        cell_of_text(cell_text(c).subrange(1, 2)) == c,
        cell_text(c) == cell_text(d) ==> c == d,
{
    reveal_strlit("-x-");
    reveal_strlit("-h-");
    reveal_strlit("-p-");
    reveal_strlit("-r-");
    reveal_strlit("-b-");
    reveal_strlit("-/-");
    reveal_strlit("-\\-");
    lemma_symbol_texts();
    lemma_edit_text_round_trip(c);
    lemma_edit_text_round_trip(d);
    assert(cell_text(c).subrange(1, 2) =~= cell_edit_text(c));
    assert(cell_text(d).subrange(1, 2) =~= cell_edit_text(d));
    if cell_text(c) == cell_text(d) {
        assert(cell_text(c).subrange(1, 2) == cell_text(d).subrange(1, 2));
    }
}

} // verus!
