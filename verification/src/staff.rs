//! The grand staff: which accidentals a key carries and where they are
//! drawn, where a written note sits on the treble or bass staff, and the
//! ledger lines a chord's notes need.
use vstd::prelude::*;
use vstd::string::*;
use crate::text::{str_eq, trim, trim_str, parse_i32, parse_int, ascii_lower};
use crate::song::theory::note_name;

verus! {

broadcast use vstd::string::group_string_axioms;

/// `s` up to its first `sep` (all of it when it has none).
pub open spec fn before_sep(s: Seq<char>, sep: char) -> Seq<char>
    decreases s.len(),
{
    if s.len() == 0 {
        s
    } else if s[0] == sep {
        seq![]
    } else {
        seq![s[0]] + before_sep(s.drop_first(), sep)
    }
}

/// `s` after its first `sep` (empty when it has none).
pub open spec fn after_sep(s: Seq<char>, sep: char) -> Seq<char>
    decreases s.len(),
{
    if s.len() == 0 {
        s
    } else if s[0] == sep {
        s.drop_first()
    } else {
        after_sep(s.drop_first(), sep)
    }
}

/// `s` without its trailing `m` characters.
pub open spec fn strip_trailing_m(s: Seq<char>) -> Seq<char>
    decreases s.len(),
{
    if s.len() > 0 && s.last() == 'm' {
        strip_trailing_m(s.drop_last())
    } else {
        s
    }
}

/// Whether a written key is minor: its mode word starts with "min" (in any
/// ASCII case), or the key ends in `m`.
pub open spec fn key_is_minor(key: Seq<char>) -> bool {
    let t = trim(key);
    let mode = after_sep(t, ' ');
    (mode.len() >= 3 && ascii_lower(mode[0]) == 'm' && ascii_lower(mode[1]) == 'i' && ascii_lower(
        mode[2],
    ) == 'n') || (t.len() > 0 && t.last() == 'm')
}

/// The root of a written key: the text before the first space, without
/// trailing `m`s.
pub open spec fn key_sig_root(key: Seq<char>) -> Seq<char> {
    strip_trailing_m(before_sep(trim(key), ' '))
}

/// How many accidentals a key carries and whether they are sharps; keys
/// not in the table carry none.
pub open spec fn key_signature(root: Seq<char>, minor: bool) -> (int, bool) {
    if minor {
        if root == "A"@ {
            (0, true)
        } else if root == "E"@ {
            (1, true)
        } else if root == "B"@ {
            (2, true)
        } else if root == "F#"@ {
            (3, true)
        } else if root == "C#"@ {
            (4, true)
        } else if root == "G#"@ {
            (5, true)
        } else if root == "D#"@ {
            (6, true)
        } else if root == "A#"@ {
            (7, true)
        } else if root == "D"@ {
            (1, false)
        } else if root == "G"@ {
            (2, false)
        } else if root == "C"@ {
            (3, false)
        } else if root == "F"@ {
            (4, false)
        } else if root == "Bb"@ {
            (5, false)
        } else if root == "Eb"@ {
            (6, false)
        } else if root == "Ab"@ {
            (7, false)
        } else {
            (0, true)
        }
    } else {
        if root == "C"@ {
            (0, true)
        } else if root == "G"@ {
            (1, true)
        } else if root == "D"@ {
            (2, true)
        } else if root == "A"@ {
            (3, true)
        } else if root == "E"@ {
            (4, true)
        } else if root == "B"@ {
            (5, true)
        } else if root == "F#"@ {
            (6, true)
        } else if root == "C#"@ {
            (7, true)
        } else if root == "F"@ {
            (1, false)
        } else if root == "Bb"@ {
            (2, false)
        } else if root == "Eb"@ {
            (3, false)
        } else if root == "Ab"@ {
            (4, false)
        } else if root == "Db"@ {
            (5, false)
        } else if root == "Gb"@ {
            (6, false)
        } else if root == "Cb"@ {
            (7, false)
        } else {
            (0, true)
        }
    }
}

/// The sharps in order (F C G D A E B), each with its staff step on the
/// treble and on the bass staff (0 = bottom line, one step per line or space).
pub open spec fn sharp_positions() -> Seq<(int, int)> {
    seq![(8, 6), (5, 3), (9, 7), (6, 4), (10, 8), (7, 5), (4, 2)]
}

/// The flats in order (B E A D G C F), each with its treble and bass step.
pub open spec fn flat_positions() -> Seq<(int, int)> {
    seq![(4, 2), (7, 5), (3, 1), (6, 4), (2, 0), (5, 3), (1, -1)]
}

/// The accidentals of a written key, in the order they are drawn: symbol,
/// treble step, bass step.
pub open spec fn key_accidentals(key: Seq<char>) -> Seq<(Seq<char>, int, int)> {
    let (count, sharps) = key_signature(key_sig_root(key), key_is_minor(key));
    if sharps {
        sharp_positions().take(count).map_values(|p: (int, int)| ("♯"@, p.0, p.1))
    } else {
        flat_positions().take(count).map_values(|p: (int, int)| ("♭"@, p.0, p.1))
    }
}

/// Key signatures follow the circle of fifths: the major key `k` fifths
/// above C (7k semitones) carries `k` sharps and the one `k` fifths below
/// (5k semitones above C) carries `k` flats, Cb major carrying seven; each
/// minor key carries what its relative major, three semitones above it,
/// carries. Every key draws exactly as many accidentals as its signature
/// counts.
pub proof fn lemma_circle_of_fifths(k: int, key: Seq<char>)
    requires
        0 <= k <= 7,
    ensures
        key_signature(note_name((7 * k) % 12, true), false) == (k, true),
        key_signature(note_name((7 * k + 9) % 12, true), true) == (k, true),
        1 <= k <= 6 ==> key_signature(note_name((5 * k) % 12, false), false) == (k, false),
        1 <= k ==> key_signature(note_name((5 * k + 9) % 12, false), true) == (k, false),
        k == 7 ==> key_signature("Cb"@, false) == (7int, false),
        key_accidentals(key).len() == key_signature(key_sig_root(key), key_is_minor(key)).0,
{
    reveal_strlit("C");
    reveal_strlit("C#");
    reveal_strlit("Db");
    reveal_strlit("D");
    reveal_strlit("D#");
    reveal_strlit("Eb");
    reveal_strlit("E");
    reveal_strlit("F");
    reveal_strlit("F#");
    reveal_strlit("Gb");
    reveal_strlit("G");
    reveal_strlit("G#");
    reveal_strlit("Ab");
    reveal_strlit("A");
    reveal_strlit("A#");
    reveal_strlit("Bb");
    reveal_strlit("B");
    reveal_strlit("Cb");
    let names = seq!["C"@, "C#"@, "Db"@, "D"@, "D#"@, "Eb"@, "E"@, "F"@, "F#"@, "Gb"@, "G"@, "G#"@, "Ab"@, "A"@, "A#"@, "Bb"@, "B"@, "Cb"@];
    assert forall|i: int, j: int| 0 <= i < j < names.len() implies #[trigger] names[i] != #[trigger] names[j] by {
        if names[i] == names[j] {
            assert(names[i].len() == names[j].len());
            assert(names[i][0] == names[j][0]);
            assert(names[i][names[i].len() - 1] == names[j][names[j].len() - 1]);
        }
    }
    if k == 0 {
        assert((7 * k) % 12 == 0 && (7 * k + 9) % 12 == 9);
    } else if k == 1 {
        assert((7 * k) % 12 == 7 && (7 * k + 9) % 12 == 4);
        assert((5 * k) % 12 == 5 && (5 * k + 9) % 12 == 2);
    } else if k == 2 {
        assert((7 * k) % 12 == 2 && (7 * k + 9) % 12 == 11);
        assert((5 * k) % 12 == 10 && (5 * k + 9) % 12 == 7);
    } else if k == 3 {
        assert((7 * k) % 12 == 9 && (7 * k + 9) % 12 == 6);
        assert((5 * k) % 12 == 3 && (5 * k + 9) % 12 == 0);
    } else if k == 4 {
        assert((7 * k) % 12 == 4 && (7 * k + 9) % 12 == 1);
        assert((5 * k) % 12 == 8 && (5 * k + 9) % 12 == 5);
    } else if k == 5 {
        assert((7 * k) % 12 == 11 && (7 * k + 9) % 12 == 8);
        assert((5 * k) % 12 == 1 && (5 * k + 9) % 12 == 10);
    } else if k == 6 {
        assert((7 * k) % 12 == 6 && (7 * k + 9) % 12 == 3);
        assert((5 * k) % 12 == 6 && (5 * k + 9) % 12 == 3);
    } else {
        assert((7 * k) % 12 == 1 && (7 * k + 9) % 12 == 10);
        assert((5 * k + 9) % 12 == 8);
    }
    let (n, sh) = key_signature(key_sig_root(key), key_is_minor(key));
    assert(0 <= n <= 7);
    if sh {
        assert(sharp_positions().take(n).len() == n);
    } else {
        assert(flat_positions().take(n).len() == n);
    }
}

fn lower(c: char) -> (r: char)
    ensures
        r == ascii_lower(c),
{
    if 'A' <= c && c <= 'Z' {
        ((c as u8) + 32) as char
    } else {
        c
    }
}

/// When the first `sep` of `s` is at `i` (or `s` has none and `i` is its
/// length), `before_sep` and `after_sep` cut `s` there.
pub proof fn lemma_before_sep(s: Seq<char>, sep: char, i: int)
    requires
        0 <= i <= s.len(),
        forall|j: int| 0 <= j < i ==> s[j] != sep,
        i < s.len() ==> s[i] == sep,
    ensures
        before_sep(s, sep) == s.subrange(0, i),
        after_sep(s, sep) == if i < s.len() {
            s.subrange(i + 1, s.len() as int)
        } else {
            seq![]
        },
    decreases i,
{
    if i == 0 {
        if s.len() > 0 {
            assert(s.drop_first() =~= s.subrange(1, s.len() as int));
        } else {
            assert(s.subrange(0, 0) =~= s);
        }
    } else {
        lemma_before_sep(s.drop_first(), sep, i - 1);
        assert(seq![s[0]] + s.drop_first().subrange(0, i - 1) =~= s.subrange(0, i));
        if i < s.len() {
            assert(s.drop_first().subrange(i, s.len() - 1) =~= s.subrange(i + 1, s.len() as int));
        }
    }
}

proof fn lemma_strip_m(s: Seq<char>, j: int)
    requires
        0 <= j <= s.len(),
        forall|k: int| j <= k < s.len() ==> s[k] == 'm',
    ensures
        strip_trailing_m(s) == strip_trailing_m(s.subrange(0, j)),
    decreases s.len() - j,
{
    if j < s.len() {
        assert(s.drop_last().subrange(0, j) =~= s.subrange(0, j));
        lemma_strip_m(s.drop_last(), j);
    } else {
        assert(s.subrange(0, j) =~= s);
    }
}

fn signature(root: &str, minor: bool) -> (r: (usize, bool))
    ensures
        r.0 as int == key_signature(root@, minor).0,
        r.1 == key_signature(root@, minor).1,
{
    if minor {
        if str_eq(root, "A") {
            (0, true)
        } else if str_eq(root, "E") {
            (1, true)
        } else if str_eq(root, "B") {
            (2, true)
        } else if str_eq(root, "F#") {
            (3, true)
        } else if str_eq(root, "C#") {
            (4, true)
        } else if str_eq(root, "G#") {
            (5, true)
        } else if str_eq(root, "D#") {
            (6, true)
        } else if str_eq(root, "A#") {
            (7, true)
        } else if str_eq(root, "D") {
            (1, false)
        } else if str_eq(root, "G") {
            (2, false)
        } else if str_eq(root, "C") {
            (3, false)
        } else if str_eq(root, "F") {
            (4, false)
        } else if str_eq(root, "Bb") {
            (5, false)
        } else if str_eq(root, "Eb") {
            (6, false)
        } else if str_eq(root, "Ab") {
            (7, false)
        } else {
            (0, true)
        }
    } else {
        if str_eq(root, "C") {
            (0, true)
        } else if str_eq(root, "G") {
            (1, true)
        } else if str_eq(root, "D") {
            (2, true)
        } else if str_eq(root, "A") {
            (3, true)
        } else if str_eq(root, "E") {
            (4, true)
        } else if str_eq(root, "B") {
            (5, true)
        } else if str_eq(root, "F#") {
            (6, true)
        } else if str_eq(root, "C#") {
            (7, true)
        } else if str_eq(root, "F") {
            (1, false)
        } else if str_eq(root, "Bb") {
            (2, false)
        } else if str_eq(root, "Eb") {
            (3, false)
        } else if str_eq(root, "Ab") {
            (4, false)
        } else if str_eq(root, "Db") {
            (5, false)
        } else if str_eq(root, "Gb") {
            (6, false)
        } else if str_eq(root, "Cb") {
            (7, false)
        } else {
            (0, true)
        }
    }
}

/// The key-signature accidentals for a written key such as "G Major",
/// "Bb Minor", "F#m" or "C": one entry per accidental in drawing order,
/// with its symbol and its step on the treble and on the bass staff.
pub fn key_sig_accidentals(key: &str) -> (r: Vec<(&'static str, i32, i32)>)
    ensures
        r@.map_values(|e: (&str, i32, i32)| (e.0@, e.1 as int, e.2 as int)) == key_accidentals(key@),
{
    let t = trim_str(key);
    let n = t.unicode_len();
    let mut i: usize = 0;
    while i < n && t.get_char(i) != ' '
        invariant
            n == t@.len(),
            i <= n,
            forall|j: int| 0 <= j < i ==> t@[j] != ' ',
        decreases n - i,
    {
        i = i + 1;
    }
    proof {
        lemma_before_sep(t@, ' ', i as int);
    }
    // The root: the text before the space without its trailing `m`s.
    let mut j: usize = i;
    while j > 0 && t.get_char(j - 1) == 'm'
        invariant
            n == t@.len(),
            j <= i <= n,
            forall|k: int| j <= k < i ==> t@[k] == 'm',
        decreases j,
    {
        j = j - 1;
    }
    proof {
        let b = t@.subrange(0, i as int);
        assert forall|k: int| j <= k < b.len() implies b[k] == 'm' by {
            assert(b[k] == t@[k]);
        }
        lemma_strip_m(b, j as int);
        assert(b.subrange(0, j as int) =~= t@.subrange(0, j as int));
        if j > 0 {
            assert(t@.subrange(0, j as int).last() == t@[j - 1]);
        }
    }
    let root = t.substring_char(0, j);
    let mode_minor = n >= 4 && i <= n - 4 && lower(t.get_char(i + 1)) == 'm' && lower(
        t.get_char(i + 2),
    ) == 'i' && lower(t.get_char(i + 3)) == 'n';
    let minor = mode_minor || (n > 0 && t.get_char(n - 1) == 'm');
    proof {
        let mode = after_sep(t@, ' ');
        if i < n {
            assert(mode == t@.subrange(i + 1, n as int));
            if mode.len() >= 3 {
                assert(mode[0] == t@[i + 1] && mode[1] == t@[i + 2] && mode[2] == t@[i + 3]);
            }
        }
        assert(key_is_minor(key@) == minor);
    }
    let (count, sharps) = signature(root, minor);
    let sharps_table: [(&'static str, i32, i32); 7] = [
        ("♯", 8, 6),
        ("♯", 5, 3),
        ("♯", 9, 7),
        ("♯", 6, 4),
        ("♯", 10, 8),
        ("♯", 7, 5),
        ("♯", 4, 2),
    ];
    let flats_table: [(&'static str, i32, i32); 7] = [
        ("♭", 4, 2),
        ("♭", 7, 5),
        ("♭", 3, 1),
        ("♭", 6, 4),
        ("♭", 2, 0),
        ("♭", 5, 3),
        ("♭", 1, -1),
    ];
    let ghost want = key_accidentals(key@);
    let mut out: Vec<(&'static str, i32, i32)> = Vec::new();
    let mut k: usize = 0;
    while k < count
        invariant
            count <= 7,
            k <= count,
            want == (if sharps {
                sharp_positions().take(count as int).map_values(|p: (int, int)| ("♯"@, p.0, p.1))
            } else {
                flat_positions().take(count as int).map_values(|p: (int, int)| ("♭"@, p.0, p.1))
            }),
            sharps_table@ == seq![
                ("♯", 8i32, 6i32),
                ("♯", 5i32, 3i32),
                ("♯", 9i32, 7i32),
                ("♯", 6i32, 4i32),
                ("♯", 10i32, 8i32),
                ("♯", 7i32, 5i32),
                ("♯", 4i32, 2i32),
            ],
            flats_table@ == seq![
                ("♭", 4i32, 2i32),
                ("♭", 7i32, 5i32),
                ("♭", 3i32, 1i32),
                ("♭", 6i32, 4i32),
                ("♭", 2i32, 0i32),
                ("♭", 5i32, 3i32),
                ("♭", 1i32, -1i32),
            ],
            out@.len() == k,
            forall|m: int|
                0 <= m < k ==> (#[trigger] out@[m]).0@ == want[m].0 && out@[m].1 as int == want[m].1
                    && out@[m].2 as int == want[m].2,
        decreases count - k,
    {
        if sharps {
            out.push(sharps_table[k]);
        } else {
            out.push(flats_table[k]);
        }
        k = k + 1;
    }
    assert(out@.map_values(|e: (&str, i32, i32)| (e.0@, e.1 as int, e.2 as int)) =~= want);
    out
}

/// A character in ASCII uppercase.
pub open spec fn ascii_upper(c: char) -> char {
    if 'a' <= c && c <= 'z' {
        ((c as int) - 32) as char
    } else {
        c
    }
}

/// The diatonic index (C = 0, D = 1, … B = 6) of a note letter in either case.
pub open spec fn letter_index(c: char) -> Option<int> {
    let u = ascii_upper(c);
    if u == 'C' {
        Some(0)
    } else if u == 'D' {
        Some(1)
    } else if u == 'E' {
        Some(2)
    } else if u == 'F' {
        Some(3)
    } else if u == 'G' {
        Some(4)
    } else if u == 'A' {
        Some(5)
    } else if u == 'B' {
        Some(6)
    } else {
        None
    }
}

/// A written note such as "C4", "F#5" or "Bb3" read as (octave, letter
/// index): after trimming, a note letter, an optional `#` or `b`, then the
/// octave as an `i32` (whitespace around it allowed).
pub open spec fn note_parts(name: Seq<char>) -> Option<(int, int)> {
    let t = trim(name);
    if t.len() == 0 {
        None
    } else {
        match letter_index(t[0]) {
            None => None,
            Some(d) => {
                let skip: int = if t.len() > 1 && (t[1] == '#' || t[1] == 'b') {
                    2
                } else {
                    1
                };
                match parse_i32(trim(t.skip(skip))) {
                    Some(o) => Some((o, d)),
                    None => None,
                }
            },
        }
    }
}

/// The bottom line of the staff in diatonic steps from C0: E4 on the
/// treble staff, G2 on the bass staff.
pub open spec fn staff_bottom(treble: bool) -> int {
    if treble {
        30
    } else {
        18
    }
}

/// Where a written note sits on a staff: its diatonic steps above the
/// bottom line (negative below it); `None` when the name is not a note.
pub open spec fn staff_steps(name: Seq<char>, treble: bool) -> Option<int> {
    match note_parts(name) {
        Some((o, d)) => Some(o * 7 + d - staff_bottom(treble)),
        None => None,
    }
}

/// The notes whose step arithmetic stays within `i32`.
pub open spec fn steps_fit(name: Seq<char>, treble: bool) -> bool {
    match note_parts(name) {
        Some((o, d)) => i32::MIN <= o * 7 && o * 7 + d <= i32::MAX && o * 7 + d - staff_bottom(
            treble,
        ) >= i32::MIN,
        None => true,
    }
}

fn letter_index_exec(c: char) -> (r: Option<i32>)
    ensures
        match r {
            Some(v) => letter_index(c) == Some(v as int),
            None => letter_index(c) is None,
        },
{
    if c == 'C' || c == 'c' {
        Some(0)
    } else if c == 'D' || c == 'd' {
        Some(1)
    } else if c == 'E' || c == 'e' {
        Some(2)
    } else if c == 'F' || c == 'f' {
        Some(3)
    } else if c == 'G' || c == 'g' {
        Some(4)
    } else if c == 'A' || c == 'a' {
        Some(5)
    } else if c == 'B' || c == 'b' {
        Some(6)
    } else {
        None
    }
}

/// Where the written note `name` sits on the treble or bass staff (see
/// `staff_steps`).
pub fn note_staff_steps(name: &str, is_treble: bool) -> (r: Option<i32>)
    requires
        steps_fit(name@, is_treble),
    ensures
        match r {
            Some(v) => staff_steps(name@, is_treble) == Some(v as int),
            None => staff_steps(name@, is_treble) is None,
        },
{
    let t = trim_str(name);
    let n = t.unicode_len();
    if n == 0 {
        return None;
    }
    let d = match letter_index_exec(t.get_char(0)) {
        Some(d) => d,
        None => return None,
    };
    let skip: usize = if n > 1 && (t.get_char(1) == '#' || t.get_char(1) == 'b') {
        2
    } else {
        1
    };
    let rest = t.substring_char(skip, n);
    assert(rest@ =~= t@.skip(skip as int));
    let octave = match parse_int(trim_str(rest)) {
        Some(o) => o,
        None => return None,
    };
    let bottom: i32 = if is_treble {
        30
    } else {
        18
    };
    Some(octave * 7 + d - bottom)
}

/// After a first `sep`, what follows is shorter than `s`.
pub proof fn lemma_after_sep_shorter(s: Seq<char>, sep: char)
    requires
        s.contains(sep),
    ensures
        after_sep(s, sep).len() < s.len(),
    decreases s.len(),
{
    if s[0] != sep {
        let k = choose|k: int| 0 <= k < s.len() && s[k] == sep;
        assert(s.drop_first()[k - 1] == sep);
        lemma_after_sep_shorter(s.drop_first(), sep);
    }
}

/// The accidental drawn beside a written note: `♯` for a `#` after the
/// letter, `♭` for a `b`, nothing otherwise.
pub open spec fn accidental_of(note: Seq<char>) -> Seq<char> {
    if note.len() >= 2 && note[1] == '#' {
        "♯"@
    } else if note.len() >= 2 && note[1] == 'b' {
        "♭"@
    } else {
        ""@
    }
}

/// The notes of a comma-separated chord such as "C4, E4, G#4", in order:
/// each piece that (trimmed) is a written note gives its staff steps and
/// its accidental; other pieces are skipped.
pub open spec fn chord_notes_of(s: Seq<char>, treble: bool) -> Seq<(int, Seq<char>)>
    decreases s.len(),
{
    let p = trim(before_sep(s, ','));
    let here = match staff_steps(p, treble) {
        Some(v) => seq![(v, accidental_of(p))],
        None => seq![],
    };
    if s.contains(',') {
        proof {
            lemma_after_sep_shorter(s, ',');
        }
        here + chord_notes_of(after_sep(s, ','), treble)
    } else {
        here
    }
}

/// The chords each of whose notes fits `steps_fit`.
pub open spec fn chord_fits(s: Seq<char>, treble: bool) -> bool
    decreases s.len(),
{
    &&& steps_fit(trim(before_sep(s, ',')), treble)
    &&& s.contains(',') ==> {
        proof {
            lemma_after_sep_shorter(s, ',');
        }
        chord_fits(after_sep(s, ','), treble)
    }
}

fn accidental_exec(note: &str) -> (r: &'static str)
    ensures
        r@ == accidental_of(note@),
{
    proof {
        reveal_strlit("♯");
        reveal_strlit("♭");
        reveal_strlit("");
    }
    let n = note.unicode_len();
    if n >= 2 && note.get_char(1) == '#' {
        "♯"
    } else if n >= 2 && note.get_char(1) == 'b' {
        "♭"
    } else {
        ""
    }
}

/// The notes of a comma-separated chord on the treble or bass staff (see
/// `chord_notes_of`).
pub fn chord_note_steps(chord: &str, is_treble: bool) -> (r: Vec<(i32, &'static str)>)
    requires
        chord_fits(chord@, is_treble),
    ensures
        r@.map_values(|e: (i32, &str)| (e.0 as int, e.1@)) == chord_notes_of(chord@, is_treble),
{
    let n = chord.unicode_len();
    let mut out: Vec<(i32, &'static str)> = Vec::new();
    let mut start: usize = 0;
    assert(chord@.skip(0) =~= chord@);
    loop
        invariant_except_break
            out@.map_values(|e: (i32, &str)| (e.0 as int, e.1@)) + chord_notes_of(
                chord@.skip(start as int),
                is_treble,
            ) == chord_notes_of(chord@, is_treble),
        invariant
            n == chord@.len(),
            start <= n,
            chord_fits(chord@.skip(start as int), is_treble),
        ensures
            out@.map_values(|e: (i32, &str)| (e.0 as int, e.1@)) == chord_notes_of(chord@, is_treble),
        decreases n - start,
    {
        let ghost rest = chord@.skip(start as int);
        let mut j: usize = start;
        while j < n && chord.get_char(j) != ','
            invariant
                n == chord@.len(),
                start <= j <= n,
                rest == chord@.skip(start as int),
                forall|k: int| 0 <= k < j - start ==> rest[k] != ',',
            decreases n - j,
        {
            j = j + 1;
        }
        proof {
            lemma_before_sep(rest, ',', j - start);
        }
        let piece = chord.substring_char(start, j);
        assert(piece@ =~= before_sep(rest, ','));
        let p = trim_str(piece);
        let ghost before = out@.map_values(|e: (i32, &str)| (e.0 as int, e.1@));
        let ghost here = match staff_steps(p@, is_treble) {
            Some(v) => seq![(v, accidental_of(p@))],
            None => Seq::<(int, Seq<char>)>::empty(),
        };
        match note_staff_steps(p, is_treble) {
            Some(v) => {
                let acc = accidental_exec(p);
                out.push((v, acc));
                assert(out@.map_values(|e: (i32, &str)| (e.0 as int, e.1@)) =~= before + here);
            },
            None => {
                assert(before + here =~= before);
            },
        }
        if j == n {
            assert(!rest.contains(',')) by {
                if rest.contains(',') {
                    let k = choose|k: int| 0 <= k < rest.len() && rest[k] == ',';
                    assert(rest[k] != ',');
                }
            }
            assert(chord_notes_of(rest, is_treble) == here);
            break;
        }
        assert(rest[j - start] == ',');
        assert(rest.contains(','));
        assert(after_sep(rest, ',') =~= chord@.skip(j + 1));
        assert(chord_notes_of(rest, is_treble) == here + chord_notes_of(after_sep(rest, ','), is_treble));
        start = j + 1;
    }
    out
}

// ── Ledger lines ─────────────────────────────────────────────────────────────

/// The ledger lines below the staff that a note at step `s` needs, top
/// first: steps -2, -4, … down to the note (none for a note at -1 or above).
pub open spec fn lines_below(s: int) -> Seq<int> {
    Seq::new(if s <= -2 { ((-s) / 2) as nat } else { 0 }, |k: int| -2 - 2 * k)
}

/// The ledger lines above the staff that a note at step `s` needs, lowest
/// first: steps 10, 12, … up to the note (the top line is step 8).
pub open spec fn lines_above(s: int) -> Seq<int> {
    Seq::new(if s >= 10 { ((s - 8) / 2) as nat } else { 0 }, |k: int| 10 + 2 * k)
}

/// `acc` with `l` appended unless it is already there.
pub open spec fn with_line(acc: Seq<int>, l: int) -> Seq<int> {
    if acc.contains(l) {
        acc
    } else {
        acc.push(l)
    }
}

/// `acc` with each of `ls`, in order, appended unless already there.
pub open spec fn with_lines(acc: Seq<int>, ls: Seq<int>) -> Seq<int>
    decreases ls.len(),
{
    if ls.len() == 0 {
        acc
    } else {
        with_line(with_lines(acc, ls.drop_last()), ls.last())
    }
}

/// The ledger lines a chord's notes (given by staff step, in order) need,
/// each once, in the order they are first needed: for every note, the
/// lines below the staff, then the lines above it.
pub open spec fn ledger_lines(notes: Seq<int>) -> Seq<int>
    decreases notes.len(),
{
    if notes.len() == 0 {
        seq![]
    } else {
        with_lines(with_lines(ledger_lines(notes.drop_last()), lines_below(notes.last())), lines_above(
            notes.last(),
        ))
    }
}

/// The view of a list of steps.
pub open spec fn steps_view(v: Seq<i32>) -> Seq<int> {
    v.map_values(|x: i32| x as int)
}

fn add_line(acc: &mut Vec<i32>, l: i32)
    ensures
        steps_view(final(acc)@) == with_line(steps_view(old(acc)@), l as int),
{
    let mut i: usize = 0;
    while i < acc.len()
        invariant
            i <= acc@.len(),
            acc@ == old(acc)@,
            forall|j: int| 0 <= j < i ==> acc@[j] != l,
        decreases acc@.len() - i,
    {
        if acc[i] == l {
            assert(steps_view(acc@)[i as int] == l as int);
            return;
        }
        i = i + 1;
    }
    assert(!steps_view(acc@).contains(l as int)) by {
        if steps_view(acc@).contains(l as int) {
            let j = choose|j: int| 0 <= j < steps_view(acc@).len() && steps_view(acc@)[j] == l as int;
            assert(acc@[j] == l);
        }
    }
    let ghost before = steps_view(acc@);
    acc.push(l);
    assert(steps_view(acc@) =~= before.push(l as int));
}

/// The ledger lines of a chord whose notes sit at the given staff steps
/// (see `ledger_lines`).
pub fn ledger_steps(notes: &Vec<i32>) -> (r: Vec<i32>)
    ensures
        steps_view(r@) == ledger_lines(steps_view(notes@)),
{
    let ghost nv = steps_view(notes@);
    let mut acc: Vec<i32> = Vec::new();
    let mut n: usize = 0;
    assert(nv.take(0) =~= Seq::<int>::empty());
    assert(steps_view(acc@) =~= Seq::<int>::empty());
    while n < notes.len()
        invariant
            n <= notes@.len(),
            nv == steps_view(notes@),
            steps_view(acc@) == ledger_lines(nv.take(n as int)),
        decreases notes@.len() - n,
    {
        let s = notes[n];
        let ghost start = steps_view(acc@);
        let ghost below = lines_below(s as int);
        let ghost above = lines_above(s as int);
        let mut t: i64 = -2;
        let mut k: usize = 0;
        assert(below.take(0) =~= Seq::<int>::empty());
        while t >= s as i64
            invariant
                t == -2 - 2 * k,
                k <= below.len(),
                below == lines_below(s as int),
                t >= s as i64 ==> k < below.len(),
                t < s as i64 ==> k == below.len(),
                steps_view(acc@) == with_lines(start, below.take(k as int)),
            decreases t - s as i64 + 2,
        {
            add_line(&mut acc, t as i32);
            assert(below.take(k + 1).drop_last() =~= below.take(k as int));
            k = k + 1;
            t = t - 2;
        }
        assert(below.take(k as int) =~= below);
        let ghost mid = steps_view(acc@);
        let mut u: i64 = 10;
        let mut q: usize = 0;
        assert(above.take(0) =~= Seq::<int>::empty());
        while u <= s as i64
            invariant
                u == 10 + 2 * q,
                q <= above.len(),
                above == lines_above(s as int),
                u <= s as i64 ==> q < above.len(),
                u > s as i64 ==> q == above.len(),
                steps_view(acc@) == with_lines(mid, above.take(q as int)),
            decreases s as i64 - u + 2,
        {
            add_line(&mut acc, u as i32);
            assert(above.take(q + 1).drop_last() =~= above.take(q as int));
            q = q + 1;
            u = u + 2;
        }
        assert(above.take(q as int) =~= above);
        assert(nv.take(n + 1).drop_last() =~= nv.take(n as int));
        assert(nv.take(n + 1).last() == s as int);
        n = n + 1;
    }
    assert(nv.take(notes@.len() as int) =~= nv);
    acc
}

} // verus!
