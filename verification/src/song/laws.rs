//! Properties of pitch arithmetic, transposition and capo shifting that hold
//! for every input.
use vstd::prelude::*;
use vstd::string::*;
use crate::text::{trim, is_ws};
use crate::song::theory::{note_index, note_name, shifted_up, shifted_down};
use crate::song::quality::{Notation, notation_name};
use crate::song::part::{PartItemView, SongPartView};
use crate::song::model::{SongView, RootShift, transposed_root, moved_item, moved_part, transposed, with_capo, key_root, transpose_shift, capo_key, capo_shift};

verus! {

broadcast use vstd::string::group_string_axioms;

/// A string with no whitespace at either end is its own trim.
proof fn lemma_trim_plain(s: Seq<char>)
    requires
        s.len() > 0,
        !is_ws(s[0]),
        !is_ws(s.last()),
    ensures
        trim(s) == s,
{
}

/// Every spelling that `note_name` produces reads back as its index.
pub proof fn lemma_name_index(k: int, sharps: bool)
    requires
        0 <= k < 12,
    ensures
        note_index(note_name(k, sharps)) == Some(k),
{
    reveal_strlit("C");
    reveal_strlit("C#");
    reveal_strlit("Db");
    reveal_strlit("D");
    reveal_strlit("D#");
    reveal_strlit("Eb");
    reveal_strlit("E");
    reveal_strlit("F");
    reveal_strlit("F#");
    reveal_strlit("Gb");
    reveal_strlit("G");
    reveal_strlit("G#");
    reveal_strlit("Ab");
    reveal_strlit("A");
    reveal_strlit("A#");
    reveal_strlit("Bb");
    reveal_strlit("B");
    reveal_strlit("B#");
    reveal_strlit("Fb");
    reveal_strlit("E#");
    reveal_strlit("Cb");
    let n = note_name(k, sharps);
    assert(n.len() > 0 && !is_ws(n[0]) && !is_ws(n.last()));
    lemma_trim_plain(n);
    assert("C"@ =~= seq!['C']);
    assert("C#"@ =~= seq!['C', '#']);
    assert("Db"@ =~= seq!['D', 'b']);
    assert("D"@ =~= seq!['D']);
    assert("D#"@ =~= seq!['D', '#']);
    assert("Eb"@ =~= seq!['E', 'b']);
    assert("E"@ =~= seq!['E']);
    assert("F"@ =~= seq!['F']);
    assert("F#"@ =~= seq!['F', '#']);
    assert("Gb"@ =~= seq!['G', 'b']);
    assert("G"@ =~= seq!['G']);
    assert("G#"@ =~= seq!['G', '#']);
    assert("Ab"@ =~= seq!['A', 'b']);
    assert("A"@ =~= seq!['A']);
    assert("A#"@ =~= seq!['A', '#']);
    assert("Bb"@ =~= seq!['B', 'b']);
    assert("B"@ =~= seq!['B']);
    assert("B#"@ =~= seq!['B', '#']);
    assert("Fb"@ =~= seq!['F', 'b']);
    assert("E#"@ =~= seq!['E', '#']);
    assert("Cb"@ =~= seq!['C', 'b']);
}

/// Moving a note up by `n` semitones lands on the index `n` above it.
pub proof fn lemma_shifted_up_index(root: Seq<char>, n: int, minor: bool)
    requires
        note_index(root) is Some,
        0 <= n,
    ensures
        note_index(shifted_up(root, n, minor)) == Some((note_index(root)->0 + n) % 12),
{
    let i = note_index(root)->0;
    assert(0 <= i < 12);
    if n != 0 {
        lemma_name_index((i + n) % 12, true);
        lemma_name_index((i + n) % 12, false);
    } else {
        assert((i + 0) % 12 == i);
    }
}

/// Moving a note down by `n` semitones lands on the index `n` below it.
pub proof fn lemma_shifted_down_index(root: Seq<char>, n: int, minor: bool)
    requires
        note_index(root) is Some,
        0 <= n,
    ensures
        note_index(shifted_down(root, n, minor)) == Some((note_index(root)->0 - n) % 12),
{
    let i = note_index(root)->0;
    assert(0 <= i < 12);
    if n != 0 {
        lemma_name_index((i - n) % 12, true);
        lemma_name_index((i - n) % 12, false);
    } else {
        assert((i - 0) % 12 == i);
    }
}

/// Moving a note down and then up by the same number of semitones gives
/// back its pitch (possibly spelled differently).
pub proof fn lemma_down_then_up_same_pitch(root: Seq<char>, n: int, minor: bool)
    requires
        note_index(root) is Some,
        0 <= n,
    ensures
        note_index(shifted_up(shifted_down(root, n, minor), n, minor)) == note_index(root),
{
    let i = note_index(root)->0;
    lemma_shifted_down_index(root, n, minor);
    let d = shifted_down(root, n, minor);
    lemma_shifted_up_index(d, n, minor);
    assert(((i - n) % 12 + n) % 12 == i) by (nonlinear_arith)
        requires
            0 <= i < 12,
    ;
}

/// Moving a note up and then down by the same number of semitones gives
/// back its pitch (possibly spelled differently).
pub proof fn lemma_up_then_down_same_pitch(root: Seq<char>, n: int, minor: bool)
    requires
        note_index(root) is Some,
        0 <= n,
    ensures
        note_index(shifted_down(shifted_up(root, n, minor), n, minor)) == note_index(root),
{
    let i = note_index(root)->0;
    lemma_shifted_up_index(root, n, minor);
    let u = shifted_up(root, n, minor);
    lemma_shifted_down_index(u, n, minor);
    assert(((i + n) % 12 - n) % 12 == i) by (nonlinear_arith)
        requires
            0 <= i < 12,
    ;
}

/// Transposing a note by an interval lands on the index that interval above it.
pub proof fn lemma_transposed_index(root: Seq<char>, interval: int, sharps: bool)
    requires
        note_index(root) is Some,
    ensures
        note_index(transposed_root(root, interval, sharps)) == Some(
            (note_index(root)->0 + interval) % 12,
        ),
{
    lemma_name_index((note_index(root)->0 + interval) % 12, sharps);
}

/// Transposing twice moves a note by the sum of the two intervals: in
/// particular, transposing by `a` and then by `12 - a` gives back its pitch.
pub proof fn lemma_transpose_twice(root: Seq<char>, a: int, b: int, s1: bool, s2: bool)
    requires
        note_index(root) is Some,
    ensures
        note_index(transposed_root(transposed_root(root, a, s1), b, s2)) == Some(
            (note_index(root)->0 + a + b) % 12,
        ),
{
    let i = note_index(root)->0;
    lemma_transposed_index(root, a, s1);
    lemma_transposed_index(transposed_root(root, a, s1), b, s2);
    assert(((i + a) % 12 + b) % 12 == (i + a + b) % 12) by (nonlinear_arith);
}

/// The English convention writes every note as it is.
pub proof fn lemma_english_is_identity(note: Seq<char>)
    ensures
        notation_name(note, Notation::English) == note,
{
}

/// Transposition keeps the shape of a song: the same parts with the same
/// items in the same order, every non-chord item unchanged, every chord's
/// quality unchanged, and chord roots that are notes moved to the pitch
/// `interval` semitones higher, where `interval` is the distance from the
/// old key root to `new_root`. An unreadable `new_root` or key root leaves
/// the song unchanged.
pub proof fn lemma_transpose_keeps_shape(s: SongView, new_root: Seq<char>)
    ensures
        transposed(s, new_root).parts.len() == s.parts.len(),
        forall|p: int|
            0 <= p < s.parts.len() ==> #[trigger] transposed(s, new_root).parts[p].items.len()
                == s.parts[p].items.len(),
        forall|p: int, j: int|
            0 <= p < s.parts.len() && 0 <= j < s.parts[p].items.len() ==> match (
                #[trigger] s.parts[p].items[j],
                transposed(s, new_root).parts[p].items[j],
            ) {
                (PartItemView::Chord(c), PartItemView::Chord(d)) => d.quality == c.quality && (
                note_index(c.root) is Some && note_index(new_root) is Some && note_index(
                    key_root(s.key),
                ) is Some ==> note_index(d.root) == Some(
                    (note_index(c.root)->0 + (note_index(new_root)->0 + 12 - note_index(
                        key_root(s.key),
                    )->0) % 12) % 12,
                )),
                (PartItemView::Chord(_), _) => false,
                (a, b) => a == b,
            },
        note_index(new_root) is None || note_index(key_root(s.key)) is None ==> transposed(
            s,
            new_root,
        ) == s,
{
    let t = transposed(s, new_root);
    match (note_index(new_root), note_index(key_root(s.key))) {
        (Some(n), Some(o)) => {
            let sh = transpose_shift(s.key, new_root, n, o);
            assert forall|p: int, j: int|
                0 <= p < s.parts.len() && 0 <= j < s.parts[p].items.len() implies match (
                #[trigger] s.parts[p].items[j],
                t.parts[p].items[j],
            ) {
                (PartItemView::Chord(c), PartItemView::Chord(d)) => d.quality == c.quality && (
                note_index(c.root) is Some && note_index(new_root) is Some && note_index(
                    key_root(s.key),
                ) is Some ==> note_index(d.root) == Some(
                    (note_index(c.root)->0 + (note_index(new_root)->0 + 12 - note_index(
                        key_root(s.key),
                    )->0) % 12) % 12,
                )),
                (PartItemView::Chord(_), _) => false,
                (a, b) => a == b,
            } by {
                assert(t.parts[p] == moved_part(sh, s.parts[p]));
                assert(t.parts[p].items[j] == moved_item(sh, s.parts[p].items[j]));
                match s.parts[p].items[j] {
                    PartItemView::Chord(c) => {
                        if note_index(c.root) is Some {
                            lemma_transposed_index(c.root, ((n + 12 - o) % 12) as u8 as int, explicit_sharps_of(sh));
                        }
                    },
                    _ => {},
                }
            }
        },
        _ => {},
    }
}

/// Transposition moves every per-instrument arrangement, not only the main
/// parts: the same arrangements under the same labels, each with the same
/// parts holding the same number of items; every non-chord item unchanged,
/// every chord's quality unchanged, and every chord root that is a note
/// moved to the pitch `interval` semitones higher, where `interval` is the
/// distance from the old key root to `new_root`.
pub proof fn lemma_transpose_moves_arrangements(s: SongView, new_root: Seq<char>)
    requires
        note_index(new_root) is Some,
        note_index(key_root(s.key)) is Some,
    ensures
        transposed(s, new_root).instrument_parts.len() == s.instrument_parts.len(),
        forall|a: int|
            0 <= a < s.instrument_parts.len() ==> #[trigger] transposed(s, new_root).instrument_parts[a].0
                == s.instrument_parts[a].0 && transposed(s, new_root).instrument_parts[a].1.len()
                == s.instrument_parts[a].1.len(),
        forall|a: int, p: int|
            0 <= a < s.instrument_parts.len() && 0 <= p < s.instrument_parts[a].1.len()
                ==> #[trigger] transposed(s, new_root).instrument_parts[a].1[p].items.len()
                == s.instrument_parts[a].1[p].items.len(),
        forall|a: int, p: int, j: int|
            0 <= a < s.instrument_parts.len() && 0 <= p < s.instrument_parts[a].1.len() && 0 <= j
                < s.instrument_parts[a].1[p].items.len() ==> match (
                #[trigger] s.instrument_parts[a].1[p].items[j],
                transposed(s, new_root).instrument_parts[a].1[p].items[j],
            ) {
                (PartItemView::Chord(c), PartItemView::Chord(d)) => d.quality == c.quality && (
                note_index(c.root) is Some ==> note_index(d.root) == Some(
                    (note_index(c.root)->0 + (note_index(new_root)->0 + 12 - note_index(
                        key_root(s.key),
                    )->0) % 12) % 12,
                )),
                (PartItemView::Chord(_), _) => false,
                (x, y) => x == y,
            },
{
    let t = transposed(s, new_root);
    let n = note_index(new_root)->0;
    let o = note_index(key_root(s.key))->0;
    let sh = transpose_shift(s.key, new_root, n, o);
    assert forall|a: int| 0 <= a < s.instrument_parts.len() implies #[trigger] t.instrument_parts[a]
        == (s.instrument_parts[a].0, s.instrument_parts[a].1.map_values(
        |q: SongPartView| moved_part(sh, q),
    )) by {}
    assert forall|a: int, p: int, j: int|
        0 <= a < s.instrument_parts.len() && 0 <= p < s.instrument_parts[a].1.len() && 0 <= j
            < s.instrument_parts[a].1[p].items.len() implies match (
        #[trigger] s.instrument_parts[a].1[p].items[j],
        t.instrument_parts[a].1[p].items[j],
    ) {
        (PartItemView::Chord(c), PartItemView::Chord(d)) => d.quality == c.quality && (note_index(
            c.root,
        ) is Some ==> note_index(d.root) == Some(
            (note_index(c.root)->0 + (note_index(new_root)->0 + 12 - note_index(
                key_root(s.key),
            )->0) % 12) % 12,
        )),
        (PartItemView::Chord(_), _) => false,
        (x, y) => x == y,
    } by {
        assert(t.instrument_parts[a].1[p] == moved_part(sh, s.instrument_parts[a].1[p]));
        assert(t.instrument_parts[a].1[p].items[j] == moved_item(
            sh,
            s.instrument_parts[a].1[p].items[j],
        ));
        match s.instrument_parts[a].1[p].items[j] {
            PartItemView::Chord(c) => {
                if note_index(c.root) is Some {
                    lemma_transposed_index(
                        c.root,
                        ((n + 12 - o) % 12) as u8 as int,
                        explicit_sharps_of(sh),
                    );
                }
            },
            _ => {},
        }
    }
    assert forall|a: int, p: int|
        0 <= a < s.instrument_parts.len() && 0 <= p < s.instrument_parts[a].1.len()
            implies #[trigger] t.instrument_parts[a].1[p].items.len()
            == s.instrument_parts[a].1[p].items.len() by {
        assert(t.instrument_parts[a].1[p] == moved_part(sh, s.instrument_parts[a].1[p]));
    }
}

spec fn explicit_sharps_of(s: RootShift) -> bool {
    match s {
        RootShift::Transpose { interval, sharps } => sharps,
        _ => true,
    }
}

/// A capo of 0 leaves the song as it is.
pub proof fn lemma_capo_zero_is_identity(s: SongView)
    ensures
        with_capo(s, 0) == s,
{
}

/// A capo moves every chord root of the main parts that is a note down by
/// the capo (up for a negative capo), keeps every chord's quality, and
/// leaves every other item and the per-instrument parts unchanged.
pub proof fn lemma_capo_moves_roots(s: SongView, capo: int)
    requires
        -128 <= capo < 128,
        capo != 0,
    ensures
        with_capo(s, capo).parts.len() == s.parts.len(),
        with_capo(s, capo).instrument_parts == s.instrument_parts,
        forall|p: int, j: int|
            0 <= p < s.parts.len() && 0 <= j < s.parts[p].items.len() ==> match (
                #[trigger] s.parts[p].items[j],
                with_capo(s, capo).parts[p].items[j],
            ) {
                (PartItemView::Chord(c), PartItemView::Chord(d)) => d.quality == c.quality && (
                note_index(c.root) is Some ==> note_index(d.root) == Some(
                    (note_index(c.root)->0 - capo) % 12,
                )),
                (PartItemView::Chord(_), _) => false,
                (a, b) => a == b,
            },
{
    let w = with_capo(s, capo);
    let sh = capo_shift(capo_key(s.key, capo), capo);
    assert forall|p: int, j: int|
        0 <= p < s.parts.len() && 0 <= j < s.parts[p].items.len() implies match (
        #[trigger] s.parts[p].items[j],
        w.parts[p].items[j],
    ) {
        (PartItemView::Chord(c), PartItemView::Chord(d)) => d.quality == c.quality && (
        note_index(c.root) is Some ==> note_index(d.root) == Some(
            (note_index(c.root)->0 - capo) % 12,
        )),
        (PartItemView::Chord(_), _) => false,
        (a, b) => a == b,
    } by {
        assert(w.parts[p] == moved_part(sh, s.parts[p]));
        assert(w.parts[p].items[j] == moved_item(sh, s.parts[p].items[j]));
        match s.parts[p].items[j] {
            PartItemView::Chord(c) => {
                if note_index(c.root) is Some {
                    let i = note_index(c.root)->0;
                    if capo > 0 {
                        lemma_shifted_down_index(c.root, capo, sharps_minor(sh));
                    } else {
                        lemma_shifted_up_index(c.root, -capo, sharps_minor(sh));
                        assert((i + (-capo)) % 12 == (i - capo) % 12);
                    }
                }
            },
            _ => {},
        }
    }
}

spec fn sharps_minor(s: RootShift) -> bool {
    match s {
        RootShift::Down { semitones, minor } => minor,
        RootShift::Up { semitones, minor } => minor,
        _ => false,
    }
}

} // verus!
