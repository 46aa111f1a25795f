//! Pitch arithmetic on note names: parsing a note to its chromatic index,
//! spelling an index with sharps or flats, key-signature conventions, and
//! shifting a note up or down by semitones.
use vstd::prelude::*;
use vstd::string::*;
use crate::text::{str_eq, trim, trim_str, owned, ends_with_char};

verus! {

broadcast use vstd::string::group_string_axioms;

/// The chromatic index (0 = C … 11 = B) of an exact note spelling.
pub open spec fn note_table(t: Seq<char>) -> Option<int> {
    if t == "C"@ || t == "B#"@ {
        Some(0int)
    } else if t == "C#"@ || t == "Db"@ {
        Some(1int)
    } else if t == "D"@ {
        Some(2int)
    } else if t == "D#"@ || t == "Eb"@ {
        Some(3int)
    } else if t == "E"@ || t == "Fb"@ {
        Some(4int)
    } else if t == "F"@ || t == "E#"@ {
        Some(5int)
    } else if t == "F#"@ || t == "Gb"@ {
        Some(6int)
    } else if t == "G"@ {
        Some(7int)
    } else if t == "G#"@ || t == "Ab"@ {
        Some(8int)
    } else if t == "A"@ {
        Some(9int)
    } else if t == "A#"@ || t == "Bb"@ {
        Some(10int)
    } else if t == "B"@ || t == "Cb"@ {
        Some(11int)
    } else {
        None
    }
}

/// The chromatic index of a note name, ignoring surrounding whitespace.
pub open spec fn note_index(note: Seq<char>) -> Option<int> {
    note_table(trim(note))
}

/// The spelling of chromatic index `k` (0..12), with sharps or with flats.
pub open spec fn note_name(k: int, sharps: bool) -> Seq<char> {
    if k == 0 {
        "C"@
    } else if k == 1 {
        if sharps { "C#"@ } else { "Db"@ }
    } else if k == 2 {
        "D"@
    } else if k == 3 {
        if sharps { "D#"@ } else { "Eb"@ }
    } else if k == 4 {
        "E"@
    } else if k == 5 {
        "F"@
    } else if k == 6 {
        if sharps { "F#"@ } else { "Gb"@ }
    } else if k == 7 {
        "G"@
    } else if k == 8 {
        if sharps { "G#"@ } else { "Ab"@ }
    } else if k == 9 {
        "A"@
    } else if k == 10 {
        if sharps { "A#"@ } else { "Bb"@ }
    } else {
        "B"@
    }
}

/// Whether a key with this root is conventionally written with sharps.
pub open spec fn sharp_key(root: Seq<char>, minor: bool) -> bool {
    if minor {
        root == "A"@ || root == "E"@ || root == "B"@ || root == "F#"@ || root == "C#"@ || root
            == "G#"@ || root == "D#"@
    } else {
        root == "C"@ || root == "G"@ || root == "D"@ || root == "A"@ || root == "E"@ || root
            == "B"@ || root == "F#"@ || root == "C#"@
    }
}

/// The accidental preference for an explicitly chosen root: a trailing `#`
/// means sharps, a trailing `b` after a letter means flats, otherwise the
/// key-signature convention decides.
pub open spec fn explicit_sharps(root: Seq<char>, minor: bool) -> bool {
    if root.len() > 0 && root.last() == '#' {
        true
    } else if root.len() > 1 && root.last() == 'b' {
        false
    } else {
        sharp_key(root, minor)
    }
}

/// Index `k` spelled the way a key rooted on that pitch prefers.
pub open spec fn conventional_name(k: int, minor: bool) -> Seq<char> {
    note_name(k, sharp_key(note_name(k, true), minor))
}

/// `root` moved up by `n` semitones, or unchanged when `n` is 0 or `root`
/// is not a note name.
pub open spec fn shifted_up(root: Seq<char>, n: int, minor: bool) -> Seq<char> {
    if n == 0 {
        root
    } else {
        match note_index(root) {
            Some(i) => conventional_name((i + n) % 12, minor),
            None => root,
        }
    }
}

/// `root` moved down by `n` semitones, or unchanged when `n` is 0 or `root`
/// is not a note name.
pub open spec fn shifted_down(root: Seq<char>, n: int, minor: bool) -> Seq<char> {
    if n == 0 {
        root
    } else {
        match note_index(root) {
            Some(i) => conventional_name((i - n) % 12, minor),
            None => root,
        }
    }
}

/// Returns the chromatic index (0 = C … 11 = B) for a note name, or `None`.
pub(crate) fn note_to_index(note: &str) -> (r: Option<u8>)
    ensures
        r is Some <==> note_index(note@) is Some,
        r matches Some(i) ==> note_index(note@) == Some(i as int) && i < 12,
{
    let t = trim_str(note);
    if str_eq(t, "C") || str_eq(t, "B#") {
        Some(0)
    } else if str_eq(t, "C#") || str_eq(t, "Db") {
        Some(1)
    } else if str_eq(t, "D") {
        Some(2)
    } else if str_eq(t, "D#") || str_eq(t, "Eb") {
        Some(3)
    } else if str_eq(t, "E") || str_eq(t, "Fb") {
        Some(4)
    } else if str_eq(t, "F") || str_eq(t, "E#") {
        Some(5)
    } else if str_eq(t, "F#") || str_eq(t, "Gb") {
        Some(6)
    } else if str_eq(t, "G") {
        Some(7)
    } else if str_eq(t, "G#") || str_eq(t, "Ab") {
        Some(8)
    } else if str_eq(t, "A") {
        Some(9)
    } else if str_eq(t, "A#") || str_eq(t, "Bb") {
        Some(10)
    } else if str_eq(t, "B") || str_eq(t, "Cb") {
        Some(11)
    } else {
        None
    }
}

/// Converts a chromatic index (taken modulo 12) back to a note name.
pub(crate) fn index_to_note(index: u8, prefer_sharps: bool) -> (r: &'static str)
    ensures
        r@ == note_name(index as int % 12, prefer_sharps),
{
    let k = index % 12;
    if k == 0 {
        "C"
    } else if k == 1 {
        if prefer_sharps { "C#" } else { "Db" }
    } else if k == 2 {
        "D"
    } else if k == 3 {
        if prefer_sharps { "D#" } else { "Eb" }
    } else if k == 4 {
        "E"
    } else if k == 5 {
        "F"
    } else if k == 6 {
        if prefer_sharps { "F#" } else { "Gb" }
    } else if k == 7 {
        "G"
    } else if k == 8 {
        if prefer_sharps { "G#" } else { "Ab" }
    } else if k == 9 {
        "A"
    } else if k == 10 {
        if prefer_sharps { "A#" } else { "Bb" }
    } else {
        "B"
    }
}

/// Returns whether `root` is conventionally written with sharps in a major or minor key.
/// Major sharp keys:  C  G  D  A  E  B  F#  C#
/// Minor sharp keys:  A  E  B  F#  C#  G#  D#
pub fn prefer_sharps_for_key(root: &str, is_minor: bool) -> (r: bool)
    ensures
        r == sharp_key(root@, is_minor),
{
    if is_minor {
        str_eq(root, "A") || str_eq(root, "E") || str_eq(root, "B") || str_eq(root, "F#")
            || str_eq(root, "C#") || str_eq(root, "G#") || str_eq(root, "D#")
    } else {
        str_eq(root, "C") || str_eq(root, "G") || str_eq(root, "D") || str_eq(root, "A")
            || str_eq(root, "E") || str_eq(root, "B") || str_eq(root, "F#") || str_eq(root, "C#")
    }
}

/// Honours the spelling the user chose for a root: `#` → sharps, `b` → flats,
/// a natural note → the key-signature convention.
pub(crate) fn explicit_prefer_sharps(root: &str, is_minor: bool) -> (r: bool)
    ensures
        r == explicit_sharps(root@, is_minor),
{
    if ends_with_char(root, '#') {
        true
    } else if ends_with_char(root, 'b') && root.unicode_len() > 1 {
        false
    } else {
        prefer_sharps_for_key(root, is_minor)
    }
}

/// The name of index `k`, spelled as a key rooted on that pitch prefers.
fn conventional(k: u8, is_minor: bool) -> (r: String)
    requires
        k < 12,
    ensures
        r@ == conventional_name(k as int, is_minor),
{
    let sharp_name = index_to_note(k, true);
    let prefer = prefer_sharps_for_key(sharp_name, is_minor);
    owned(index_to_note(k, prefer))
}

/// Shift a note root up by `semitones_up` chromatically.
/// `is_minor` selects minor-key vs major-key sharp/flat conventions.
/// Returns the original string unchanged if it cannot be parsed.
pub fn shift_note_up(root: &str, semitones_up: u8, is_minor: bool) -> (r: String)
    ensures
        r@ == shifted_up(root@, semitones_up as int, is_minor),
{
    if semitones_up == 0 {
        return owned(root);
    }
    match note_to_index(root) {
        Some(idx) => {
            let new_idx = ((idx as u16 + semitones_up as u16) % 12) as u8;
            conventional(new_idx, is_minor)
        },
        None => owned(root),
    }
}

/// Shift a note root down by `semitones_down` chromatically.
/// `is_minor` selects minor-key vs major-key sharp/flat conventions.
/// Returns the original string unchanged if it cannot be parsed.
pub fn shift_note(root: &str, semitones_down: u8, is_minor: bool) -> (r: String)
    ensures
        r@ == shifted_down(root@, semitones_down as int, is_minor),
{
    if semitones_down == 0 {
        return owned(root);
    }
    match note_to_index(root) {
        Some(idx) => {
            let m = (semitones_down % 12) as u8;
            let new_idx = ((idx + 12 - m) % 12) as u8;
            assert((idx - semitones_down) % 12 == (idx + 12 - m) % 12) by (nonlinear_arith)
                requires
                    m == semitones_down % 12,
                    idx < 12,
            ;
            conventional(new_idx, is_minor)
        },
        None => owned(root),
    }
}

} // verus!
