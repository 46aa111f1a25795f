//! The whole song: its parts, per-instrument arrangements, transposition to
//! a new key and capo shifting.
use vstd::prelude::*;
use vstd::string::*;
use crate::text::{owned, str_eq, words, join_space, strings_view, split_words, join_words_from, contains_seq, contains_str, to_lowercase, unicode_lowercase};
use crate::song::theory::{note_index, note_name, explicit_sharps, shifted_up, shifted_down, conventional_name, note_to_index, index_to_note, explicit_prefer_sharps, shift_note, shift_note_up};
use crate::song::quality::{Chord, ChordView, Notation, chord_text, notation_name, quality_symbol, apply_notation};
use crate::song::part::{PartItem, PartItemView, SongPart, SongPartView, parts_view, items_view};
use crate::song::tab::{copy_grid, PartKind, TabColView};
use crate::song::instrument::{Instrument, PdfSettings};

verus! {

broadcast use vstd::string::group_string_axioms;

// ── Types ────────────────────────────────────────────────────────────────────

/// A song: title, key and artist, its ordered parts, and per-instrument
/// arrangements keyed by instrument label (each label at most once).
#[derive(Debug, Clone, PartialEq)]
pub struct Song {
    pub name: String,
    pub key: String,
    pub artist: String,
    /// Ordered list of named parts, each with its own chord progression.
    pub parts: Vec<SongPart>,
    /// Which instruments this arrangement is for.
    pub instruments: Vec<Instrument>,
    /// Free-form vocals / lyrics notes.
    pub vocals_notes: String,
    /// Per-instrument chord overrides, keyed by `Instrument::label()`.
    pub instrument_parts: Vec<(String, Vec<SongPart>)>,
    /// Per-instrument capo/transpose settings, keyed by `Instrument::label()`.
    /// Positive = capo (shift down), negative = transpose up.
    pub instrument_capos: Vec<(String, i8)>,
    /// Per-sheet PDF font-size settings, keyed by "Base" or `Instrument::label()`.
    pub pdf_settings: Vec<(String, PdfSettings)>,
}

/// The abstract content of a song.
pub struct SongView {
    pub name: Seq<char>,
    pub key: Seq<char>,
    pub artist: Seq<char>,
    pub parts: Seq<SongPartView>,
    pub instruments: Seq<Instrument>,
    pub vocals_notes: Seq<char>,
    pub instrument_parts: Seq<(Seq<char>, Seq<SongPartView>)>,
    pub instrument_capos: Seq<(Seq<char>, i8)>,
    pub pdf_settings: Seq<(Seq<char>, PdfSettings)>,
}

/// The view of per-instrument parts.
pub open spec fn arrangements_view(v: Seq<(String, Vec<SongPart>)>) -> Seq<(Seq<char>, Seq<SongPartView>)> {
    v.map_values(|e: (String, Vec<SongPart>)| (e.0@, parts_view(e.1@)))
}

/// The view of per-instrument capos.
pub open spec fn capos_view(v: Seq<(String, i8)>) -> Seq<(Seq<char>, i8)> {
    v.map_values(|e: (String, i8)| (e.0@, e.1))
}

/// The view of per-sheet PDF settings.
pub open spec fn settings_view(v: Seq<(String, PdfSettings)>) -> Seq<(Seq<char>, PdfSettings)> {
    v.map_values(|e: (String, PdfSettings)| (e.0@, e.1))
}

impl View for Song {
    type V = SongView;

    open spec fn view(&self) -> SongView {
        SongView {
            name: self.name@,
            key: self.key@,
            artist: self.artist@,
            parts: parts_view(self.parts@),
            instruments: self.instruments@,
            vocals_notes: self.vocals_notes@,
            instrument_parts: arrangements_view(self.instrument_parts@),
            instrument_capos: capos_view(self.instrument_capos@),
            pdf_settings: settings_view(self.pdf_settings@),
        }
    }
}

/// No key occurs twice among `keys`.
pub open spec fn distinct_keys(keys: Seq<Seq<char>>) -> bool {
    forall|a: int, b: int| 0 <= a < b < keys.len() ==> keys[a] != keys[b]
}

/// Each per-instrument table holds every label at most once.
pub open spec fn song_wf(s: SongView) -> bool {
    &&& distinct_keys(s.instrument_parts.map_values(|e: (Seq<char>, Seq<SongPartView>)| e.0))
    &&& distinct_keys(s.instrument_capos.map_values(|e: (Seq<char>, i8)| e.0))
    &&& distinct_keys(s.pdf_settings.map_values(|e: (Seq<char>, PdfSettings)| e.0))
}

/// The position of `k` among the keys of `keys`, if present.
pub open spec fn key_position(keys: Seq<Seq<char>>, k: Seq<char>) -> Option<int> {
    if exists|i: int| 0 <= i < keys.len() && keys[i] == k {
        Some(choose|i: int| 0 <= i < keys.len() && keys[i] == k)
    } else {
        None
    }
}

/// The parts arranged for the instrument labelled `k`, if any.
pub open spec fn arrangement_for(s: SongView, k: Seq<char>) -> Option<Seq<SongPartView>> {
    let keys = s.instrument_parts.map_values(|e: (Seq<char>, Seq<SongPartView>)| e.0);
    match key_position(keys, k) {
        Some(i) => Some(s.instrument_parts[i].1),
        None => None,
    }
}

/// The capo set for the instrument labelled `k` (0 when none is set).
pub open spec fn capo_for(s: SongView, k: Seq<char>) -> i8 {
    let keys = s.instrument_capos.map_values(|e: (Seq<char>, i8)| e.0);
    match key_position(keys, k) {
        Some(i) => s.instrument_capos[i].1,
        None => 0,
    }
}

/// The PDF settings of the sheet labelled `k` (the defaults when none are set).
pub open spec fn settings_for(s: SongView, k: Seq<char>) -> PdfSettings {
    let keys = s.pdf_settings.map_values(|e: (Seq<char>, PdfSettings)| e.0);
    match key_position(keys, k) {
        Some(i) => s.pdf_settings[i].1,
        None => PdfSettings { part_name_size: 9, chord_size: 18 },
    }
}

// ── Moving roots ─────────────────────────────────────────────────────────────

/// How chord roots and bass notes are moved.
#[derive(Clone, Copy)]
pub enum RootShift {
    /// Up by `interval` semitones, every note spelled with sharps or flats as given.
    Transpose { interval: u8, sharps: bool },
    /// Down by `semitones`, each note spelled by its own key convention.
    Down { semitones: u8, minor: bool },
    /// Up by `semitones`, each note spelled by its own key convention.
    Up { semitones: u8, minor: bool },
}

/// `root` moved up by `interval` semitones and spelled as asked; unchanged
/// when it is not a note name.
pub open spec fn transposed_root(root: Seq<char>, interval: int, sharps: bool) -> Seq<char> {
    match note_index(root) {
        Some(i) => note_name((i + interval) % 12, sharps),
        None => root,
    }
}

/// A note moved by a shift.
pub open spec fn moved_root(s: RootShift, root: Seq<char>) -> Seq<char> {
    match s {
        RootShift::Transpose { interval, sharps } => transposed_root(root, interval as int, sharps),
        RootShift::Down { semitones, minor } => shifted_down(root, semitones as int, minor),
        RootShift::Up { semitones, minor } => shifted_up(root, semitones as int, minor),
    }
}

/// A chord with root and bass note moved; the quality is kept.
pub open spec fn moved_chord(s: RootShift, c: ChordView) -> ChordView {
    ChordView {
        root: moved_root(s, c.root),
        quality: c.quality,
        bass_note: match c.bass_note {
            Some(b) => Some(moved_root(s, b)),
            None => None,
        },
    }
}

/// An item with its chord moved; other items are kept.
pub open spec fn moved_item(s: RootShift, it: PartItemView) -> PartItemView {
    match it {
        PartItemView::Chord(c) => PartItemView::Chord(moved_chord(s, c)),
        _ => it,
    }
}

/// A part with every chord moved; everything else is kept.
pub open spec fn moved_part(s: RootShift, p: SongPartView) -> SongPartView {
    SongPartView {
        name: p.name,
        kind: p.kind,
        tab: p.tab,
        tab_grid: p.tab_grid,
        items: p.items.map_values(|it: PartItemView| moved_item(s, it)),
        part_text: p.part_text,
    }
}

/// Every part moved.
pub open spec fn moved_parts(s: RootShift, ps: Seq<SongPartView>) -> Seq<SongPartView> {
    ps.map_values(|p: SongPartView| moved_part(s, p))
}

/// Every arrangement moved, labels kept.
pub open spec fn moved_arrangements(
    s: RootShift,
    v: Seq<(Seq<char>, Seq<SongPartView>)>,
) -> Seq<(Seq<char>, Seq<SongPartView>)> {
    v.map_values(|e: (Seq<char>, Seq<SongPartView>)| (e.0, moved_parts(s, e.1)))
}

fn move_root(s: RootShift, root: &str) -> (r: String)
    ensures
        r@ == moved_root(s, root@),
{
    match s {
        RootShift::Transpose { interval, sharps } => {
            match note_to_index(root) {
                Some(i) => {
                    let k = ((i as u16 + interval as u16) % 12) as u8;
                    owned(index_to_note(k, sharps))
                },
                None => owned(root),
            }
        },
        RootShift::Down { semitones, minor } => shift_note(root, semitones, minor),
        RootShift::Up { semitones, minor } => shift_note_up(root, semitones, minor),
    }
}

fn move_chord(s: RootShift, c: &Chord) -> (r: Chord)
    ensures
        r@ == moved_chord(s, c@),
{
    Chord {
        root: move_root(s, c.root.as_str()),
        quality: c.quality,
        bass_note: match &c.bass_note {
            Some(b) => Some(move_root(s, b.as_str())),
            None => None,
        },
    }
}

fn move_items(s: RootShift, items: &Vec<PartItem>) -> (r: Vec<PartItem>)
    ensures
        items_view(r@) == items_view(items@).map_values(|it: PartItemView| moved_item(s, it)),
{
    let mut r: Vec<PartItem> = Vec::new();
    let mut i: usize = 0;
    while i < items.len()
        invariant
            i <= items@.len(),
            r@.len() == i,
            forall|j: int| 0 <= j < i ==> #[trigger] r@[j]@ == moved_item(s, items@[j]@),
        decreases items@.len() - i,
    {
        let it = match &items[i] {
            PartItem::Chord(c) => PartItem::Chord(move_chord(s, c)),
            other => other.copy(),
        };
        r.push(it);
        i = i + 1;
    }
    assert(items_view(r@) =~= items_view(items@).map_values(|it: PartItemView| moved_item(s, it)));
    r
}

fn move_part(s: RootShift, p: &SongPart) -> (r: SongPart)
    ensures
        r@ == moved_part(s, p@),
{
    SongPart {
        name: p.name.clone(),
        kind: p.kind,
        tab: p.tab.clone(),
        tab_grid: copy_grid(&p.tab_grid),
        items: move_items(s, &p.items),
        part_text: match &p.part_text {
            Some(t) => Some(t.copy()),
            None => None,
        },
    }
}

fn move_parts(s: RootShift, ps: &Vec<SongPart>) -> (r: Vec<SongPart>)
    ensures
        parts_view(r@) == moved_parts(s, parts_view(ps@)),
{
    let mut r: Vec<SongPart> = Vec::new();
    let mut i: usize = 0;
    while i < ps.len()
        invariant
            i <= ps@.len(),
            r@.len() == i,
            forall|j: int| 0 <= j < i ==> #[trigger] r@[j]@ == moved_part(s, ps@[j]@),
        decreases ps@.len() - i,
    {
        r.push(move_part(s, &ps[i]));
        i = i + 1;
    }
    assert(parts_view(r@) =~= moved_parts(s, parts_view(ps@)));
    r
}

fn move_arrangements(s: RootShift, v: &Vec<(String, Vec<SongPart>)>) -> (r: Vec<(String, Vec<SongPart>)>)
    ensures
        arrangements_view(r@) == moved_arrangements(s, arrangements_view(v@)),
{
    let mut r: Vec<(String, Vec<SongPart>)> = Vec::new();
    let mut i: usize = 0;
    while i < v.len()
        invariant
            i <= v@.len(),
            r@.len() == i,
            forall|j: int|
                0 <= j < i ==> #[trigger] r@[j].0@ == v@[j].0@ && parts_view(r@[j].1@)
                    == moved_parts(s, parts_view(v@[j].1@)),
        decreases v@.len() - i,
    {
        let e = &v[i];
        r.push((e.0.clone(), move_parts(s, &e.1)));
        i = i + 1;
    }
    assert(arrangements_view(r@) =~= moved_arrangements(s, arrangements_view(v@)));
    r
}

// ── Copies ───────────────────────────────────────────────────────────────────

/// Copies every part.
pub fn copy_parts(ps: &Vec<SongPart>) -> (r: Vec<SongPart>)
    ensures
        parts_view(r@) == parts_view(ps@),
{
    let mut r: Vec<SongPart> = Vec::new();
    let mut i: usize = 0;
    while i < ps.len()
        invariant
            i <= ps@.len(),
            r@.len() == i,
            forall|j: int| 0 <= j < i ==> #[trigger] r@[j]@ == ps@[j]@,
        decreases ps@.len() - i,
    {
        r.push(ps[i].copy());
        i = i + 1;
    }
    assert(parts_view(r@) =~= parts_view(ps@));
    r
}

fn copy_instruments(v: &Vec<Instrument>) -> (r: Vec<Instrument>)
    ensures
        r@ == v@,
{
    let mut r: Vec<Instrument> = Vec::new();
    let mut i: usize = 0;
    while i < v.len()
        invariant
            i <= v@.len(),
            r@ == v@.take(i as int),
        decreases v@.len() - i,
    {
        r.push(v[i]);
        assert(r@ =~= v@.take(i + 1));
        i = i + 1;
    }
    assert(v@.take(v@.len() as int) =~= v@);
    r
}

fn copy_arrangements(v: &Vec<(String, Vec<SongPart>)>) -> (r: Vec<(String, Vec<SongPart>)>)
    ensures
        arrangements_view(r@) == arrangements_view(v@),
{
    let mut r: Vec<(String, Vec<SongPart>)> = Vec::new();
    let mut i: usize = 0;
    while i < v.len()
        invariant
            i <= v@.len(),
            r@.len() == i,
            forall|j: int|
                0 <= j < i ==> #[trigger] r@[j].0@ == v@[j].0@ && parts_view(r@[j].1@)
                    == parts_view(v@[j].1@),
        decreases v@.len() - i,
    {
        let e = &v[i];
        r.push((e.0.clone(), copy_parts(&e.1)));
        i = i + 1;
    }
    assert(arrangements_view(r@) =~= arrangements_view(v@));
    r
}

fn copy_capos(v: &Vec<(String, i8)>) -> (r: Vec<(String, i8)>)
    ensures
        capos_view(r@) == capos_view(v@),
{
    let mut r: Vec<(String, i8)> = Vec::new();
    let mut i: usize = 0;
    while i < v.len()
        invariant
            i <= v@.len(),
            r@.len() == i,
            forall|j: int| 0 <= j < i ==> #[trigger] r@[j].0@ == v@[j].0@ && r@[j].1 == v@[j].1,
        decreases v@.len() - i,
    {
        r.push((v[i].0.clone(), v[i].1));
        i = i + 1;
    }
    assert(capos_view(r@) =~= capos_view(v@));
    r
}

fn copy_settings(v: &Vec<(String, PdfSettings)>) -> (r: Vec<(String, PdfSettings)>)
    ensures
        settings_view(r@) == settings_view(v@),
{
    let mut r: Vec<(String, PdfSettings)> = Vec::new();
    let mut i: usize = 0;
    while i < v.len()
        invariant
            i <= v@.len(),
            r@.len() == i,
            forall|j: int| 0 <= j < i ==> #[trigger] r@[j].0@ == v@[j].0@ && r@[j].1 == v@[j].1,
        decreases v@.len() - i,
    {
        r.push((v[i].0.clone(), v[i].1));
        i = i + 1;
    }
    assert(settings_view(r@) =~= settings_view(v@));
    r
}

// ── Keyed tables ─────────────────────────────────────────────────────────────

/// The labels of a keyed table.
pub open spec fn table_keys<V>(v: Seq<(String, V)>) -> Seq<Seq<char>> {
    v.map_values(|e: (String, V)| e.0@)
}

/// In a table with distinct labels, the position of a label is where it stands.
pub proof fn lemma_key_position(keys: Seq<Seq<char>>, k: Seq<char>, i: int)
    requires
        distinct_keys(keys),
        0 <= i < keys.len(),
        keys[i] == k,
    ensures
        key_position(keys, k) == Some(i),
{
    let c = choose|j: int| 0 <= j < keys.len() && keys[j] == k;
    assert(0 <= c < keys.len() && keys[c] == k);
    if c != i {
        if c < i {
            assert(keys[c] != keys[i]);
        } else {
            assert(keys[i] != keys[c]);
        }
    }
}

/// The position of `label` in a table whose labels are distinct.
pub(crate) fn position_of<V>(v: &Vec<(String, V)>, label: &str) -> (r: Option<usize>)
    requires
        distinct_keys(table_keys(v@)),
    ensures
        r matches Some(i) ==> key_position(table_keys(v@), label@) == Some(i as int),
        r is None ==> key_position(table_keys(v@), label@) is None,
{
    let mut i: usize = 0;
    while i < v.len()
        invariant
            i <= v@.len(),
            distinct_keys(table_keys(v@)),
            forall|j: int| 0 <= j < i ==> #[trigger] table_keys(v@)[j] != label@,
        decreases v@.len() - i,
    {
        if str_eq(v[i].0.as_str(), label) {
            proof {
                lemma_key_position(table_keys(v@), label@, i as int);
            }
            return Some(i);
        }
        i = i + 1;
    }
    None
}

// ── Keys ─────────────────────────────────────────────────────────────────────

/// The root of a key: its first word, or "C" when it has none.
pub open spec fn key_root(key: Seq<char>) -> Seq<char> {
    if words(key).len() > 0 {
        words(key)[0]
    } else {
        "C"@
    }
}

/// The mode of a key: the words after the root, joined by single spaces.
pub open spec fn key_mode(key: Seq<char>) -> Seq<char> {
    if words(key).len() > 0 {
        join_space(words(key).skip(1))
    } else {
        seq![]
    }
}

/// `key` with its root replaced by `root`.
pub open spec fn rekey(root: Seq<char>, key: Seq<char>) -> Seq<char> {
    if key_mode(key).len() == 0 {
        root
    } else {
        root + " "@ + key_mode(key)
    }
}

/// A key is minor when its lowercase form contains "minor".
pub open spec fn is_minor_key(key: Seq<char>) -> bool {
    contains_seq(unicode_lowercase(key), "minor"@)
}

/// The root and the mode of a key.
fn key_parts(key: &str) -> (r: (String, String))
    ensures
        r.0@ == key_root(key@),
        r.1@ == key_mode(key@),
{
    let ws = split_words(key);
    if ws.len() > 0 {
        assert(strings_view(ws@)[0] == ws@[0]@);
        (ws[0].clone(), join_words_from(&ws, 1))
    } else {
        (owned("C"), String::new())
    }
}

/// `key` with its root replaced by `root`.
fn rekey_exec(root: &str, key: &str) -> (r: String)
    ensures
        r@ == rekey(root@, key@),
{
    let (_, mode) = key_parts(key);
    if mode.as_str().is_empty() {
        owned(root)
    } else {
        let mut r = owned(root);
        r.append(" ");
        r.append(mode.as_str());
        r
    }
}

fn minor_key(key: &str) -> (r: bool)
    ensures
        r == is_minor_key(key@),
{
    let lower = to_lowercase(key);
    contains_str(lower.as_str(), "minor")
}

proof fn lemma_capo_index(orig: int, capo: int, m: int)
    requires
        0 <= orig < 12,
        m == ((capo % 12) + 12) % 12,
    ensures
        (orig - capo) % 12 == (orig - m + 12) % 12,
        0 <= (orig - m + 12) % 12 < 12,
{
    assert((orig - capo) % 12 == (orig - m + 12) % 12) by (nonlinear_arith)
        requires
            m == ((capo % 12) + 12) % 12,
    ;
}

fn capo_index(orig: u8, capo: i8) -> (r: u8)
    requires
        orig < 12,
    ensures
        r as int == (orig - capo) % 12,
        r < 12,
{
    let m = (((capo as i16) % 12) + 12) % 12;
    proof {
        lemma_capo_index(orig as int, capo as int, m as int);
    }
    ((orig as i16 - m + 12) % 12) as u8
}

/// The key after a capo of `capo` frets.
fn capo_key_exec(key: &str, capo: i8) -> (r: String)
    ensures
        r@ == capo_key(key@, capo as int),
{
    let (key_root_s, _) = key_parts(key);
    match note_to_index(key_root_s.as_str()) {
        Some(orig_idx) => {
            let new_idx = capo_index(orig_idx, capo);
            let sharp_name = index_to_note(new_idx, true);
            let prefer = crate::song::theory::prefer_sharps_for_key(sharp_name, false);
            let new_root = index_to_note(new_idx, prefer);
            rekey_exec(new_root, key)
        },
        None => owned(key),
    }
}

// ── Key editing ──────────────────────────────────────────────────────────────

/// The song with its key moved one semitone up or down and every chord
/// transposed with it: the key root moves as `shift_note_up` / `shift_note`
/// move a note (spelled by the key's mode), and the song is transposed to it.
pub open spec fn key_stepped(s: SongView, up: bool) -> SongView {
    let minor = is_minor_key(s.key);
    let root = key_root(s.key);
    transposed(
        s,
        if up {
            shifted_up(root, 1, minor)
        } else {
            shifted_down(root, 1, minor)
        },
    )
}

/// The other spelling of a black-key root: C# and Db, D# and Eb, F# and
/// Gb, G# and Ab, A# and Bb; `None` for every other root.
pub open spec fn enharmonic_of(root: Seq<char>) -> Option<Seq<char>> {
    if root == "C#"@ {
        Some("Db"@)
    } else if root == "Db"@ {
        Some("C#"@)
    } else if root == "D#"@ {
        Some("Eb"@)
    } else if root == "Eb"@ {
        Some("D#"@)
    } else if root == "F#"@ {
        Some("Gb"@)
    } else if root == "Gb"@ {
        Some("F#"@)
    } else if root == "G#"@ {
        Some("Ab"@)
    } else if root == "Ab"@ {
        Some("G#"@)
    } else if root == "A#"@ {
        Some("Bb"@)
    } else if root == "Bb"@ {
        Some("A#"@)
    } else {
        None
    }
}

/// The mode word written after a key root.
pub open spec fn mode_word(minor: bool) -> Seq<char> {
    if minor {
        " Minor"@
    } else {
        " Major"@
    }
}

/// The song respelled in the other spelling of its key root: transposed to
/// it, with the key written as that root and "Major" or "Minor" after the
/// mode it had; unchanged when the root has no other spelling.
pub open spec fn enharmonic_flipped(s: SongView) -> SongView {
    match enharmonic_of(key_root(s.key)) {
        Some(e) => SongView { key: e + mode_word(is_minor_key(s.key)), ..transposed(s, e) },
        None => s,
    }
}

/// The sheet of the instrument labelled `label`: the song with that
/// instrument's arrangement in place of the main parts when it has one.
pub open spec fn instrument_sheet_view(s: SongView, label: Seq<char>) -> SongView {
    match arrangement_for(s, label) {
        Some(p) => SongView { parts: p, ..s },
        None => s,
    }
}

/// The other spelling of a black-key root (see `enharmonic_of`).
pub fn enharmonic(root: &str) -> (r: Option<&'static str>)
    ensures
        match r {
            Some(e) => enharmonic_of(root@) == Some(e@),
            None => enharmonic_of(root@) is None,
        },
{
    proof {
        reveal_strlit("C#");
        reveal_strlit("Db");
        reveal_strlit("D#");
        reveal_strlit("Eb");
        reveal_strlit("F#");
        reveal_strlit("Gb");
        reveal_strlit("G#");
        reveal_strlit("Ab");
        reveal_strlit("A#");
        reveal_strlit("Bb");
    }
    if str_eq(root, "C#") {
        Some("Db")
    } else if str_eq(root, "Db") {
        Some("C#")
    } else if str_eq(root, "D#") {
        Some("Eb")
    } else if str_eq(root, "Eb") {
        Some("D#")
    } else if str_eq(root, "F#") {
        Some("Gb")
    } else if str_eq(root, "Gb") {
        Some("F#")
    } else if str_eq(root, "G#") {
        Some("Ab")
    } else if str_eq(root, "Ab") {
        Some("G#")
    } else if str_eq(root, "A#") {
        Some("Bb")
    } else if str_eq(root, "Bb") {
        Some("A#")
    } else {
        None
    }
}

/// Flipping a root's spelling twice gives it back.
pub proof fn lemma_enharmonic_involution(root: Seq<char>)
    ensures
        enharmonic_of(root) matches Some(e) ==> enharmonic_of(e) == Some(root),
{
    reveal_strlit("C#");
    reveal_strlit("Db");
    reveal_strlit("D#");
    reveal_strlit("Eb");
    reveal_strlit("F#");
    reveal_strlit("Gb");
    reveal_strlit("G#");
    reveal_strlit("Ab");
    reveal_strlit("A#");
    reveal_strlit("Bb");
    let lits = seq!["C#"@, "Db"@, "D#"@, "Eb"@, "F#"@, "Gb"@, "G#"@, "Ab"@, "A#"@, "Bb"@];
    assert forall|a: int, b: int| 0 <= a < b < 10 implies lits[a] != lits[b] by {
        if lits[a] == lits[b] {
            assert(lits[a][0] == lits[b][0]);
            assert(lits[a][1] == lits[b][1]);
        }
    }
}

// ── Whole-song operations ────────────────────────────────────────────────────

/// A new song: no parts, instruments, notes or per-instrument data.
pub open spec fn new_song(name: Seq<char>, key: Seq<char>, artist: Seq<char>) -> SongView {
    SongView {
        name,
        key,
        artist,
        parts: seq![],
        instruments: seq![],
        vocals_notes: seq![],
        instrument_parts: seq![],
        instrument_capos: seq![],
        pdf_settings: seq![],
    }
}

/// A chord part named `name` holding `chords` in order.
pub open spec fn chord_part(name: Seq<char>, chords: Seq<ChordView>) -> SongPartView {
    SongPartView {
        name,
        kind: PartKind::Chords,
        tab: seq![],
        tab_grid: seq![],
        items: chords.map_values(|c: ChordView| PartItemView::Chord(c)),
        part_text: None,
    }
}

/// The song with every chord moved by `shift` in the main parts and, when
/// `arrangements` holds, in the per-instrument parts too; key set to `key`.
pub open spec fn reshaped(s: SongView, shift: RootShift, key: Seq<char>, arrangements: bool) -> SongView {
    SongView {
        name: s.name,
        key,
        artist: s.artist,
        parts: moved_parts(shift, s.parts),
        instruments: s.instruments,
        vocals_notes: s.vocals_notes,
        instrument_parts: if arrangements {
            moved_arrangements(shift, s.instrument_parts)
        } else {
            s.instrument_parts
        },
        instrument_capos: s.instrument_capos,
        pdf_settings: s.pdf_settings,
    }
}

/// The shift that transposes a key rooted on index `old` to `new_root`
/// (index `new`): up by the interval between them, spelled as `new_root`
/// asks (see `explicit_sharps`) under the key's major/minor mode.
pub open spec fn transpose_shift(key: Seq<char>, new_root: Seq<char>, new: int, old: int) -> RootShift {
    RootShift::Transpose {
        interval: ((new + 12 - old) % 12) as u8,
        sharps: explicit_sharps(new_root, is_minor_key(key)),
    }
}

/// The song transposed to `new_root`: unchanged when `new_root` or the root
/// of the current key is not a note name; otherwise every chord root and
/// bass note (main parts and per-instrument parts) moves by the interval
/// between the two roots and the key's root becomes `new_root`.
pub open spec fn transposed(s: SongView, new_root: Seq<char>) -> SongView {
    match (note_index(new_root), note_index(key_root(s.key))) {
        (Some(n), Some(o)) => reshaped(
            s,
            transpose_shift(s.key, new_root, n, o),
            rekey(new_root, s.key),
            true,
        ),
        _ => s,
    }
}

/// The key after a capo of `capo` frets: its root moved down by `capo`
/// semitones (up when negative) and spelled by the major-key convention;
/// unchanged when the root is not a note name.
pub open spec fn capo_key(key: Seq<char>, capo: int) -> Seq<char> {
    match note_index(key_root(key)) {
        Some(o) => rekey(conventional_name((o - capo) % 12, false), key),
        None => key,
    }
}

/// The shift a capo applies to the chords of a song whose shifted key is `key`.
pub open spec fn capo_shift(key: Seq<char>, capo: int) -> RootShift {
    if capo > 0 {
        RootShift::Down { semitones: capo as u8, minor: is_minor_key(key) }
    } else {
        RootShift::Up { semitones: (-capo) as u8, minor: is_minor_key(key) }
    }
}

/// Whether some main part holds a chord.
pub open spec fn has_chord(parts: Seq<SongPartView>) -> bool {
    exists|p: int, j: int|
        0 <= p < parts.len() && 0 <= j < parts[p].items.len() && #[trigger] parts[p].items[j] is Chord
}

/// The song as played with a capo: unchanged for 0; otherwise the key and
/// every chord root and bass note of the main parts move down by `capo`
/// semitones (up when negative). Per-instrument parts are kept.
pub open spec fn with_capo(s: SongView, capo: int) -> SongView {
    if capo == 0 {
        s
    } else {
        reshaped(s, capo_shift(capo_key(s.key, capo), capo), capo_key(s.key, capo), false)
    }
}

impl Song {
    pub fn new(name: &str, key: &str, artist: &str) -> (r: Song)
        ensures
            r@ == new_song(name@, key@, artist@),
            song_wf(r@),
    {
        let r = Song {
            name: owned(name),
            key: owned(key),
            artist: owned(artist),
            parts: Vec::new(),
            instruments: Vec::new(),
            vocals_notes: String::new(),
            instrument_parts: Vec::new(),
            instrument_capos: Vec::new(),
            pdf_settings: Vec::new(),
        };
        assert(r@.parts =~= Seq::<SongPartView>::empty());
        assert(r@.instrument_parts =~= Seq::<(Seq<char>, Seq<SongPartView>)>::empty());
        assert(r@.instrument_capos =~= Seq::<(Seq<char>, i8)>::empty());
        assert(r@.pdf_settings =~= Seq::<(Seq<char>, PdfSettings)>::empty());
        r
    }

    /// Builder-style helper – appends a new named chord part holding `chords`.
    pub fn with_part(self, name: &str, chords: Vec<Chord>) -> (r: Song)
        ensures
            r@ == (SongView {
                parts: self@.parts.push(
                    chord_part(name@, chords@.map_values(|c: Chord| c@)),
                ),
                ..self@
            }),
    {
        let mut items: Vec<PartItem> = Vec::new();
        let mut i: usize = 0;
        let ghost cv = chords@.map_values(|c: Chord| c@);
        while i < chords.len()
            invariant
                i <= chords@.len(),
                cv == chords@.map_values(|c: Chord| c@),
                items@.len() == i,
                forall|j: int| 0 <= j < i ==> #[trigger] items@[j]@ == PartItemView::Chord(cv[j]),
            decreases chords@.len() - i,
        {
            items.push(PartItem::Chord(chords[i].copy()));
            i = i + 1;
        }
        let part = SongPart {
            name: owned(name),
            kind: PartKind::Chords,
            tab: String::new(),
            tab_grid: Vec::new(),
            items,
            part_text: None,
        };
        assert(part@ =~= chord_part(name@, cv)) by {
            assert(part@.items =~= cv.map_values(|c: ChordView| PartItemView::Chord(c)));
            assert(part@.tab_grid =~= Seq::<TabColView>::empty());
        }
        let mut s = self;
        s.parts.push(part);
        assert(parts_view(s.parts@) =~= parts_view(self.parts@).push(part@));
        s
    }

    /// Stores `parts` as the arrangement for the instrument labelled
    /// `label`, replacing any arrangement it had.
    pub fn set_instrument_parts(&mut self, label: &str, parts: Vec<SongPart>)
        requires
            song_wf(old(self)@),
        ensures
            song_wf(final(self)@),
            arrangement_for(final(self)@, label@) == Some(parts_view(parts@)),
            final(self)@.instrument_parts == match key_position(
                table_keys(old(self).instrument_parts@),
                label@,
            ) {
                Some(i) => old(self)@.instrument_parts.update(i, (label@, parts_view(parts@))),
                None => old(self)@.instrument_parts.push((label@, parts_view(parts@))),
            },
            final(self)@ == (SongView { instrument_parts: final(self)@.instrument_parts, ..old(self)@ }),
    {
        let ghost old_keys = table_keys(self.instrument_parts@);
        assert(old_keys =~= self@.instrument_parts.map_values(|e: (Seq<char>, Seq<SongPartView>)| e.0));
        let ghost pv = parts_view(parts@);
        match position_of(&self.instrument_parts, label) {
            Some(i) => {
                self.instrument_parts.set(i, (owned(label), parts));
                assert(arrangements_view(self.instrument_parts@) =~= old(self)@.instrument_parts.update(
                    i as int,
                    (label@, pv),
                ));
                assert(table_keys(self.instrument_parts@) =~= old_keys);
                proof {
                    lemma_key_position(table_keys(self.instrument_parts@), label@, i as int);
                }
            },
            None => {
                let ghost n = self.instrument_parts@.len();
                self.instrument_parts.push((owned(label), parts));
                assert(arrangements_view(self.instrument_parts@) =~= old(self)@.instrument_parts.push(
                    (label@, pv),
                ));
                let ghost keys = table_keys(self.instrument_parts@);
                assert(keys =~= old_keys.push(label@));
                assert(distinct_keys(keys)) by {
                    assert forall|a: int, b: int| 0 <= a < b < keys.len() implies keys[a] != keys[b] by {
                        if b == n {
                            assert(old_keys[a] != label@);
                        } else {
                            assert(old_keys[a] != old_keys[b]);
                        }
                    }
                }
                proof {
                    lemma_key_position(keys, label@, n as int);
                }
            },
        }
        assert(table_keys(self.instrument_parts@) =~= self@.instrument_parts.map_values(
            |e: (Seq<char>, Seq<SongPartView>)| e.0,
        ));
    }

    /// Stores `capo` as the capo of the instrument labelled `label`,
    /// replacing any capo it had.
    pub fn set_instrument_capo(&mut self, label: &str, capo: i8)
        requires
            song_wf(old(self)@),
        ensures
            song_wf(final(self)@),
            capo_for(final(self)@, label@) == capo,
            final(self)@.instrument_capos == match key_position(
                table_keys(old(self).instrument_capos@),
                label@,
            ) {
                Some(i) => old(self)@.instrument_capos.update(i, (label@, capo)),
                None => old(self)@.instrument_capos.push((label@, capo)),
            },
            final(self)@ == (SongView { instrument_capos: final(self)@.instrument_capos, ..old(self)@ }),
    {
        let ghost old_keys = table_keys(self.instrument_capos@);
        assert(old_keys =~= self@.instrument_capos.map_values(|e: (Seq<char>, i8)| e.0));
        match position_of(&self.instrument_capos, label) {
            Some(i) => {
                self.instrument_capos.set(i, (owned(label), capo));
                assert(capos_view(self.instrument_capos@) =~= old(self)@.instrument_capos.update(
                    i as int,
                    (label@, capo),
                ));
                assert(table_keys(self.instrument_capos@) =~= old_keys);
                proof {
                    lemma_key_position(table_keys(self.instrument_capos@), label@, i as int);
                }
            },
            None => {
                let ghost n = self.instrument_capos@.len();
                self.instrument_capos.push((owned(label), capo));
                assert(capos_view(self.instrument_capos@) =~= old(self)@.instrument_capos.push(
                    (label@, capo),
                ));
                let ghost keys = table_keys(self.instrument_capos@);
                assert(keys =~= old_keys.push(label@));
                assert(distinct_keys(keys)) by {
                    assert forall|a: int, b: int| 0 <= a < b < keys.len() implies keys[a] != keys[b] by {
                        if b == n {
                            assert(old_keys[a] != label@);
                        } else {
                            assert(old_keys[a] != old_keys[b]);
                        }
                    }
                }
                proof {
                    lemma_key_position(keys, label@, n as int);
                }
            },
        }
        assert(table_keys(self.instrument_capos@) =~= self@.instrument_capos.map_values(
            |e: (Seq<char>, i8)| e.0,
        ));
    }

    /// The arrangement stored for the instrument labelled `label`, if any.
    pub fn instrument_parts_for(&self, label: &str) -> (r: Option<&Vec<SongPart>>)
        requires
            song_wf(self@),
        ensures
            match r {
                Some(v) => arrangement_for(self@, label@) == Some(parts_view(v@)),
                None => arrangement_for(self@, label@) is None,
            },
    {
        assert(table_keys(self.instrument_parts@) =~= self@.instrument_parts.map_values(
            |e: (Seq<char>, Seq<SongPartView>)| e.0,
        ));
        match position_of(&self.instrument_parts, label) {
            Some(i) => Some(&self.instrument_parts[i].1),
            None => None,
        }
    }

    /// The capo set for the instrument labelled `label`, or 0 when none is set.
    pub fn instrument_capo(&self, label: &str) -> (r: i8)
        requires
            song_wf(self@),
        ensures
            r == capo_for(self@, label@),
    {
        assert(table_keys(self.instrument_capos@) =~= self@.instrument_capos.map_values(
            |e: (Seq<char>, i8)| e.0,
        ));
        match position_of(&self.instrument_capos, label) {
            Some(i) => self.instrument_capos[i].1,
            None => 0,
        }
    }

    /// The PDF settings of the sheet labelled `label`, or the defaults.
    pub fn pdf_settings_for(&self, label: &str) -> (r: PdfSettings)
        requires
            song_wf(self@),
        ensures
            r == settings_for(self@, label@),
    {
        assert(table_keys(self.pdf_settings@) =~= self@.pdf_settings.map_values(
            |e: (Seq<char>, PdfSettings)| e.0,
        ));
        match position_of(&self.pdf_settings, label) {
            Some(i) => self.pdf_settings[i].1,
            None => PdfSettings::default_settings(),
        }
    }

    /// An independent copy of this song.
    pub fn copy(&self) -> (r: Song)
        ensures
            r@ == self@,
    {
        Song {
            name: self.name.clone(),
            key: self.key.clone(),
            artist: self.artist.clone(),
            parts: copy_parts(&self.parts),
            instruments: copy_instruments(&self.instruments),
            vocals_notes: self.vocals_notes.clone(),
            instrument_parts: copy_arrangements(&self.instrument_parts),
            instrument_capos: copy_capos(&self.instrument_capos),
            pdf_settings: copy_settings(&self.pdf_settings),
        }
    }

    /// Transpose all chords to a new key root (e.g. `"G"`, `"Bb"`, `"F#"`).
    ///
    /// All chord roots are shifted by the same semitone interval between the
    /// current key root and `new_root`. The song's `key` field is updated.
    pub fn transpose_to(&mut self, new_root: &str)
        ensures
            final(self)@ == transposed(old(self)@, new_root@),
    {
        let new_idx = match note_to_index(new_root) {
            Some(i) => i,
            None => return ,
        };
        let (old_root, _) = key_parts(self.key.as_str());
        let old_idx = match note_to_index(old_root.as_str()) {
            Some(i) => i,
            None => return ,
        };
        let interval = (new_idx + 12 - old_idx) % 12;
        let is_minor = minor_key(self.key.as_str());
        let prefer_sharps = explicit_prefer_sharps(new_root, is_minor);
        let shift = RootShift::Transpose { interval, sharps: prefer_sharps };
        let ghost before = self@;
        assert(shift == transpose_shift(before.key, new_root@, new_idx as int, old_idx as int));
        let parts = move_parts(shift, &self.parts);
        let arrangements = move_arrangements(shift, &self.instrument_parts);
        let key = rekey_exec(new_root, self.key.as_str());
        self.parts = parts;
        self.instrument_parts = arrangements;
        self.key = key;
    }

    /// Moves the key one semitone up or down, transposing every chord with
    /// it (see `key_stepped`).
    pub fn step_key(&mut self, up: bool)
        ensures
            final(self)@ == key_stepped(old(self)@, up),
    {
        let (root, _) = key_parts(self.key.as_str());
        let minor = minor_key(self.key.as_str());
        let new_root = if up {
            shift_note_up(root.as_str(), 1, minor)
        } else {
            shift_note(root.as_str(), 1, minor)
        };
        self.transpose_to(new_root.as_str());
    }

    /// Respells the song in the other spelling of its key root (see
    /// `enharmonic_flipped`).
    pub fn flip_enharmonic(&mut self)
        ensures
            final(self)@ == enharmonic_flipped(old(self)@),
    {
        let (root, _) = key_parts(self.key.as_str());
        let minor = minor_key(self.key.as_str());
        match enharmonic(root.as_str()) {
            Some(e) => {
                self.transpose_to(e);
                let mut key = owned(e);
                if minor {
                    key.append(" Minor");
                } else {
                    key.append(" Major");
                }
                self.key = key;
            },
            None => {},
        }
    }

    /// Writes the key as its root followed by "Major" or "Minor"; the
    /// chords are kept.
    pub fn set_mode(&mut self, minor: bool)
        ensures
            final(self)@ == (SongView { key: key_root(old(self)@.key) + mode_word(minor), ..old(self)@ }),
    {
        let (root, _) = key_parts(self.key.as_str());
        let mut key = root;
        if minor {
            key.append(" Minor");
        } else {
            key.append(" Major");
        }
        self.key = key;
    }

    /// Replaces the root of the key, keeping its mode; the chords are kept.
    pub fn set_key_root(&mut self, new_root: &str)
        ensures
            final(self)@ == (SongView { key: rekey(new_root@, old(self)@.key), ..old(self)@ }),
    {
        let key = rekey_exec(new_root, self.key.as_str());
        self.key = key;
    }

    /// The sheet of the instrument labelled `label` (see
    /// `instrument_sheet_view`).
    pub fn instrument_sheet(&self, label: &str) -> (r: Song)
        requires
            song_wf(self@),
        ensures
            r@ == instrument_sheet_view(self@, label@),
    {
        let mut r = self.copy();
        match self.instrument_parts_for(label) {
            Some(p) => {
                r.parts = copy_parts(p);
            },
            None => {},
        }
        r
    }

    /// Return a copy of this song with every chord root shifted by
    /// `capo` semitones.  Positive = shift **down** (capo on a string instrument);
    /// negative = shift **up** (transpose up for piano etc.).
    ///
    /// When `capo == 0` returns an unchanged copy.
    pub fn apply_capo(&self, capo: i8) -> (r: Song)
        requires
            capo == i8::MIN ==> !has_chord(self@.parts),
        ensures
            r@ == with_capo(self@, capo as int),
    {
        if capo == 0 {
            return self.copy();
        }
        let key = capo_key_exec(self.key.as_str(), capo);
        let is_minor = minor_key(key.as_str());
        let shift = if capo > 0 {
            RootShift::Down { semitones: capo as u8, minor: is_minor }
        } else {
            let semitones: u8 = if capo == i8::MIN {
                128
            } else {
                (-capo) as u8
            };
            RootShift::Up { semitones, minor: is_minor }
        };
        Song {
            name: self.name.clone(),
            key,
            artist: self.artist.clone(),
            parts: move_parts(shift, &self.parts),
            instruments: copy_instruments(&self.instruments),
            vocals_notes: self.vocals_notes.clone(),
            instrument_parts: copy_arrangements(&self.instrument_parts),
            instrument_capos: copy_capos(&self.instrument_capos),
            pdf_settings: copy_settings(&self.pdf_settings),
        }
    }
}

/// The name a player reads for chord `c` of a song in `key` under a capo:
/// the chord as written when the capo is 0, otherwise the chord moved down
/// by the capo (up when negative), spelled by the written key's mode and
/// written in the given notation.
pub open spec fn capo_chord_text(c: ChordView, key: Seq<char>, capo: int, notation: Notation) -> Seq<char> {
    if capo == 0 {
        chord_text(c, notation)
    } else {
        chord_text(moved_chord(capo_shift(key, capo), c), notation)
    }
}

/// The label of `chord` as played with `capo` in a song written in `key`
/// (see `capo_chord_text`).
pub fn capo_chord_label(chord: &Chord, key: &str, capo: i8, notation: Notation) -> (r: String)
    requires
        capo != i8::MIN,
    ensures
        r@ == capo_chord_text(chord@, key@, capo as int, notation),
{
    if capo == 0 {
        return chord.display_with_notation(notation);
    }
    let minor = minor_key(key);
    let shift = if capo > 0 {
        RootShift::Down { semitones: capo as u8, minor }
    } else {
        RootShift::Up { semitones: (-capo) as u8, minor }
    };
    move_chord(shift, chord).display_with_notation(notation)
}

/// The name shown for chord `c` on an instrument sheet under a capo: the
/// chord as written when the capo is 0, otherwise its root moved as by
/// `capo_chord_text` followed by its quality, without the bass note.
pub open spec fn capo_shape_text(c: ChordView, key: Seq<char>, capo: int, notation: Notation) -> Seq<char> {
    if capo == 0 {
        chord_text(c, notation)
    } else {
        notation_name(moved_root(capo_shift(key, capo), c.root), notation) + quality_symbol(c.quality)
    }
}

/// The instrument-sheet label of `chord` under `capo` (see `capo_shape_text`).
pub fn capo_shape_label(chord: &Chord, key: &str, capo: i8, notation: Notation) -> (r: String)
    requires
        capo != i8::MIN,
    ensures
        r@ == capo_shape_text(chord@, key@, capo as int, notation),
{
    if capo == 0 {
        return chord.display_with_notation(notation);
    }
    let minor = minor_key(key);
    let shift = if capo > 0 {
        RootShift::Down { semitones: capo as u8, minor }
    } else {
        RootShift::Up { semitones: (-capo) as u8, minor }
    };
    let root = move_root(shift, chord.root.as_str());
    let mut r = apply_notation(root.as_str(), notation);
    r.append(chord.quality.symbol());
    r
}

} // verus!
