//! Actions of the song editor: reordering and removing parts and items,
//! chords beside the lyrics on every part, per-sheet PDF font sizes, copying
//! the main parts into arrangements, and the sheets a song exports.
use vstd::prelude::*;
use vstd::string::*;
use crate::text::{owned, parse_byte, parse_u8_text};
use crate::song::model::{
    Song, SongView, song_wf, settings_for, capo_for, arrangement_for, table_keys, distinct_keys,
    key_position, lemma_key_position, settings_view, position_of, copy_parts,
};
use crate::song::part::{SongPart, SongPartView, PartTextSettings, PartTextView, parts_view, items_view};
use crate::song::instrument::{Instrument, PdfSettings, sheet_instruments, instrument_label, instrument_of_label};
use crate::song::model::arrangements_view;

verus! {

broadcast use vstd::string::group_string_axioms;

// ── Reordering ───────────────────────────────────────────────────────────────

/// `s` with the elements at `i` and `i + 1` exchanged.
pub open spec fn swapped_next<A>(s: Seq<A>, i: int) -> Seq<A> {
    s.update(i, s[i + 1]).update(i + 1, s[i])
}

/// The parts after moving part `index` one place up (towards the start)
/// or down; unchanged when it is already first (last) or past the end.
pub open spec fn part_moved(ps: Seq<SongPartView>, index: int, up: bool) -> Seq<SongPartView> {
    if up {
        if 0 < index < ps.len() {
            swapped_next(ps, index - 1)
        } else {
            ps
        }
    } else {
        if 0 <= index && index + 1 < ps.len() {
            swapped_next(ps, index)
        } else {
            ps
        }
    }
}

/// `s` after dragging the element at `from` onto position `to`: it is
/// taken out and put back in front of the element that was at `to` (behind
/// it when dragged downwards); unchanged when `from == to`.
pub open spec fn dragged<A>(s: Seq<A>, from: int, to: int) -> Seq<A> {
    if from == to {
        s
    } else {
        s.remove(from).insert(
            if from < to {
                to - 1
            } else {
                to
            },
            s[from],
        )
    }
}

/// `s` without its element at `index`, or unchanged past the end.
pub open spec fn removed_at<A>(s: Seq<A>, index: int) -> Seq<A> {
    if 0 <= index < s.len() {
        s.remove(index)
    } else {
        s
    }
}

/// Dragging an item keeps the same items: only their order changes.
pub proof fn lemma_drag_permutes<A>(s: Seq<A>, from: int, to: int)
    requires
        0 <= from < s.len(),
        0 <= to < s.len(),
    ensures
        dragged(s, from, to).len() == s.len(),
        dragged(s, from, to).to_multiset() == s.to_multiset(),
{
    if from != to {
        let dst = if from < to {
            to - 1
        } else {
            to
        };
        vstd::seq_lib::to_multiset_remove(s, from);
        vstd::seq_lib::to_multiset_insert(s.remove(from), dst, s[from]);
        assert(s.to_multiset().remove(s[from]).insert(s[from]) =~= s.to_multiset()) by {
            broadcast use vstd::multiset::group_multiset_axioms;
            vstd::seq_lib::to_multiset_contains(s, s[from]);
        }
    }
}

/// Moving a part up and then moving it back down restores the order.
pub proof fn lemma_move_up_then_down(ps: Seq<SongPartView>, index: int)
    requires
        0 < index < ps.len(),
    ensures
        part_moved(part_moved(ps, index, true), index - 1, false) == ps,
{
    assert(part_moved(part_moved(ps, index, true), index - 1, false) =~= ps);
}

impl Song {
    /// Moves part `index` one place up or down (see `part_moved`).
    pub fn move_part(&mut self, index: usize, up: bool)
        ensures
            final(self)@ == (SongView { parts: part_moved(old(self)@.parts, index as int, up), ..old(self)@ }),
    {
        let n = self.parts.len();
        let ghost before = self@.parts;
        let at: usize = if up && 0 < index && index < n {
            index - 1
        } else if !up && index < n && index + 1 < n {
            index
        } else {
            return;
        };
        let p = self.parts.remove(at + 1);
        self.parts.insert(at, p);
        assert(parts_view(self.parts@) =~= swapped_next(before, at as int));
    }

    /// Removes part `index` (nothing past the end).
    pub fn remove_part(&mut self, index: usize)
        ensures
            final(self)@ == (SongView { parts: removed_at(old(self)@.parts, index as int), ..old(self)@ }),
    {
        let ghost before = self@.parts;
        if index < self.parts.len() {
            self.parts.remove(index);
            assert(parts_view(self.parts@) =~= before.remove(index as int));
        }
    }
}

impl SongPart {
    /// Drags item `from` onto position `to` (see `dragged`).
    pub fn move_item(&mut self, from: usize, to: usize)
        requires
            from < old(self).items@.len(),
            to < old(self).items@.len(),
        ensures
            final(self)@ == (SongPartView { items: dragged(old(self)@.items, from as int, to as int), ..old(self)@ }),
    {
        if from == to {
            return;
        }
        let ghost before = self@.items;
        let moved = self.items.remove(from);
        let dst = if from < to {
            to - 1
        } else {
            to
        };
        self.items.insert(dst, moved);
        assert(items_view(self.items@) =~= before.remove(from as int).insert(dst as int, before[from as int]));
    }

    /// Removes item `index` (nothing past the end).
    pub fn remove_item(&mut self, index: usize)
        ensures
            final(self)@ == (SongPartView { items: removed_at(old(self)@.items, index as int), ..old(self)@ }),
    {
        let ghost before = self@.items;
        if index < self.items.len() {
            self.items.remove(index);
            assert(items_view(self.items@) =~= before.remove(index as int));
        }
    }
}

// ── Chords beside the lyrics ─────────────────────────────────────────────────

/// Whether a part shows its chords beside its lyrics.
pub open spec fn shows_chords(p: SongPartView) -> bool {
    p.part_text matches Some(t) && t.show_chords
}

/// The part with chords shown beside its lyrics (`on`) or not; a part
/// without lyrics settings gets the default ones first.
pub open spec fn with_show_chords(p: SongPartView, on: bool) -> SongPartView {
    SongPartView {
        part_text: Some(
            match p.part_text {
                Some(t) => PartTextView { show_chords: on, ..t },
                None => PartTextView {
                    content: seq![],
                    color: "#555555"@,
                    size: 10,
                    show_chords: on,
                },
            },
        ),
        ..p
    }
}

impl Song {
    /// Whether every part shows its chords beside its lyrics.
    pub fn all_parts_show_chords(&self) -> (r: bool)
        ensures
            r == forall|i: int| 0 <= i < self@.parts.len() ==> #[trigger] shows_chords(self@.parts[i]),
    {
        let mut i: usize = 0;
        while i < self.parts.len()
            invariant
                i <= self.parts@.len(),
                forall|j: int| 0 <= j < i ==> #[trigger] shows_chords(self@.parts[j]),
            decreases self.parts@.len() - i,
        {
            let on = match &self.parts[i].part_text {
                Some(t) => t.show_chords,
                None => false,
            };
            if !on {
                assert(!shows_chords(self@.parts[i as int]));
                return false;
            }
            i = i + 1;
        }
        true
    }

    /// Shows the chords beside the lyrics on every part, or on none.
    pub fn set_show_chords_everywhere(&mut self, on: bool)
        ensures
            final(self)@ == (SongView {
                parts: old(self)@.parts.map_values(|p: SongPartView| with_show_chords(p, on)),
                ..old(self)@
            }),
    {
        let mut parts: Vec<SongPart> = Vec::new();
        let mut i: usize = 0;
        while i < self.parts.len()
            invariant
                i <= self.parts@.len(),
                parts@.len() == i,
                forall|j: int| 0 <= j < i ==> #[trigger] parts@[j]@ == with_show_chords(self.parts@[j]@, on),
            decreases self.parts@.len() - i,
        {
            let p = &self.parts[i];
            let mut text = match &p.part_text {
                Some(t) => t.copy(),
                None => PartTextSettings::new(),
            };
            text.show_chords = on;
            let mut q = p.copy();
            q.part_text = Some(text);
            parts.push(q);
            i = i + 1;
        }
        let ghost before = old(self)@.parts;
        self.parts = parts;
        assert(parts_view(self.parts@) =~= before.map_values(|p: SongPartView| with_show_chords(p, on)));
    }

    /// Stores `settings` as the PDF settings of the sheet labelled `label`,
    /// replacing any it had.
    pub fn set_pdf_settings(&mut self, label: &str, settings: PdfSettings)
        requires
            song_wf(old(self)@),
        ensures
            song_wf(final(self)@),
            settings_for(final(self)@, label@) == settings,
            final(self)@.pdf_settings == match key_position(
                table_keys(old(self).pdf_settings@),
                label@,
            ) {
                Some(i) => old(self)@.pdf_settings.update(i, (label@, settings)),
                None => old(self)@.pdf_settings.push((label@, settings)),
            },
            final(self)@ == (SongView { pdf_settings: final(self)@.pdf_settings, ..old(self)@ }),
    {
        let ghost old_keys = table_keys(self.pdf_settings@);
        assert(old_keys =~= self@.pdf_settings.map_values(|e: (Seq<char>, PdfSettings)| e.0));
        match position_of(&self.pdf_settings, label) {
            Some(i) => {
                self.pdf_settings.set(i, (owned(label), settings));
                assert(settings_view(self.pdf_settings@) =~= old(self)@.pdf_settings.update(
                    i as int,
                    (label@, settings),
                ));
                assert(table_keys(self.pdf_settings@) =~= old_keys);
                proof {
                    lemma_key_position(table_keys(self.pdf_settings@), label@, i as int);
                }
            },
            None => {
                let ghost n = self.pdf_settings@.len();
                self.pdf_settings.push((owned(label), settings));
                assert(settings_view(self.pdf_settings@) =~= old(self)@.pdf_settings.push(
                    (label@, settings),
                ));
                let ghost keys = table_keys(self.pdf_settings@);
                assert(keys =~= old_keys.push(label@));
                assert(distinct_keys(keys)) by {
                    assert forall|a: int, b: int| 0 <= a < b < keys.len() implies keys[a] != keys[b] by {
                        if b == n {
                            assert(old_keys[a] != label@);
                        } else {
                            assert(old_keys[a] != old_keys[b]);
                        }
                    }
                }
                proof {
                    lemma_key_position(keys, label@, n as int);
                }
            },
        }
        assert(table_keys(self.pdf_settings@) =~= self@.pdf_settings.map_values(
            |e: (Seq<char>, PdfSettings)| e.0,
        ));
    }

    /// Sets the part-name font size of the sheet labelled `label`, held
    /// between 6 and 24 pt; its chord size is kept.
    pub fn set_part_name_size(&mut self, label: &str, size: u32)
        requires
            song_wf(old(self)@),
        ensures
            song_wf(final(self)@),
            settings_for(final(self)@, label@) == (PdfSettings {
                part_name_size: clamped(size as int, 6, 24) as u32,
                chord_size: settings_for(old(self)@, label@).chord_size,
            }),
            final(self)@ == (SongView { pdf_settings: final(self)@.pdf_settings, ..old(self)@ }),
    {
        let current = self.pdf_settings_for(label);
        let s = PdfSettings { part_name_size: clamp_u32(size, 6, 24), chord_size: current.chord_size };
        self.set_pdf_settings(label, s);
    }

    /// Sets the chord font size of the sheet labelled `label`, held between
    /// 10 and 36 pt; its part-name size is kept.
    pub fn set_chord_size(&mut self, label: &str, size: u32)
        requires
            song_wf(old(self)@),
        ensures
            song_wf(final(self)@),
            settings_for(final(self)@, label@) == (PdfSettings {
                part_name_size: settings_for(old(self)@, label@).part_name_size,
                chord_size: clamped(size as int, 10, 36) as u32,
            }),
            final(self)@ == (SongView { pdf_settings: final(self)@.pdf_settings, ..old(self)@ }),
    {
        let current = self.pdf_settings_for(label);
        let s = PdfSettings { part_name_size: current.part_name_size, chord_size: clamp_u32(size, 10, 36) };
        self.set_pdf_settings(label, s);
    }
}

/// The arrangements after copying the main parts into them: every
/// arrangement labelled with an instrument's label gets the main parts;
/// other entries and the order are kept.
pub open spec fn base_copied(s: SongView) -> Seq<(Seq<char>, Seq<SongPartView>)> {
    s.instrument_parts.map_values(
        |e: (Seq<char>, Seq<SongPartView>)|
            if instrument_of_label(e.0) is Some {
                (e.0, s.parts)
            } else {
                e
            },
    )
}

impl Song {
    /// Copies the main parts into every existing instrument arrangement
    /// (see `base_copied`).
    pub fn copy_base_to_arrangements(&mut self)
        ensures
            final(self)@ == (SongView { instrument_parts: base_copied(old(self)@), ..old(self)@ }),
    {
        let mut out: Vec<(String, Vec<SongPart>)> = Vec::new();
        let mut i: usize = 0;
        while i < self.instrument_parts.len()
            invariant
                i <= self.instrument_parts@.len(),
                out@.len() == i,
                forall|j: int|
                    0 <= j < i ==> #[trigger] arrangements_view(out@)[j] == base_copied(self@)[j],
            decreases self.instrument_parts@.len() - i,
        {
            let label = &self.instrument_parts[i].0;
            let parts = if Instrument::from_label(label.as_str()).is_some() {
                copy_parts(&self.parts)
            } else {
                copy_parts(&self.instrument_parts[i].1)
            };
            let ghost before = arrangements_view(out@);
            let ghost entry = (label@, parts_view(parts@));
            out.push((label.clone(), parts));
            assert(arrangements_view(out@) =~= before.push(entry));
            assert(arrangements_view(out@)[i as int] == base_copied(self@)[i as int]);
            i = i + 1;
        }
        assert(arrangements_view(out@) =~= base_copied(self@));
        self.instrument_parts = out;
    }
}

/// `v` held between `lo` and `hi`.
pub open spec fn clamped(v: int, lo: int, hi: int) -> int {
    if v < lo {
        lo
    } else if v > hi {
        hi
    } else {
        v
    }
}

fn clamp_u32(v: u32, lo: u32, hi: u32) -> (r: u32)
    requires
        lo <= hi,
    ensures
        r as int == clamped(v as int, lo as int, hi as int),
{
    if v < lo {
        lo
    } else if v > hi {
        hi
    } else {
        v
    }
}

// ── Export ───────────────────────────────────────────────────────────────────

/// One PDF of a song's export: the sheet, its file name (without
/// extension), the capo it is printed with, and its font sizes.
pub struct SheetExport {
    pub sheet: Song,
    pub filename: String,
    pub capo: i8,
    pub settings: PdfSettings,
}

/// The abstract content of an export entry.
pub struct SheetExportView {
    pub sheet: SongView,
    pub filename: Seq<char>,
    pub capo: i8,
    pub settings: PdfSettings,
}

impl View for SheetExport {
    type V = SheetExportView;

    open spec fn view(&self) -> SheetExportView {
        SheetExportView {
            sheet: self.sheet@,
            filename: self.filename@,
            capo: self.capo,
            settings: self.settings,
        }
    }
}

/// The instrument sheets exported for the instruments `insts`, in order:
/// one for each that has its own arrangement, named `<song>_<label>`, with
/// that instrument's capo and PDF settings.
pub open spec fn instrument_exports(s: SongView, insts: Seq<Instrument>) -> Seq<SheetExportView>
    decreases insts.len(),
{
    if insts.len() == 0 {
        seq![]
    } else {
        let rest = instrument_exports(s, insts.drop_last());
        let label = instrument_label(insts.last());
        match arrangement_for(s, label) {
            Some(p) => rest.push(
                SheetExportView {
                    sheet: SongView { parts: p, ..s },
                    filename: s.name + "_"@ + label,
                    capo: capo_for(s, label),
                    settings: settings_for(s, label),
                },
            ),
            None => rest,
        }
    }
}

/// What exporting a song writes: the main sheet under the song's name with
/// no capo and the "Base" settings, then the instrument sheets of the
/// instruments that get a sheet of their own.
pub open spec fn export_plan(s: SongView) -> Seq<SheetExportView> {
    seq![SheetExportView { sheet: s, filename: s.name, capo: 0, settings: settings_for(s, "Base"@) }]
        + instrument_exports(s, sheet_instruments())
}

impl Song {
    /// The sheets exporting this song writes (see `export_plan`).
    pub fn exports(&self) -> (r: Vec<SheetExport>)
        requires
            song_wf(self@),
        ensures
            r@.map_values(|e: SheetExport| e@) == export_plan(self@),
    {
        let mut out: Vec<SheetExport> = Vec::new();
        out.push(
            SheetExport {
                sheet: self.copy(),
                filename: self.name.clone(),
                capo: 0,
                settings: self.pdf_settings_for("Base"),
            },
        );
        let insts = Instrument::all();
        let ghost base = seq![
            SheetExportView { sheet: self@, filename: self@.name, capo: 0, settings: settings_for(self@, "Base"@) },
        ];
        assert(sheet_instruments().take(0) =~= Seq::<Instrument>::empty());
        assert(out@.map_values(|e: SheetExport| e@) =~= base + instrument_exports(self@, sheet_instruments().take(0)));
        let mut i: usize = 0;
        while i < 5
            invariant
                i <= 5,
                insts@ == sheet_instruments(),
                song_wf(self@),
                out@.map_values(|e: SheetExport| e@) == base + instrument_exports(
                    self@,
                    sheet_instruments().take(i as int),
                ),
            decreases 5 - i,
        {
            let inst = insts[i];
            let label = inst.label();
            let ghost before = out@.map_values(|e: SheetExport| e@);
            assert(sheet_instruments().take(i + 1).drop_last() =~= sheet_instruments().take(i as int));
            assert(sheet_instruments().take(i + 1).last() == inst);
            match self.instrument_parts_for(label) {
                Some(p) => {
                    let mut sheet = self.copy();
                    sheet.parts = copy_parts(p);
                    let mut filename = self.name.clone();
                    filename.append("_");
                    filename.append(label);
                    out.push(
                        SheetExport {
                            sheet,
                            filename,
                            capo: self.instrument_capo(label),
                            settings: self.pdf_settings_for(label),
                        },
                    );
                    assert(out@.map_values(|e: SheetExport| e@) =~= before.push(out@.last()@));
                },
                None => {},
            }
            i = i + 1;
        }
        assert(sheet_instruments().take(5) =~= sheet_instruments());
        out
    }
}

// ── Small editors ────────────────────────────────────────────────────────────

/// The lyrics font size after pressing "−" (down to 6 pt) or "+" (up to
/// 36 pt).
pub open spec fn lyrics_size_stepped(size: int, up: bool) -> int {
    if up {
        if size < 36 {
            size + 1
        } else {
            size
        }
    } else {
        if size > 6 {
            size - 1
        } else {
            size
        }
    }
}

/// The lyrics font size after one press of the size stepper.
pub fn step_lyrics_size(size: u32, up: bool) -> (r: u32)
    ensures
        r as int == lyrics_size_stepped(size as int, up),
{
    if up {
        if size < 36 {
            size + 1
        } else {
            size
        }
    } else {
        if size > 6 {
            size - 1
        } else {
            size
        }
    }
}

/// The repeat count typed into a repeat sign's field: the number it reads
/// as a `u8`, or 0 when it is not one.
pub fn repeat_times_input(text: &str) -> (r: u8)
    ensures
        r as int == match parse_u8_text(text@) {
            Some(v) => v,
            None => 0,
        },
{
    match parse_byte(text) {
        Some(v) => v,
        None => 0,
    }
}

} // verus!
