use chord_shifter::song::cell_edit::cell_from_text;
use chord_shifter::song::instrument::{capo_down, capo_text, capo_up};
use chord_shifter::song::model::{capo_chord_label, capo_shape_label, enharmonic};
use chord_shifter::song::sheets::{repeat_times_input, step_lyrics_size};
use chord_shifter::song::tab::{grid_rows, tab_block_count};
use chord_shifter::song::{
    apply_notation, shift_note, shift_note_up, Chord, ChordQuality, Notation, PartItem, PartKind,
    PartTextSettings, PdfSettings, Song, SongPart, TabCell, TabCol,
};

fn empty_cells() -> [TabCell; 8] {
    std::array::from_fn(|_| TabCell::Empty)
}

#[test]
fn tab_rendering_exact_text() {
    let mut p = SongPart::new_bass_riff("Bass");
    let mut cells = empty_cells();
    cells[2] = TabCell::Fret(12);
    cells[3] = TabCell::GhostNote(3);
    cells[5] = TabCell::Custom("5h7".to_string());
    p.tab_grid = vec![TabCol::Notes(cells), TabCol::Barline];
    assert_eq!(p.tab_as_ascii(), "G|12-||\nD|(3)||\nA|---||\nE|5h7||");
}

#[test]
fn tab_rendering_blocks_and_breaks() {
    let mut p = SongPart::new_riff("Riff");
    let mut cells = empty_cells();
    cells[0] = TabCell::HammerOn;
    cells[1] = TabCell::SlideDown;
    p.tab_grid = vec![
        TabCol::LineBreak,
        TabCol::Notes(cells),
        TabCol::LineBreak,
        TabCol::LineBreak,
        TabCol::Barline,
    ];
    let text = p.tab_as_ascii();
    let expected = "e|-h-|\nB|-\\-|\nG|---|\nD|---|\nA|---|\nE|---|\n\ne|||\nB|||\nG|||\nD|||\nA|||\nE|||";
    assert_eq!(text, expected);
}

#[test]
fn drum_grid_uses_eight_tracks() {
    let mut p = SongPart::new_drum_beat("Beat");
    p.tab_grid = vec![TabCol::Notes(empty_cells())];
    let text = p.tab_as_ascii();
    let rows: Vec<&str> = text.lines().collect();
    assert_eq!(rows.len(), 8);
    assert_eq!(rows[2], "Hi|---|");
    assert_eq!(rows[7], "T3|---|");
}

#[test]
fn grid_of_only_breaks_renders_nothing() {
    let mut p = SongPart::new_riff("Riff");
    p.tab_grid = vec![TabCol::LineBreak, TabCol::LineBreak];
    p.tab = "ignored".to_string();
    assert_eq!(p.tab_as_ascii(), "");
}

#[test]
fn tab_block_count_counts_non_empty_rows() {
    let grid = vec![
        TabCol::LineBreak,
        TabCol::Barline,
        TabCol::Notes(empty_cells()),
        TabCol::LineBreak,
        TabCol::LineBreak,
        TabCol::Barline,
    ];
    assert_eq!(tab_block_count(&grid), 2);
    assert_eq!(tab_block_count(&Vec::new()), 0);
}

#[test]
fn notes_are_read_after_trimming() {
    assert_eq!(shift_note_up(" C ", 2, false), "D");
    assert_eq!(shift_note("\tE#", 1, false), "E");
}

#[test]
fn shifting_uses_each_keys_spelling() {
    // C# is a sharp key, so one up from C is spelled C#; Eb is a flat key.
    assert_eq!(shift_note_up("C", 1, false), "C#");
    assert_eq!(shift_note_up("D", 1, false), "Eb");
    assert_eq!(shift_note_up("F", 3, true), "G#");
    assert_eq!(shift_note("C", 13, false), "B");
}

#[test]
fn down_then_up_keeps_the_pitch() {
    for n in 0..30u8 {
        let down = shift_note("Gb", n, false);
        let back = shift_note_up(&down, n, false);
        assert!(back == "Gb" || back == "F#", "n = {n}: {back}");
    }
}

#[test]
fn transpose_respells_same_pitch_and_keeps_mode_words() {
    let mut song = Song::new("S", "A#   Dorian  minor", "A")
        .with_part("V", vec![Chord::new("A#", ChordQuality::Minor)]);
    song.transpose_to("Bb");
    assert_eq!(song.key, "Bb Dorian minor");
    assert_eq!(song.parts[0].chords()[0].root, "Bb");
}

#[test]
fn transpose_moves_bass_notes_and_keeps_other_items() {
    let mut c = Chord::new("C", ChordQuality::Major);
    c.bass_note = Some("E".to_string());
    let mut song = Song::new("S", "C", "A");
    let mut part = SongPart::new("V");
    part.items = vec![
        PartItem::RepeatStart,
        PartItem::Chord(c),
        PartItem::Repeat { times: 2 },
        PartItem::Text { content: "x".to_string(), color: "#888888".to_string() },
    ];
    song.parts.push(part);
    song.transpose_to("D");
    assert_eq!(song.key, "D");
    let items = &song.parts[0].items;
    assert_eq!(items[0], PartItem::RepeatStart);
    match &items[1] {
        PartItem::Chord(ch) => {
            assert_eq!(ch.root, "D");
            assert_eq!(ch.bass_note.as_deref(), Some("F#"));
        }
        other => panic!("unexpected {other:?}"),
    }
    assert_eq!(items[2], PartItem::Repeat { times: 2 });
}

#[test]
fn transpose_with_unreadable_key_is_noop() {
    let mut song = Song::new("S", "Unknown", "A")
        .with_part("V", vec![Chord::new("C", ChordQuality::Major)]);
    song.transpose_to("G");
    assert_eq!(song.key, "Unknown");
    assert_eq!(song.parts[0].chords()[0].root, "C");
    // An empty key counts as C.
    let mut song = Song::new("S", "", "A")
        .with_part("V", vec![Chord::new("C", ChordQuality::Major)]);
    song.transpose_to("G");
    assert_eq!(song.key, "G");
    assert_eq!(song.parts[0].chords()[0].root, "G");
}

#[test]
fn transpose_there_and_back_restores_the_pitches() {
    let mut song = Song::new("S", "C Major", "A").with_part(
        "V",
        vec![Chord::new("C", ChordQuality::Major), Chord::new("E", ChordQuality::Minor)],
    );
    song.transpose_to("Eb");
    assert_eq!(song.key, "Eb Major");
    song.transpose_to("C");
    let roots: Vec<&str> = song.parts[0].chords().into_iter().map(|c| c.root.as_str()).collect();
    assert_eq!(roots, ["C", "E"]);
}

#[test]
fn negative_capo_shifts_up_and_keeps_overrides() {
    let mut song = Song::new("S", "A minor", "X")
        .with_part("V", vec![Chord::new("A", ChordQuality::Minor)]);
    song.set_instrument_parts("Piano", vec![SongPart::new("P")]);
    let up = song.apply_capo(-3);
    assert_eq!(up.key, "C minor");
    assert_eq!(up.parts[0].chords()[0].root, "C");
    assert_eq!(up.instrument_parts_for("Piano").unwrap()[0].name, "P");
    let down = song.apply_capo(14);
    assert_eq!(down.key, "G minor");
    assert_eq!(down.parts[0].chords()[0].root, "G");
}

#[test]
fn lowest_capo_on_a_song_without_chords_moves_the_key() {
    let song = Song::new("S", "C Major", "X");
    let r = song.apply_capo(-128);
    assert_eq!(r.key, "Ab Major");
    assert!(r.parts.is_empty());
}

#[test]
fn capo_on_unreadable_key_keeps_key_but_moves_chords() {
    let song = Song::new("S", "Weird", "X")
        .with_part("V", vec![Chord::new("D", ChordQuality::Major)]);
    let r = song.apply_capo(2);
    assert_eq!(r.key, "Weird");
    assert_eq!(r.parts[0].chords()[0].root, "C");
}

#[test]
fn chords_mut_edits_the_nth_chord() {
    let mut p = SongPart::new("V");
    p.items = vec![
        PartItem::LineBreak,
        PartItem::Chord(Chord::new("C", ChordQuality::Major)),
        PartItem::Chord(Chord::new("G", ChordQuality::Major)),
    ];
    if let Some(c) = p.chords_mut(1) {
        c.quality = ChordQuality::Sus4;
    }
    assert!(p.chords_mut(2).is_none());
    assert_eq!(p.chords()[1].display(), "Gsus4");
    assert_eq!(p.items[0], PartItem::LineBreak);
}

#[test]
fn instrument_tables_replace_and_default() {
    let mut song = Song::new("S", "C", "A");
    song.set_instrument_parts("Bass", vec![SongPart::new("one")]);
    song.set_instrument_parts("Bass", vec![SongPart::new("two")]);
    assert_eq!(song.instrument_parts.len(), 1);
    assert_eq!(song.instrument_parts_for("Bass").unwrap()[0].name, "two");
    assert!(song.instrument_parts_for("Drums").is_none());
    assert_eq!(song.instrument_capo("Bass"), 0);
    song.instrument_capos.push(("Bass".to_string(), 3));
    assert_eq!(song.instrument_capo("Bass"), 3);
    assert_eq!(song.pdf_settings_for("Base").chord_size, 18);
    assert_eq!(song.pdf_settings_for("Base").part_name_size, 9);
}

#[test]
fn part_text_defaults() {
    let t = PartTextSettings::new();
    assert_eq!(t.content, "");
    assert_eq!(t.color, "#555555");
    assert_eq!(t.size, 10);
    assert!(!t.show_chords);
}

#[test]
fn drum_part_kind_and_custom_notation() {
    assert_eq!(SongPart::new_drum_beat("D").kind, PartKind::DrumBeat);
    assert_eq!(apply_notation("Bb", Notation::German), "B");
    let mut c = Chord::new("Bb", ChordQuality::Minor7);
    c.bass_note = Some("B".to_string());
    assert_eq!(c.display_with_notation(Notation::Custom), "Bbm7/H");
    assert_eq!(c.display(), "Bbm7/B");
}

#[test]
fn chord_label_under_a_capo() {
    let mut slash = Chord::new("G", ChordQuality::Major);
    slash.bass_note = Some("B".to_string());
    assert_eq!(capo_chord_label(&slash, "C Major", 2, Notation::English), "F/A");
    assert_eq!(capo_chord_label(&slash, "C Major", 0, Notation::German), "G/H");
    let b7 = Chord::new("B", ChordQuality::Dominant7);
    assert_eq!(capo_chord_label(&b7, "C", -1, Notation::English), "C7");
    assert_eq!(capo_chord_label(&b7, "C", 1, Notation::German), "B7");
    assert_eq!(capo_chord_label(&Chord::new("A", ChordQuality::Minor), "C", 1, Notation::English), "Abm");
}

#[test]
fn grid_rows_and_breaks() {
    let grid = vec![
        TabCol::Notes(empty_cells()),
        TabCol::Barline,
        TabCol::LineBreak,
        TabCol::Notes(empty_cells()),
        TabCol::LineBreak,
    ];
    let (rows, breaks) = grid_rows(&grid);
    assert_eq!(rows, vec![vec![0, 1], vec![3], vec![]]);
    assert_eq!(breaks, vec![2, 4]);
    let (rows, breaks) = grid_rows(&Vec::new());
    assert_eq!(rows, vec![Vec::<usize>::new()]);
    assert!(breaks.is_empty());
}

#[test]
fn capo_control_steps_and_text() {
    assert_eq!(capo_down(0, false), 0);
    assert_eq!(capo_down(0, true), -1);
    assert_eq!(capo_down(-12, true), -12);
    assert_eq!(capo_down(3, false), 2);
    assert_eq!(capo_up(11), 12);
    assert_eq!(capo_up(12), 12);
    assert_eq!(capo_up(-12), -11);
    assert_eq!(capo_text(0), "Off");
    assert_eq!(capo_text(3), "+3");
    assert_eq!(capo_text(-12), "-12");
}

#[test]
fn shape_label_drops_the_bass_under_a_capo() {
    let mut slash = Chord::new("G", ChordQuality::Major7);
    slash.bass_note = Some("B".to_string());
    assert_eq!(capo_shape_label(&slash, "C Major", 2, Notation::English), "Fmaj7");
    assert_eq!(capo_shape_label(&slash, "C Major", 0, Notation::English), "Gmaj7/B");
    assert_eq!(capo_shape_label(&Chord::new("A", ChordQuality::Major), "C", -1, Notation::German), "B");
}

#[test]
fn stepping_the_key_transposes_by_a_semitone() {
    let mut song = Song::new("S", "C Major", "A")
        .with_part("V", vec![Chord::new("C", ChordQuality::Major), Chord::new("A", ChordQuality::Minor)]);
    song.step_key(true);
    assert_eq!(song.key, "C# Major");
    assert_eq!(song.parts[0].chords()[0].root, "C#");
    song.step_key(false);
    song.step_key(false);
    assert_eq!(song.key, "B Major");
    assert_eq!(song.parts[0].chords()[1].display(), "G#m");
}

#[test]
fn enharmonic_flip_respells_key_and_chords() {
    assert_eq!(enharmonic("C#"), Some("Db"));
    assert_eq!(enharmonic("Bb"), Some("A#"));
    assert_eq!(enharmonic("E"), None);
    let mut song = Song::new("S", "C# Major", "A")
        .with_part("V", vec![Chord::new("C#", ChordQuality::Major), Chord::new("F#", ChordQuality::Major)]);
    song.flip_enharmonic();
    assert_eq!(song.key, "Db Major");
    let roots: Vec<&str> = song.parts[0].chords().into_iter().map(|c| c.root.as_str()).collect();
    assert_eq!(roots, ["Db", "Gb"]);
    let mut minor = Song::new("S", "F# minor", "A");
    minor.flip_enharmonic();
    assert_eq!(minor.key, "Gb Minor");
    let mut plain = Song::new("S", "E Major", "A");
    plain.flip_enharmonic();
    assert_eq!(plain.key, "E Major");
}

#[test]
fn key_label_edits_keep_the_chords() {
    let mut song = Song::new("S", "A", "X").with_part("V", vec![Chord::new("A", ChordQuality::Major)]);
    song.set_mode(true);
    assert_eq!(song.key, "A Minor");
    song.set_key_root("D");
    assert_eq!(song.key, "D Minor");
    assert_eq!(song.parts[0].chords()[0].root, "A");
    let mut blank = Song::new("S", "", "X");
    blank.set_mode(false);
    assert_eq!(blank.key, "C Major");
    let mut bare = Song::new("S", "C", "X");
    bare.set_key_root("G");
    assert_eq!(bare.key, "G");
}

#[test]
fn instrument_sheets_and_capos() {
    let mut song = Song::new("S", "C", "X").with_part("Verse", vec![Chord::new("C", ChordQuality::Major)]);
    song.set_instrument_parts("Electric", vec![SongPart::new_riff("Riff")]);
    assert_eq!(song.instrument_sheet("Electric").parts[0].name, "Riff");
    assert_eq!(song.instrument_sheet("Bass").parts[0].name, "Verse");
    assert_eq!(song.instrument_capo("Electric"), 0);
    song.set_instrument_capo("Electric", 3);
    song.set_instrument_capo("Piano", -2);
    song.set_instrument_capo("Electric", 5);
    assert_eq!(song.instrument_capo("Electric"), 5);
    assert_eq!(song.instrument_capo("Piano"), -2);
    assert_eq!(song.instrument_capos.len(), 2);
}

#[test]
fn chords_beside_lyrics_on_every_part() {
    let mut song = Song::new("S", "C", "X")
        .with_part("Verse", vec![Chord::new("C", ChordQuality::Major)])
        .with_part("Chorus", vec![]);
    let mut text = PartTextSettings::new();
    text.content = "la la".to_string();
    song.parts[0].part_text = Some(text);
    assert!(!song.all_parts_show_chords());
    song.set_show_chords_everywhere(true);
    assert!(song.all_parts_show_chords());
    assert_eq!(song.parts[0].part_text.as_ref().unwrap().content, "la la");
    let fresh = song.parts[1].part_text.as_ref().unwrap();
    assert_eq!(fresh.color, "#555555");
    assert_eq!(fresh.size, 10);
    song.set_show_chords_everywhere(false);
    assert!(!song.all_parts_show_chords());
}

#[test]
fn pdf_font_sizes_are_clamped_per_sheet() {
    let mut song = Song::new("S", "C", "X");
    song.set_part_name_size("Base", 40);
    assert_eq!(song.pdf_settings_for("Base"), PdfSettings { part_name_size: 24, chord_size: 18 });
    song.set_chord_size("Base", 4);
    assert_eq!(song.pdf_settings_for("Base"), PdfSettings { part_name_size: 24, chord_size: 10 });
    song.set_chord_size("Bass", 20);
    assert_eq!(song.pdf_settings_for("Bass"), PdfSettings { part_name_size: 9, chord_size: 20 });
    assert_eq!(song.pdf_settings.len(), 2);
}

#[test]
fn export_lists_main_and_arranged_sheets() {
    let mut song = Song::new("Tune", "C", "X").with_part("Verse", vec![Chord::new("C", ChordQuality::Major)]);
    song.set_instrument_parts("Bass", vec![SongPart::new_bass_riff("Line")]);
    song.set_instrument_parts("Electric", vec![SongPart::new_riff("Riff")]);
    song.set_instrument_parts("Vocals", vec![SongPart::new("Words")]);
    song.set_instrument_capo("Electric", 2);
    song.set_chord_size("Bass", 12);
    let plan = song.exports();
    let names: Vec<&str> = plan.iter().map(|e| e.filename.as_str()).collect();
    assert_eq!(names, ["Tune", "Tune_Electric", "Tune_Bass"]);
    assert_eq!(plan[0].capo, 0);
    assert_eq!(plan[0].sheet.parts[0].name, "Verse");
    assert_eq!(plan[1].capo, 2);
    assert_eq!(plan[1].sheet.parts[0].name, "Riff");
    assert_eq!(plan[2].settings, PdfSettings { part_name_size: 9, chord_size: 12 });
}

#[test]
fn copying_the_main_parts_into_arrangements() {
    let mut song = Song::new("S", "C", "X").with_part("Verse", vec![Chord::new("C", ChordQuality::Major)]);
    song.set_instrument_parts("Piano", vec![SongPart::new("Old")]);
    song.set_instrument_parts("Kazoo", vec![SongPart::new("Mine")]);
    song.copy_base_to_arrangements();
    assert_eq!(song.instrument_parts_for("Piano").unwrap()[0].name, "Verse");
    assert_eq!(song.instrument_parts_for("Kazoo").unwrap()[0].name, "Mine");
    assert!(song.instrument_parts_for("Bass").is_none());
}

#[test]
fn reordering_and_removing_parts_and_items() {
    let mut song = Song::new("S", "C", "X")
        .with_part("A", vec![])
        .with_part("B", vec![])
        .with_part("C", vec![]);
    song.move_part(2, true);
    let names = |s: &Song| s.parts.iter().map(|p| p.name.clone()).collect::<Vec<_>>();
    assert_eq!(names(&song), ["A", "C", "B"]);
    song.move_part(0, true);
    song.move_part(2, false);
    assert_eq!(names(&song), ["A", "C", "B"]);
    song.move_part(1, false);
    assert_eq!(names(&song), ["A", "B", "C"]);
    song.remove_part(7);
    song.remove_part(0);
    assert_eq!(names(&song), ["B", "C"]);

    let mut part = SongPart::new("V");
    part.items = vec![
        PartItem::Chord(Chord::new("C", ChordQuality::Major)),
        PartItem::Chord(Chord::new("D", ChordQuality::Major)),
        PartItem::LineBreak,
        PartItem::Chord(Chord::new("E", ChordQuality::Major)),
    ];
    part.move_item(0, 3);
    let shown = |p: &SongPart| {
        p.items
            .iter()
            .map(|i| match i {
                PartItem::Chord(c) => c.display(),
                _ => "|".to_string(),
            })
            .collect::<Vec<_>>()
    };
    assert_eq!(shown(&part), ["D", "|", "C", "E"]);
    part.move_item(3, 0);
    assert_eq!(shown(&part), ["E", "D", "|", "C"]);
    part.remove_item(1);
    part.remove_item(9);
    assert_eq!(shown(&part), ["E", "|", "C"]);
}

#[test]
fn lyrics_size_and_repeat_count_editors() {
    assert_eq!(step_lyrics_size(10, true), 11);
    assert_eq!(step_lyrics_size(36, true), 36);
    assert_eq!(step_lyrics_size(6, false), 6);
    assert_eq!(step_lyrics_size(7, false), 6);
    assert_eq!(repeat_times_input("3"), 3);
    assert_eq!(repeat_times_input("+12"), 12);
    assert_eq!(repeat_times_input("255"), 255);
    assert_eq!(repeat_times_input("256"), 0);
    assert_eq!(repeat_times_input("-1"), 0);
    assert_eq!(repeat_times_input("-0"), 0);
    assert_eq!(repeat_times_input(""), 0);
    assert_eq!(repeat_times_input("x"), 0);
}

#[test]
fn tab_cell_field_reads_what_is_typed() {
    assert_eq!(cell_from_text(" X "), TabCell::Muted);
    assert_eq!(cell_from_text("h"), TabCell::HammerOn);
    assert_eq!(cell_from_text("P"), TabCell::PullOff);
    assert_eq!(cell_from_text("r"), TabCell::Release);
    assert_eq!(cell_from_text("B"), TabCell::Bend);
    assert_eq!(cell_from_text("/"), TabCell::SlideUp);
    assert_eq!(cell_from_text("\\"), TabCell::SlideDown);
    assert_eq!(cell_from_text("(7)"), TabCell::GhostNote(7));
    assert_eq!(cell_from_text("(30)"), TabCell::GhostNote(24));
    assert_eq!(cell_from_text("(x)"), TabCell::Empty);
    assert_eq!(cell_from_text("12"), TabCell::Fret(12));
    assert_eq!(cell_from_text("+3"), TabCell::Fret(3));
    assert_eq!(cell_from_text("25"), TabCell::Custom("25".to_string()));
    assert_eq!(cell_from_text("  "), TabCell::Empty);
    assert_eq!(cell_from_text("5h7"), TabCell::Custom("5h7".to_string()));
    for cell in [
        TabCell::Empty,
        TabCell::Fret(0),
        TabCell::Fret(24),
        TabCell::Muted,
        TabCell::GhostNote(5),
        TabCell::HammerOn,
        TabCell::PullOff,
        TabCell::Release,
        TabCell::Bend,
        TabCell::SlideUp,
        TabCell::SlideDown,
    ] {
        assert_eq!(cell_from_text(&cell.edit_text()), cell);
    }
    assert_eq!(TabCell::GhostNote(3).edit_text(), "(3)");
}
