use chord_shifter::sheet::{
    comment_color_rgb, repeat_label, sheet_rows, text_color_rgb, wrap_line_ends, SheetRow,
};
use chord_shifter::song::{Chord, ChordQuality, PartItem};
use chord_shifter::staff::{chord_note_steps, key_sig_accidentals, ledger_steps, note_staff_steps};
use chord_shifter::text::parse_int;

#[test]
fn repeat_labels() {
    assert_eq!(repeat_label(0), "||:");
    assert_eq!(repeat_label(2), "||: x2");
    assert_eq!(repeat_label(12), "||: x12");
}

#[test]
fn lyrics_colours() {
    assert_eq!(text_color_rgb("#555555"), (0x55, 0x55, 0x55));
    assert_eq!(text_color_rgb("#1A5c38"), (0x1a, 0x5c, 0x38));
    assert_eq!(text_color_rgb("##ff0000"), (0xff, 0, 0));
    assert_eq!(text_color_rgb("#zz0000"), (0x55, 0, 0));
    assert_eq!(text_color_rgb("#+f0000"), (0x0f, 0, 0));
    assert_eq!(text_color_rgb("red"), (0x55, 0x55, 0x55));
}

#[test]
fn key_signatures() {
    assert!(key_sig_accidentals("C Major").is_empty());
    assert!(key_sig_accidentals("A Minor").is_empty());
    assert_eq!(key_sig_accidentals("G Major"), vec![("♯", 8, 6)]);
    assert_eq!(key_sig_accidentals("F"), vec![("♭", 4, 2)]);
    assert_eq!(key_sig_accidentals("Dm"), vec![("♭", 4, 2)]);
    assert_eq!(
        key_sig_accidentals("  Bb minor "),
        vec![("♭", 4, 2), ("♭", 7, 5), ("♭", 3, 1), ("♭", 6, 4), ("♭", 2, 0)]
    );
    assert_eq!(key_sig_accidentals("C# Major").len(), 7);
    assert_eq!(key_sig_accidentals("Cb").last(), Some(&("♭", 1, -1)));
    assert!(key_sig_accidentals("H Major").is_empty());
}

#[test]
fn comment_colours() {
    assert_eq!(comment_color_rgb("#888888"), (0x88, 0x88, 0x88));
    assert_eq!(comment_color_rgb("#ff0000"), (0xff, 0, 0));
    assert_eq!(comment_color_rgb("#abc"), (0xaa, 0xbb, 0xcc));
    assert_eq!(comment_color_rgb("#xbc"), (0x88, 0xbb, 0xcc));
    assert_eq!(comment_color_rgb("#+bc"), (0x88, 0xbb, 0xcc));
    assert_eq!(comment_color_rgb("#zz0000"), (0x88, 0, 0));
    assert_eq!(comment_color_rgb("#12"), (0x88, 0x88, 0x88));
    assert_eq!(comment_color_rgb("blue"), (0x88, 0x88, 0x88));
}

#[test]
fn lyrics_line_wrapping() {
    assert_eq!(wrap_line_ends("hello world foo", 8), vec![6, 12, 15]);
    assert_eq!(wrap_line_ends("abcdefghij", 4), vec![4, 8, 10]);
    assert_eq!(wrap_line_ends("short", 40), vec![5]);
    assert_eq!(wrap_line_ends("a b", 1), vec![1, 2, 3]);
    assert!(wrap_line_ends("", 5).is_empty());
}

#[test]
fn note_positions_on_the_staves() {
    assert_eq!(note_staff_steps("E4", true), Some(0));
    assert_eq!(note_staff_steps("G2", false), Some(0));
    assert_eq!(note_staff_steps("C4", true), Some(-2));
    assert_eq!(note_staff_steps(" f#5 ", true), Some(8));
    assert_eq!(note_staff_steps("Bb3", false), Some(9));
    assert_eq!(note_staff_steps("Cb 4", true), Some(-2));
    assert_eq!(note_staff_steps("C+4", true), Some(-2));
    assert_eq!(note_staff_steps("H4", true), None);
    assert_eq!(note_staff_steps("C", true), None);
    assert_eq!(note_staff_steps("C4x", true), None);
    assert_eq!(note_staff_steps("", false), None);
}

#[test]
fn chord_notes_with_accidentals() {
    assert_eq!(chord_note_steps("C4, E4, G#4", true), vec![(-2, ""), (0, ""), (2, "♯")]);
    assert_eq!(chord_note_steps("Bb3,x,D4", true), vec![(-3, "♭"), (-1, "")]);
    assert!(chord_note_steps("", false).is_empty());
    assert!(chord_note_steps(",,", false).is_empty());
}

#[test]
fn integer_parsing() {
    assert_eq!(parse_int("42"), Some(42));
    assert_eq!(parse_int("-7"), Some(-7));
    assert_eq!(parse_int("+3"), Some(3));
    assert_eq!(parse_int("-2147483648"), Some(i32::MIN));
    assert_eq!(parse_int("2147483647"), Some(i32::MAX));
    assert_eq!(parse_int("2147483648"), None);
    assert_eq!(parse_int("00000000000000000012"), Some(12));
    assert_eq!(parse_int(""), None);
    assert_eq!(parse_int("+"), None);
    assert_eq!(parse_int("1a"), None);
    assert_eq!(parse_int(" 1"), None);
}

#[test]
fn rendered_rows_of_a_part() {
    let text = |c: &str| PartItem::Text { content: c.to_string(), color: "#888".to_string() };
    let items = vec![
        PartItem::Chord(Chord::new("C", ChordQuality::Major)),
        PartItem::Chord(Chord::new("G", ChordQuality::Major)),
        text("softly"),
        PartItem::LineBreak,
        PartItem::Chord(Chord::new("D", ChordQuality::Minor)),
        PartItem::Repeat { times: 2 },
        text("end"),
        text("again"),
    ];
    assert_eq!(
        sheet_rows(&items),
        vec![
            SheetRow::Chords(vec![0, 1]),
            SheetRow::Chords(vec![]),
            SheetRow::Text(2),
            SheetRow::Chords(vec![]),
            SheetRow::Chords(vec![4, 5]),
            SheetRow::Chords(vec![]),
            SheetRow::Text(6),
            SheetRow::Chords(vec![]),
            SheetRow::Text(7),
            SheetRow::Chords(vec![]),
        ]
    );
    assert_eq!(sheet_rows(&Vec::new()), vec![SheetRow::Chords(vec![])]);
}

#[test]
fn ledger_lines_of_chords() {
    assert!(ledger_steps(&vec![0, 4, 8]).is_empty());
    assert_eq!(ledger_steps(&vec![-2]), vec![-2]);
    assert_eq!(ledger_steps(&vec![-3]), vec![-2]);
    assert_eq!(ledger_steps(&vec![-2, -5, 12]), vec![-2, -4, 10, 12]);
    assert_eq!(ledger_steps(&vec![11, -1, 10]), vec![10]);
}
