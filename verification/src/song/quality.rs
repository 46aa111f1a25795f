//! Chord qualities, note-naming conventions, and single chords.
use vstd::prelude::*;
use vstd::string::*;
use crate::text::{str_eq, owned};

verus! {

broadcast use vstd::string::group_string_axioms;

// ── Chord quality ────────────────────────────────────────────────────────────

/// The quality (chord type) of a chord.
#[derive(Debug, Clone, Copy, PartialEq, Eq, Structural)]
pub enum ChordQuality {
    Major,
    Minor,
    Dominant7,
    Major7,
    Minor7,
    Diminished,
    Augmented,
    Sus2,
    Sus4,
}

/// The suffix written after the root for each quality.
pub open spec fn quality_symbol(q: ChordQuality) -> Seq<char> {
    match q {
        ChordQuality::Major => ""@,
        ChordQuality::Minor => "m"@,
        ChordQuality::Dominant7 => "7"@,
        ChordQuality::Major7 => "maj7"@,
        ChordQuality::Minor7 => "m7"@,
        ChordQuality::Diminished => "dim"@,
        ChordQuality::Augmented => "aug"@,
        ChordQuality::Sus2 => "sus2"@,
        ChordQuality::Sus4 => "sus4"@,
    }
}

/// The human-readable name of each quality.
pub open spec fn quality_label(q: ChordQuality) -> Seq<char> {
    match q {
        ChordQuality::Major => "Major"@,
        ChordQuality::Minor => "Minor"@,
        ChordQuality::Dominant7 => "Dom 7"@,
        ChordQuality::Major7 => "Maj 7"@,
        ChordQuality::Minor7 => "Min 7"@,
        ChordQuality::Diminished => "Dim"@,
        ChordQuality::Augmented => "Aug"@,
        ChordQuality::Sus2 => "Sus 2"@,
        ChordQuality::Sus4 => "Sus 4"@,
    }
}

/// The quality a suffix denotes; an unknown suffix means a major chord.
pub open spec fn quality_of_symbol(s: Seq<char>) -> ChordQuality {
    if s == "m"@ {
        ChordQuality::Minor
    } else if s == "7"@ {
        ChordQuality::Dominant7
    } else if s == "maj7"@ {
        ChordQuality::Major7
    } else if s == "m7"@ {
        ChordQuality::Minor7
    } else if s == "dim"@ {
        ChordQuality::Diminished
    } else if s == "aug"@ {
        ChordQuality::Augmented
    } else if s == "sus2"@ {
        ChordQuality::Sus2
    } else if s == "sus4"@ {
        ChordQuality::Sus4
    } else {
        ChordQuality::Major
    }
}

/// Every quality, in declaration order.
pub open spec fn all_qualities() -> Seq<ChordQuality> {
    seq![
        ChordQuality::Major,
        ChordQuality::Minor,
        ChordQuality::Dominant7,
        ChordQuality::Major7,
        ChordQuality::Minor7,
        ChordQuality::Diminished,
        ChordQuality::Augmented,
        ChordQuality::Sus2,
        ChordQuality::Sus4,
    ]
}

impl ChordQuality {
    pub fn symbol(&self) -> (r: &'static str)
        ensures
            r@ == quality_symbol(*self),
    {
        match self {
            ChordQuality::Major => "",
            ChordQuality::Minor => "m",
            ChordQuality::Dominant7 => "7",
            ChordQuality::Major7 => "maj7",
            ChordQuality::Minor7 => "m7",
            ChordQuality::Diminished => "dim",
            ChordQuality::Augmented => "aug",
            ChordQuality::Sus2 => "sus2",
            ChordQuality::Sus4 => "sus4",
        }
    }

    pub fn label(&self) -> (r: &'static str)
        ensures
            r@ == quality_label(*self),
    {
        match self {
            ChordQuality::Major => "Major",
            ChordQuality::Minor => "Minor",
            ChordQuality::Dominant7 => "Dom 7",
            ChordQuality::Major7 => "Maj 7",
            ChordQuality::Minor7 => "Min 7",
            ChordQuality::Diminished => "Dim",
            ChordQuality::Augmented => "Aug",
            ChordQuality::Sus2 => "Sus 2",
            ChordQuality::Sus4 => "Sus 4",
        }
    }

    pub fn all() -> (r: Vec<ChordQuality>)
        ensures
            r@ == all_qualities(),
    {
        let r = vec![
            ChordQuality::Major,
            ChordQuality::Minor,
            ChordQuality::Dominant7,
            ChordQuality::Major7,
            ChordQuality::Minor7,
            ChordQuality::Diminished,
            ChordQuality::Augmented,
            ChordQuality::Sus2,
            ChordQuality::Sus4,
        ];
        assert(r@ =~= all_qualities());
        r
    }

    pub fn from_symbol(s: &str) -> (r: ChordQuality)
        ensures
            r == quality_of_symbol(s@),
    {
        if str_eq(s, "m") {
            ChordQuality::Minor
        } else if str_eq(s, "7") {
            ChordQuality::Dominant7
        } else if str_eq(s, "maj7") {
            ChordQuality::Major7
        } else if str_eq(s, "m7") {
            ChordQuality::Minor7
        } else if str_eq(s, "dim") {
            ChordQuality::Diminished
        } else if str_eq(s, "aug") {
            ChordQuality::Augmented
        } else if str_eq(s, "sus2") {
            ChordQuality::Sus2
        } else if str_eq(s, "sus4") {
            ChordQuality::Sus4
        } else {
            ChordQuality::Major
        }
    }
}

/// Parsing the suffix of a quality gives that quality back, and distinct
/// qualities have distinct suffixes.
pub proof fn lemma_symbol_round_trip(q: ChordQuality)
    ensures
        quality_of_symbol(quality_symbol(q)) == q,
{
    reveal_strlit("");
    reveal_strlit("m");
    reveal_strlit("7");
    reveal_strlit("maj7");
    reveal_strlit("m7");
    reveal_strlit("dim");
    reveal_strlit("aug");
    reveal_strlit("sus2");
    reveal_strlit("sus4");
    let lits = seq!["m"@, "7"@, "maj7"@, "m7"@, "dim"@, "aug"@, "sus2"@, "sus4"@];
    assert(""@.len() == 0);
    assert(lits[0] =~= seq!['m']);
    assert(lits[1] =~= seq!['7']);
    assert(lits[2] =~= seq!['m', 'a', 'j', '7']);
    assert(lits[3] =~= seq!['m', '7']);
    assert(lits[4] =~= seq!['d', 'i', 'm']);
    assert(lits[5] =~= seq!['a', 'u', 'g']);
    assert(lits[6] =~= seq!['s', 'u', 's', '2']);
    assert(lits[7] =~= seq!['s', 'u', 's', '4']);
    assert forall|i: int, j: int| 0 <= i < j < 8 implies lits[i] != lits[j] by {
        if lits[i] == lits[j] {
            assert(lits[i][lits[i].len() - 1] == lits[j][lits[j].len() - 1]);
            assert(lits[i][0] == lits[j][0]);
        }
    }
    assert(lits[0] != ""@);
}

// ── Notation ─────────────────────────────────────────────────────────────────

/// Which note-naming convention to use when displaying chords.
///
/// | Name    | B natural | B-flat |
/// |---------|-----------|--------|
/// | English | B         | B♭     |
/// | German  | H         | B      |
/// | Custom  | H         | B♭     |
#[derive(Debug, Clone, Copy, PartialEq, Eq, Structural)]
pub enum Notation {
    English,
    German,
    Custom,
}

impl Notation {
    /// English, the convention used when none is chosen.
    pub fn default_notation() -> (r: Notation)
        ensures
            r == Notation::English,
    {
        Notation::English
    }
}

/// A note name written in the given convention.
pub open spec fn notation_name(note: Seq<char>, notation: Notation) -> Seq<char> {
    match notation {
        Notation::English => note,
        Notation::German => if note == "B"@ {
            "H"@
        } else if note == "Bb"@ {
            "B"@
        } else {
            note
        },
        Notation::Custom => if note == "B"@ {
            "H"@
        } else {
            note
        },
    }
}

/// Apply a notation convention to a single note name.
/// A# is always left as A# regardless of convention — only Bb is renamed.
pub fn apply_notation(note: &str, notation: Notation) -> (r: String)
    ensures
        r@ == notation_name(note@, notation),
{
    match notation {
        Notation::English => owned(note),
        Notation::German => {
            if str_eq(note, "B") {
                owned("H")
            } else if str_eq(note, "Bb") {
                owned("B")
            } else {
                owned(note)
            }
        },
        Notation::Custom => {
            if str_eq(note, "B") {
                owned("H")
            } else {
                owned(note)
            }
        },
    }
}

// ── Chord ────────────────────────────────────────────────────────────────────

/// A single chord: a root note, a quality, and an optional bass note for
/// slash-chord notation (e.g. `G/B`).
#[derive(Debug, Clone, PartialEq)]
pub struct Chord {
    pub root: String,
    pub quality: ChordQuality,
    pub bass_note: Option<String>,
}

/// The abstract content of a chord.
pub struct ChordView {
    pub root: Seq<char>,
    pub quality: ChordQuality,
    pub bass_note: Option<Seq<char>>,
}

impl View for Chord {
    type V = ChordView;

    open spec fn view(&self) -> ChordView {
        ChordView {
            root: self.root@,
            quality: self.quality,
            bass_note: match self.bass_note {
                Some(b) => Some(b@),
                None => None,
            },
        }
    }
}

/// The written name of a chord: root, quality suffix, and `/bass` when a
/// bass note is set, each note written in the given convention.
pub open spec fn chord_text(c: ChordView, notation: Notation) -> Seq<char> {
    match c.bass_note {
        Some(b) => notation_name(c.root, notation) + quality_symbol(c.quality) + "/"@
            + notation_name(b, notation),
        None => notation_name(c.root, notation) + quality_symbol(c.quality),
    }
}

impl Chord {
    pub fn new(root: &str, quality: ChordQuality) -> (r: Chord)
        ensures
            r@ == (ChordView { root: root@, quality, bass_note: None }),
    {
        Chord { root: owned(root), quality, bass_note: None }
    }

    /// An independent copy of this chord.
    pub fn copy(&self) -> (r: Chord)
        ensures
            r@ == self@,
    {
        Chord {
            root: self.root.clone(),
            quality: self.quality,
            bass_note: match &self.bass_note {
                Some(b) => Some(b.clone()),
                None => None,
            },
        }
    }

    /// Human-readable chord name, e.g. `"Am"`, `"G7"`, `"Fmaj7"`, `"G/B"`.
    pub fn display(&self) -> (r: String)
        ensures
            r@ == chord_text(self@, Notation::English),
    {
        let mut r = owned(self.root.as_str());
        r.append(self.quality.symbol());
        match &self.bass_note {
            Some(b) => {
                r.append("/");
                r.append(b.as_str());
            },
            None => {},
        }
        r
    }

    /// Chord name with the given notation convention applied to root and bass.
    pub fn display_with_notation(&self, notation: Notation) -> (r: String)
        ensures
            r@ == chord_text(self@, notation),
    {
        let mut r = apply_notation(self.root.as_str(), notation);
        r.append(self.quality.symbol());
        match &self.bass_note {
            Some(b) => {
                r.append("/");
                let bn = apply_notation(b.as_str(), notation);
                r.append(bn.as_str());
            },
            None => {},
        }
        r
    }
}

/// A chord without a bass note is displayed as its root followed by the
/// suffix of its quality from the chord-quality table: nothing for major,
/// `m`, `7`, `maj7`, `m7`, `dim`, `aug`, `sus2`, `sus4`.
pub proof fn lemma_chord_names(root: Seq<char>)
    ensures
        chord_text(ChordView { root, quality: ChordQuality::Major, bass_note: None }, Notation::English)
            == root,
        chord_text(ChordView { root, quality: ChordQuality::Minor, bass_note: None }, Notation::English)
            == root + seq!['m'],
        chord_text(
            ChordView { root, quality: ChordQuality::Dominant7, bass_note: None },
            Notation::English,
        ) == root + seq!['7'],
        chord_text(ChordView { root, quality: ChordQuality::Major7, bass_note: None }, Notation::English)
            == root + seq!['m', 'a', 'j', '7'],
        chord_text(ChordView { root, quality: ChordQuality::Minor7, bass_note: None }, Notation::English)
            == root + seq!['m', '7'],
        chord_text(
            ChordView { root, quality: ChordQuality::Diminished, bass_note: None },
            Notation::English,
        ) == root + seq!['d', 'i', 'm'],
        chord_text(
            ChordView { root, quality: ChordQuality::Augmented, bass_note: None },
            Notation::English,
        ) == root + seq!['a', 'u', 'g'],
        chord_text(ChordView { root, quality: ChordQuality::Sus2, bass_note: None }, Notation::English)
            == root + seq!['s', 'u', 's', '2'],
        chord_text(ChordView { root, quality: ChordQuality::Sus4, bass_note: None }, Notation::English)
            == root + seq!['s', 'u', 's', '4'],
{
    reveal_strlit("");
    reveal_strlit("m");
    reveal_strlit("7");
    reveal_strlit("maj7");
    reveal_strlit("m7");
    reveal_strlit("dim");
    reveal_strlit("aug");
    reveal_strlit("sus2");
    reveal_strlit("sus4");
    assert(root + ""@ =~= root);
    assert("m"@ =~= seq!['m']);
    assert("7"@ =~= seq!['7']);
    assert("maj7"@ =~= seq!['m', 'a', 'j', '7']);
    assert("m7"@ =~= seq!['m', '7']);
    assert("dim"@ =~= seq!['d', 'i', 'm']);
    assert("aug"@ =~= seq!['a', 'u', 'g']);
    assert("sus2"@ =~= seq!['s', 'u', 's', '2']);
    assert("sus4"@ =~= seq!['s', 'u', 's', '4']);
}

} // verus!
