//! Instruments a chord sheet can be arranged for, and per-sheet PDF settings.
use vstd::prelude::*;
use vstd::string::*;
use crate::text::{str_eq, owned, push_decimal, decimal};

verus! {

broadcast use vstd::string::group_string_axioms;

/// Which instrument(s) this chord sheet is arranged for.
#[derive(Debug, Clone, Copy, PartialEq, Eq, Structural)]
pub enum Instrument {
    Guitar,
    AcousticGuitar,
    Bass,
    Piano,
    Drums,
    Vocals,
}

/// The label of each instrument (also the key of its per-instrument data).
pub open spec fn instrument_label(i: Instrument) -> Seq<char> {
    match i {
        Instrument::Guitar => "Electric"@,
        Instrument::AcousticGuitar => "Acoustic"@,
        Instrument::Bass => "Bass"@,
        Instrument::Piano => "Piano"@,
        Instrument::Drums => "Drums"@,
        Instrument::Vocals => "Vocals"@,
    }
}

/// The accent colour of each instrument's sheet page.
pub open spec fn instrument_color(i: Instrument) -> Seq<char> {
    match i {
        Instrument::Guitar => "#1a5c38"@,
        Instrument::AcousticGuitar => "#7c4a00"@,
        Instrument::Bass => "#1a2e5c"@,
        Instrument::Piano => "#4a1a6e"@,
        Instrument::Drums => "#7c1a1a"@,
        Instrument::Vocals => "#3a3a4e"@,
    }
}

/// The instrument a label names, if any.
pub open spec fn instrument_of_label(s: Seq<char>) -> Option<Instrument> {
    if s == "Electric"@ {
        Some(Instrument::Guitar)
    } else if s == "Acoustic"@ {
        Some(Instrument::AcousticGuitar)
    } else if s == "Bass"@ {
        Some(Instrument::Bass)
    } else if s == "Piano"@ {
        Some(Instrument::Piano)
    } else if s == "Drums"@ {
        Some(Instrument::Drums)
    } else if s == "Vocals"@ {
        Some(Instrument::Vocals)
    } else {
        None
    }
}

/// The instruments that get a sheet of their own.
pub open spec fn sheet_instruments() -> Seq<Instrument> {
    seq![
        Instrument::Guitar,
        Instrument::AcousticGuitar,
        Instrument::Bass,
        Instrument::Piano,
        Instrument::Drums,
    ]
}

impl Instrument {
    pub fn label(self) -> (r: &'static str)
        ensures
            r@ == instrument_label(self),
    {
        match self {
            Instrument::Guitar => "Electric",
            Instrument::AcousticGuitar => "Acoustic",
            Instrument::Bass => "Bass",
            Instrument::Piano => "Piano",
            Instrument::Drums => "Drums",
            Instrument::Vocals => "Vocals",
        }
    }

    /// Accent colour used on the instrument sheet page.
    pub fn accent_color(self) -> (r: &'static str)
        ensures
            r@ == instrument_color(self),
    {
        match self {
            Instrument::Guitar => "#1a5c38",
            Instrument::AcousticGuitar => "#7c4a00",
            Instrument::Bass => "#1a2e5c",
            Instrument::Piano => "#4a1a6e",
            Instrument::Drums => "#7c1a1a",
            Instrument::Vocals => "#3a3a4e",
        }
    }

    /// Parse from the label string (used for URL routing).
    pub fn from_label(s: &str) -> (r: Option<Instrument>)
        ensures
            r == instrument_of_label(s@),
    {
        if str_eq(s, "Electric") {
            Some(Instrument::Guitar)
        } else if str_eq(s, "Acoustic") {
            Some(Instrument::AcousticGuitar)
        } else if str_eq(s, "Bass") {
            Some(Instrument::Bass)
        } else if str_eq(s, "Piano") {
            Some(Instrument::Piano)
        } else if str_eq(s, "Drums") {
            Some(Instrument::Drums)
        } else if str_eq(s, "Vocals") {
            Some(Instrument::Vocals)
        } else {
            None
        }
    }

    /// The instruments that get a sheet of their own: electric and acoustic
    /// guitar, bass, piano and drums.
    pub fn all() -> (r: [Instrument; 5])
        ensures
            r@ == sheet_instruments(),
    {
        let r = [
            Instrument::Guitar,
            Instrument::AcousticGuitar,
            Instrument::Bass,
            Instrument::Piano,
            Instrument::Drums,
        ];
        assert(r@ =~= sheet_instruments());
        r
    }
}

/// Reading an instrument's label back gives that instrument, so labels are
/// distinct and every label parses.
pub proof fn lemma_label_round_trip(i: Instrument)
    ensures
        instrument_of_label(instrument_label(i)) == Some(i),
{
    reveal_strlit("Electric");
    reveal_strlit("Acoustic");
    reveal_strlit("Bass");
    reveal_strlit("Piano");
    reveal_strlit("Drums");
    reveal_strlit("Vocals");
    let lits = seq!["Electric"@, "Acoustic"@, "Bass"@, "Piano"@, "Drums"@, "Vocals"@];
    assert forall|a: int, b: int| 0 <= a < b < 6 implies lits[a] != lits[b] by {
        if lits[a] == lits[b] {
            assert(lits[a][0] == lits[b][0]);
        }
    }
}

/// Distinct instruments have distinct labels.
pub proof fn lemma_labels_distinct(a: Instrument, b: Instrument)
    requires
        a != b,
    ensures
        instrument_label(a) != instrument_label(b),
{
    lemma_label_round_trip(a);
    lemma_label_round_trip(b);
}

// ── PDF settings ─────────────────────────────────────────────────────────────

/// Per-sheet PDF font-size settings.
#[derive(Debug, Clone, Copy, PartialEq, Eq, Structural)]
pub struct PdfSettings {
    /// Font size for part-label text (default 9 pt).
    pub part_name_size: u32,
    /// Font size for chord roots (default 18 pt).
    pub chord_size: u32,
}

impl PdfSettings {
    /// 9 pt part names and 18 pt chords.
    pub fn default_settings() -> (r: PdfSettings)
        ensures
            r == (PdfSettings { part_name_size: 9, chord_size: 18 }),
    {
        PdfSettings { part_name_size: 9, chord_size: 18 }
    }
}

// ── Capo control ─────────────────────────────────────────────────────────────

/// The lowest setting of an instrument sheet's capo control: -12 (a
/// transpose an octave up) on the piano sheet, 0 (no capo) on the others.
pub open spec fn capo_floor(piano: bool) -> int {
    if piano {
        -12
    } else {
        0
    }
}

/// The highest setting of the capo control.
pub open spec fn capo_ceiling() -> int {
    12
}

/// The capo after pressing "−": one lower, but not below the floor.
pub open spec fn capo_lowered(capo: int, piano: bool) -> int {
    if capo > capo_floor(piano) {
        capo - 1
    } else {
        capo
    }
}

/// The capo after pressing "+": one higher, but not above the ceiling.
pub open spec fn capo_raised(capo: int) -> int {
    if capo < capo_ceiling() {
        capo + 1
    } else {
        capo
    }
}

/// The capo after pressing "−" on the control.
pub fn capo_down(capo: i8, piano: bool) -> (r: i8)
    ensures
        r == capo_lowered(capo as int, piano),
{
    let floor: i8 = if piano {
        -12
    } else {
        0
    };
    if capo > floor {
        capo - 1
    } else {
        capo
    }
}

/// The capo after pressing "+" on the control.
pub fn capo_up(capo: i8) -> (r: i8)
    ensures
        r == capo_raised(capo as int),
{
    if capo < 12 {
        capo + 1
    } else {
        capo
    }
}

/// What the capo control shows: "Off" for 0, a signed number otherwise.
pub open spec fn capo_display(capo: int) -> Seq<char> {
    if capo == 0 {
        "Off"@
    } else if capo > 0 {
        "+"@ + decimal(capo as nat)
    } else {
        "-"@ + decimal((-capo) as nat)
    }
}

/// The text shown on the capo control (see `capo_display`).
pub fn capo_text(capo: i8) -> (r: String)
    ensures
        r@ == capo_display(capo as int),
{
    if capo == 0 {
        owned("Off")
    } else if capo > 0 {
        let mut r = owned("+");
        push_decimal(&mut r, capo as u64);
        r
    } else {
        let mut r = owned("-");
        let magnitude: u64 = if capo == i8::MIN {
            128
        } else {
            (-capo) as u64
        };
        push_decimal(&mut r, magnitude);
        r
    }
}

/// Pressing "−" or "+" keeps the capo control within its range, so every
/// setting it reaches from its start (0) lies between the floor and the
/// ceiling, and the shifts derived from it stay within `i8`.
pub proof fn lemma_capo_control_in_range(capo: int, piano: bool)
    requires
        capo_floor(piano) <= capo <= capo_ceiling(),
    ensures
        capo_floor(piano) <= capo_lowered(capo, piano) <= capo_ceiling(),
        capo_floor(piano) <= capo_raised(capo) <= capo_ceiling(),
        -128 < capo && -128 < -capo,
{
}

} // verus!
