//! Song parts: the items of a chord part, lyrics settings, and the part
//! itself with its tab grid.
use vstd::prelude::*;
use vstd::string::*;
use crate::text::owned;
use crate::song::quality::{Chord, ChordView};
use crate::song::tab::{
    TabCol, TabColView, PartKind, grid_view, copy_grid, grid_text, render_grid,
};

verus! {

broadcast use vstd::string::group_string_axioms;

// ── Part items ───────────────────────────────────────────────────────────────

/// A single item inside a song part — either a chord or a structural marker.
#[derive(Debug, Clone, PartialEq)]
pub enum PartItem {
    /// A regular chord.
    Chord(Chord),
    /// Forces a new row in the chord grid.
    LineBreak,
    /// A repeat barline (e.g. ‖: … :‖). `times` = 0 means plain repeat with no number.
    Repeat { times: u8 },
    /// A plain double barline (||) marking the start of a repeated section.
    RepeatStart,
    /// Start of a volta bracket, e.g. "1." or "2.".
    VoltaBracketStart { label: String },
    /// End of a volta bracket.
    VoltaBracketEnd,
    /// A free-text comment / annotation for this part, on its own line;
    /// `color` is a CSS colour string (e.g. `"#888888"`).
    Text { content: String, color: String },
}

/// The abstract content of a part item.
pub enum PartItemView {
    Chord(ChordView),
    LineBreak,
    Repeat { times: u8 },
    RepeatStart,
    VoltaBracketStart { label: Seq<char> },
    VoltaBracketEnd,
    Text { content: Seq<char>, color: Seq<char> },
}

impl View for PartItem {
    type V = PartItemView;

    open spec fn view(&self) -> PartItemView {
        match self {
            PartItem::Chord(c) => PartItemView::Chord(c@),
            PartItem::LineBreak => PartItemView::LineBreak,
            PartItem::Repeat { times } => PartItemView::Repeat { times: *times },
            PartItem::RepeatStart => PartItemView::RepeatStart,
            PartItem::VoltaBracketStart { label } => PartItemView::VoltaBracketStart {
                label: label@,
            },
            PartItem::VoltaBracketEnd => PartItemView::VoltaBracketEnd,
            PartItem::Text { content, color } => PartItemView::Text {
                content: content@,
                color: color@,
            },
        }
    }
}

/// The view of each item.
pub open spec fn items_view(items: Seq<PartItem>) -> Seq<PartItemView> {
    items.map_values(|i: PartItem| i@)
}

impl PartItem {
    /// An independent copy of this item.
    pub fn copy(&self) -> (r: PartItem)
        ensures
            r@ == self@,
    {
        match self {
            PartItem::Chord(c) => PartItem::Chord(c.copy()),
            PartItem::LineBreak => PartItem::LineBreak,
            PartItem::Repeat { times } => PartItem::Repeat { times: *times },
            PartItem::RepeatStart => PartItem::RepeatStart,
            PartItem::VoltaBracketStart { label } => PartItem::VoltaBracketStart {
                label: label.clone(),
            },
            PartItem::VoltaBracketEnd => PartItem::VoltaBracketEnd,
            PartItem::Text { content, color } => PartItem::Text {
                content: content.clone(),
                color: color.clone(),
            },
        }
    }
}

/// The chords among `items`, in order.
pub open spec fn chords_of(items: Seq<PartItemView>) -> Seq<ChordView>
    decreases items.len(),
{
    if items.len() == 0 {
        seq![]
    } else {
        let rest = chords_of(items.drop_last());
        match items.last() {
            PartItemView::Chord(c) => rest.push(c),
            _ => rest,
        }
    }
}

// ── Part text ────────────────────────────────────────────────────────────────

/// Per-part vocal / lyrics annotation shown below the chords or tab.
#[derive(Debug, Clone, PartialEq)]
pub struct PartTextSettings {
    /// The lyrics / comment text. Use `\n` for line breaks.
    pub content: String,
    /// CSS colour string for the text (e.g. `"#555555"`).
    pub color: String,
    /// Font size in pt used in the PDF (default 10).
    pub size: u32,
    /// Whether to show the part's chords alongside the lyrics (two-column layout).
    pub show_chords: bool,
}

/// The abstract content of lyrics settings.
pub struct PartTextView {
    pub content: Seq<char>,
    pub color: Seq<char>,
    pub size: u32,
    pub show_chords: bool,
}

impl View for PartTextSettings {
    type V = PartTextView;

    open spec fn view(&self) -> PartTextView {
        PartTextView {
            content: self.content@,
            color: self.color@,
            size: self.size,
            show_chords: self.show_chords,
        }
    }
}

impl PartTextSettings {
    /// The colour used when none is given.
    pub fn default_color() -> (r: String)
        ensures
            r@ == "#555555"@,
    {
        owned("#555555")
    }

    /// The font size used when none is given.
    pub fn default_size() -> (r: u32)
        ensures
            r == 10,
    {
        10
    }

    /// Empty text in the default colour and size, without chords beside it.
    pub fn new() -> (r: PartTextSettings)
        ensures
            r@ == (PartTextView {
                content: Seq::empty(),
                color: "#555555"@,
                size: 10,
                show_chords: false,
            }),
    {
        PartTextSettings {
            content: String::new(),
            color: Self::default_color(),
            size: Self::default_size(),
            show_chords: false,
        }
    }

    /// An independent copy of these settings.
    pub fn copy(&self) -> (r: PartTextSettings)
        ensures
            r@ == self@,
    {
        PartTextSettings {
            content: self.content.clone(),
            color: self.color.clone(),
            size: self.size,
            show_chords: self.show_chords,
        }
    }
}

// ── Song part ────────────────────────────────────────────────────────────────

/// A named section of a song (e.g. "Verse", "Chorus", or anything the user chooses).
#[derive(Debug, Clone, PartialEq)]
pub struct SongPart {
    pub name: String,
    /// Whether this part holds chords or a tab riff.
    pub kind: PartKind,
    /// Free-text tab, shown when the structured grid is empty.
    pub tab: String,
    /// Structured tab grid; each column is a beat, a barline or a row break.
    pub tab_grid: Vec<TabCol>,
    /// All items in this part in order — used when `kind == PartKind::Chords`.
    pub items: Vec<PartItem>,
    /// Optional vocals / lyrics text shown below the chords or tab.
    pub part_text: Option<PartTextSettings>,
}

/// The abstract content of a song part.
pub struct SongPartView {
    pub name: Seq<char>,
    pub kind: PartKind,
    pub tab: Seq<char>,
    pub tab_grid: Seq<TabColView>,
    pub items: Seq<PartItemView>,
    pub part_text: Option<PartTextView>,
}

impl View for SongPart {
    type V = SongPartView;

    open spec fn view(&self) -> SongPartView {
        SongPartView {
            name: self.name@,
            kind: self.kind,
            tab: self.tab@,
            tab_grid: grid_view(self.tab_grid@),
            items: items_view(self.items@),
            part_text: match self.part_text {
                Some(t) => Some(t@),
                None => None,
            },
        }
    }
}

/// The view of each part.
pub open spec fn parts_view(parts: Seq<SongPart>) -> Seq<SongPartView> {
    parts.map_values(|p: SongPart| p@)
}

/// An empty part of the given kind.
pub open spec fn empty_part(name: Seq<char>, kind: PartKind) -> SongPartView {
    SongPartView {
        name,
        kind,
        tab: Seq::empty(),
        tab_grid: Seq::empty(),
        items: Seq::empty(),
        part_text: None,
    }
}

/// The ASCII tab of a part: the free-text tab when the grid is empty,
/// otherwise the rendering of the grid.
pub open spec fn part_tab_text(p: SongPartView) -> Seq<char> {
    if p.tab_grid.len() == 0 {
        p.tab
    } else {
        grid_text(p.kind, p.tab_grid)
    }
}

/// Copies every item.
pub fn copy_items(items: &Vec<PartItem>) -> (r: Vec<PartItem>)
    ensures
        items_view(r@) == items_view(items@),
{
    let mut r: Vec<PartItem> = Vec::new();
    let mut i: usize = 0;
    while i < items.len()
        invariant
            i <= items@.len(),
            r@.len() == i,
            forall|j: int| 0 <= j < i ==> #[trigger] r@[j]@ == items@[j]@,
        decreases items@.len() - i,
    {
        r.push(items[i].copy());
        i = i + 1;
    }
    assert(items_view(r@) =~= items_view(items@));
    r
}

impl SongPart {
    fn empty_of_kind(name: &str, kind: PartKind) -> (r: SongPart)
        ensures
            r@ == empty_part(name@, kind),
    {
        let r = SongPart {
            name: owned(name),
            kind,
            tab: String::new(),
            tab_grid: Vec::new(),
            items: Vec::new(),
            part_text: None,
        };
        assert(r@.tab_grid =~= Seq::<TabColView>::empty());
        assert(r@.items =~= Seq::<PartItemView>::empty());
        r
    }

    /// An empty chord part.
    pub fn new(name: &str) -> (r: SongPart)
        ensures
            r@ == empty_part(name@, PartKind::Chords),
    {
        Self::empty_of_kind(name, PartKind::Chords)
    }

    /// An empty guitar-tab part.
    pub fn new_riff(name: &str) -> (r: SongPart)
        ensures
            r@ == empty_part(name@, PartKind::Riff),
    {
        Self::empty_of_kind(name, PartKind::Riff)
    }

    /// An empty bass-tab part.
    pub fn new_bass_riff(name: &str) -> (r: SongPart)
        ensures
            r@ == empty_part(name@, PartKind::BassRiff),
    {
        Self::empty_of_kind(name, PartKind::BassRiff)
    }

    /// An empty drum-beat part.
    pub fn new_drum_beat(name: &str) -> (r: SongPart)
        ensures
            r@ == empty_part(name@, PartKind::DrumBeat),
    {
        Self::empty_of_kind(name, PartKind::DrumBeat)
    }

    /// An independent copy of this part.
    pub fn copy(&self) -> (r: SongPart)
        ensures
            r@ == self@,
    {
        SongPart {
            name: self.name.clone(),
            kind: self.kind,
            tab: self.tab.clone(),
            tab_grid: copy_grid(&self.tab_grid),
            items: copy_items(&self.items),
            part_text: match &self.part_text {
                Some(t) => Some(t.copy()),
                None => None,
            },
        }
    }

    /// A mutable reference to the `index`-th `Chord` item of this part
    /// (counting chords only), or `None` when there are not that many.
    pub fn chords_mut(&mut self, index: usize) -> (r: Option<&mut Chord>)
        ensures
            match r {
                Some(c) => exists|p: int|
                    0 <= p < old(self).items@.len() && #[trigger] old(self).items@[p] == PartItem::Chord(*c)
                        && chords_of(items_view(old(self).items@.take(p))).len() == index
                        && final(self).items@ == old(self).items@.update(p, PartItem::Chord(*final(c)))
                        && final(self).name == old(self).name && final(self).kind == old(self).kind
                        && final(self).tab == old(self).tab && final(self).tab_grid == old(self).tab_grid
                        && final(self).part_text == old(self).part_text,
                None => chords_of(items_view(old(self).items@)).len() <= index && *final(self) == *old(self),
            },
    {
        let mut i: usize = 0;
        let mut seen: usize = 0;
        while i < self.items.len()
            invariant
                i <= self.items@.len(),
                seen as int == chords_of(items_view(self.items@.take(i as int))).len(),
                seen <= index,
                *self == *old(self),
            decreases self.items@.len() - i,
        {
            assert(items_view(self.items@.take(i + 1)).drop_last() =~= items_view(
                self.items@.take(i as int),
            ));
            let is_chord = match &self.items[i] {
                PartItem::Chord(_) => true,
                _ => false,
            };
            if is_chord {
                if seen == index {
                    let ghost p = i as int;
                    match &mut self.items[i] {
                        PartItem::Chord(c) => {
                            return Some(c);
                        },
                        _ => {
                            return None;
                        },
                    }
                }
                seen = seen + 1;
            }
            i = i + 1;
        }
        assert(self.items@.take(self.items@.len() as int) =~= self.items@);
        None
    }

    /// The `Chord` items of this part, in order.
    pub fn chords(&self) -> (r: Vec<&Chord>)
        ensures
            r@.map_values(|c: &Chord| c@) == chords_of(items_view(self.items@)),
    {
        let mut r: Vec<&Chord> = Vec::new();
        let mut i: usize = 0;
        while i < self.items.len()
            invariant
                i <= self.items@.len(),
                r@.map_values(|c: &Chord| c@) == chords_of(items_view(self.items@.take(i as int))),
            decreases self.items@.len() - i,
        {
            assert(items_view(self.items@.take(i + 1)).drop_last() =~= items_view(
                self.items@.take(i as int),
            ));
            match &self.items[i] {
                PartItem::Chord(c) => {
                    r.push(c);
                    assert(r@.map_values(|c: &Chord| c@) =~= chords_of(
                        items_view(self.items@.take(i as int)),
                    ).push(c@));
                },
                _ => {},
            }
            i = i + 1;
        }
        assert(self.items@.take(self.items@.len() as int) =~= self.items@);
        r
    }

    /// Render this riff part as an ASCII-tab string, e.g.
    /// ```text
    /// e|--0--2--|
    /// B|--------|
    /// ```
    /// Falls back to `self.tab` when `tab_grid` is empty (legacy free-text).
    pub fn tab_as_ascii(&self) -> (r: String)
        ensures
            r@ == part_tab_text(self@),
    {
        if self.tab_grid.len() == 0 {
            self.tab.clone()
        } else {
            render_grid(self.kind, &self.tab_grid)
        }
    }
}

} // verus!
