//! The chord-sheet data model and its operations.
pub mod theory;

pub use self::theory::{prefer_sharps_for_key, shift_note, shift_note_up};
pub mod quality;
pub use self::quality::{apply_notation, Chord, ChordQuality, Notation};
pub mod tab;
pub use self::tab::{PartKind, TabCell, TabCol};
pub mod part;
pub use self::part::{PartItem, PartTextSettings, SongPart};
pub mod instrument;
pub use self::instrument::{Instrument, PdfSettings};
pub mod model;
pub use self::model::Song;
pub mod cell_edit;
pub mod sheets;
pub mod laws;
