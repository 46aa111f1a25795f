//! The rules of the browser song store: rows of saved songs and users kept
//! as lists, with upsert by (name, artist, owner), fresh ids one above the
//! largest, per-user visibility (owner 0 = shared with everyone), the
//! server's rules for loading (own or shared) and deleting (own only),
//! registration and login of users with the check of the login form, and
//! the demo song shown when nothing can be loaded.
use vstd::prelude::*;
use vstd::string::*;
use crate::text::{str_eq, concat2, owned, trim, unicode_lowercase, push_signed, signed_decimal};
use crate::server::{has_char, contains_char, normalize_email};
use crate::staff::after_sep;
use crate::song::model::{Song, SongView, new_song, chord_part};
use crate::song::quality::{Chord, ChordQuality, ChordView};
use crate::auth::{hash_password, verify_password, verifies, is_hash_of, starts_with};
use vstd::utf8::*;

verus! {

broadcast use vstd::string::group_string_axioms;

// ── Rows ─────────────────────────────────────────────────────────────────────

/// A saved song as the store keeps it: its identity, owner, and the parts
/// and per-instrument data as JSON text.
#[derive(Debug, Clone, PartialEq)]
pub struct StoredSong {
    pub id: i64,
    pub name: String,
    pub artist: String,
    pub key: String,
    pub parts_json: String,
    pub instruments_json: String,
    pub vocals_notes: String,
    /// The owning user; 0 means visible to every user.
    pub user_id: i64,
    pub instrument_parts_json: String,
    pub instrument_capos_json: String,
    pub pdf_settings_json: String,
}

/// The abstract content of a stored song.
pub struct StoredSongView {
    pub id: i64,
    pub name: Seq<char>,
    pub artist: Seq<char>,
    pub key: Seq<char>,
    pub parts_json: Seq<char>,
    pub instruments_json: Seq<char>,
    pub vocals_notes: Seq<char>,
    pub user_id: i64,
    pub instrument_parts_json: Seq<char>,
    pub instrument_capos_json: Seq<char>,
    pub pdf_settings_json: Seq<char>,
}

impl View for StoredSong {
    type V = StoredSongView;

    open spec fn view(&self) -> StoredSongView {
        StoredSongView {
            id: self.id,
            name: self.name@,
            artist: self.artist@,
            key: self.key@,
            parts_json: self.parts_json@,
            instruments_json: self.instruments_json@,
            vocals_notes: self.vocals_notes@,
            user_id: self.user_id,
            instrument_parts_json: self.instrument_parts_json@,
            instrument_capos_json: self.instrument_capos_json@,
            pdf_settings_json: self.pdf_settings_json@,
        }
    }
}

impl StoredSong {
    /// An independent copy of this row.
    pub fn copy(&self) -> (r: StoredSong)
        ensures
            r@ == self@,
    {
        StoredSong {
            id: self.id,
            name: self.name.clone(),
            artist: self.artist.clone(),
            key: self.key.clone(),
            parts_json: self.parts_json.clone(),
            instruments_json: self.instruments_json.clone(),
            vocals_notes: self.vocals_notes.clone(),
            user_id: self.user_id,
            instrument_parts_json: self.instrument_parts_json.clone(),
            instrument_capos_json: self.instrument_capos_json.clone(),
            pdf_settings_json: self.pdf_settings_json.clone(),
        }
    }
}

/// The view of each row.
pub open spec fn rows_view(rows: Seq<StoredSong>) -> Seq<StoredSongView> {
    rows.map_values(|r: StoredSong| r@)
}

/// One above the largest id, or 1 when there are none.
pub open spec fn next_id(ids: Seq<i64>) -> int
    decreases ids.len(),
{
    if ids.len() == 0 {
        1
    } else {
        let rest = next_id(ids.drop_last());
        if ids.len() == 1 || ids.last() + 1 > rest {
            ids.last() + 1
        } else {
            rest
        }
    }
}

/// The ids of the rows.
pub open spec fn song_ids(rows: Seq<StoredSongView>) -> Seq<i64> {
    rows.map_values(|r: StoredSongView| r.id)
}

/// Every id is below `i64::MAX`, so a next id exists.
pub open spec fn ids_below_max(ids: Seq<i64>) -> bool {
    forall|i: int| 0 <= i < ids.len() ==> ids[i] < i64::MAX
}

proof fn lemma_next_id_bounds(ids: Seq<i64>)
    requires
        ids_below_max(ids),
    ensures
        next_id(ids) <= i64::MAX,
        ids.len() > 0 ==> next_id(ids) >= i64::MIN + 1,
        forall|i: int| 0 <= i < ids.len() ==> ids[i] < next_id(ids),
    decreases ids.len(),
{
    if ids.len() > 0 {
        lemma_next_id_bounds(ids.drop_last());
        assert forall|i: int| 0 <= i < ids.len() implies ids[i] < next_id(ids) by {
            if i < ids.len() - 1 {
                assert(ids[i] == ids.drop_last()[i]);
            }
        }
    }
}

fn compute_next_id(ids: Ghost<Seq<i64>>, rows: &Vec<StoredSong>) -> (r: i64)
    requires
        ids@ == song_ids(rows_view(rows@)),
        ids_below_max(ids@),
    ensures
        r == next_id(ids@),
{
    let mut best: i64 = 1;
    let mut i: usize = 0;
    while i < rows.len()
        invariant
            i <= rows@.len(),
            ids@ == song_ids(rows_view(rows@)),
            ids_below_max(ids@),
            best == next_id(ids@.take(i as int)),
        decreases rows@.len() - i,
    {
        assert(ids@.take(i + 1).drop_last() =~= ids@.take(i as int));
        assert(ids@[i as int] == rows@[i as int].id);
        let id = rows[i].id;
        if i == 0 || id + 1 > best {
            best = id + 1;
        }
        i = i + 1;
    }
    assert(ids@.take(rows@.len() as int) =~= ids@);
    best
}

/// The position of the first row saved under this name, artist and owner.
pub open spec fn first_song_match(rows: Seq<StoredSongView>, name: Seq<char>, artist: Seq<char>, user_id: i64) -> Option<int>
    decreases rows.len(),
{
    if rows.len() == 0 {
        None
    } else {
        match first_song_match(rows.drop_last(), name, artist, user_id) {
            Some(i) => Some(i),
            None => {
                let r = rows.last();
                if r.name == name && r.artist == artist && r.user_id == user_id {
                    Some(rows.len() - 1)
                } else {
                    None
                }
            },
        }
    }
}

proof fn lemma_first_song_match(rows: Seq<StoredSongView>, name: Seq<char>, artist: Seq<char>, user_id: i64, i: int)
    requires
        0 <= i <= rows.len(),
        forall|j: int|
            0 <= j < i ==> !(#[trigger] rows[j].name == name && rows[j].artist == artist
                && rows[j].user_id == user_id),
    ensures
        first_song_match(rows.take(i), name, artist, user_id) is None,
    decreases i,
{
    if i > 0 {
        assert(rows.take(i).drop_last() =~= rows.take(i - 1));
        lemma_first_song_match(rows, name, artist, user_id, i - 1);
    }
}

proof fn lemma_first_song_match_found(rows: Seq<StoredSongView>, name: Seq<char>, artist: Seq<char>, user_id: i64, i: int)
    requires
        0 <= i < rows.len(),
        first_song_match(rows.take(i), name, artist, user_id) is None,
        rows[i].name == name && rows[i].artist == artist && rows[i].user_id == user_id,
    ensures
        first_song_match(rows, name, artist, user_id) == Some(i),
    decreases rows.len() - i,
{
    if i + 1 == rows.len() {
        assert(rows.drop_last() =~= rows.take(i));
    } else {
        assert(rows.drop_last().take(i) =~= rows.take(i));
        lemma_first_song_match_found(rows.drop_last(), name, artist, user_id, i);
    }
}

/// A row with the saved content of `new` but the identity (id, name,
/// artist, owner) of `old`.
pub open spec fn updated_row(old: StoredSongView, new: StoredSongView) -> StoredSongView {
    StoredSongView {
        id: old.id,
        name: old.name,
        artist: old.artist,
        key: new.key,
        parts_json: new.parts_json,
        instruments_json: new.instruments_json,
        vocals_notes: new.vocals_notes,
        user_id: old.user_id,
        instrument_parts_json: new.instrument_parts_json,
        instrument_capos_json: new.instrument_capos_json,
        pdf_settings_json: new.pdf_settings_json,
    }
}

/// The rows after saving `song` for `user_id`, and the id it is saved
/// under: the first row with the same name, artist and owner gets the new
/// content and keeps its id; otherwise a row with a fresh id is appended.
pub open spec fn saved(rows: Seq<StoredSongView>, song: StoredSongView, user_id: i64) -> (Seq<StoredSongView>, int) {
    match first_song_match(rows, song.name, song.artist, user_id) {
        Some(i) => (rows.update(i, updated_row(rows[i], song)), rows[i].id as int),
        None => {
            let id = next_id(song_ids(rows));
            (rows.push(StoredSongView { id: id as i64, user_id, ..song }), id)
        },
    }
}

/// Saves `song` for `user_id` (its own `id` and `user_id` are not used):
/// updates the row with the same name, artist and owner, or appends a row
/// with an id one above the largest. Returns the id of the row.
pub fn save_song_row(rows: &mut Vec<StoredSong>, song: StoredSong, user_id: i64) -> (r: i64)
    requires
        ids_below_max(song_ids(rows_view(old(rows)@))),
    ensures
        rows_view(final(rows)@) == saved(rows_view(old(rows)@), song@, user_id).0,
        r == saved(rows_view(old(rows)@), song@, user_id).1,
{
    let ghost rv = rows_view(rows@);
    let mut i: usize = 0;
    while i < rows.len()
        invariant
            i <= rows@.len(),
            rv == rows_view(rows@),
            rows@ == old(rows)@,
            forall|j: int|
                0 <= j < i ==> !(#[trigger] rv[j].name == song@.name && rv[j].artist == song@.artist
                    && rv[j].user_id == user_id),
        decreases rows@.len() - i,
    {
        let row = &rows[i];
        if str_eq(row.name.as_str(), song.name.as_str()) && str_eq(
            row.artist.as_str(),
            song.artist.as_str(),
        ) && row.user_id == user_id {
            proof {
                lemma_first_song_match(rv, song@.name, song@.artist, user_id, i as int);
                lemma_first_song_match_found(rv, song@.name, song@.artist, user_id, i as int);
            }
            let id = row.id;
            let new_row = StoredSong {
                id,
                name: row.name.clone(),
                artist: row.artist.clone(),
                key: song.key,
                parts_json: song.parts_json,
                instruments_json: song.instruments_json,
                vocals_notes: song.vocals_notes,
                user_id: row.user_id,
                instrument_parts_json: song.instrument_parts_json,
                instrument_capos_json: song.instrument_capos_json,
                pdf_settings_json: song.pdf_settings_json,
            };
            rows.set(i, new_row);
            assert(rows_view(rows@) =~= rv.update(i as int, updated_row(rv[i as int], song@)));
            return id;
        }
        i = i + 1;
    }
    proof {
        lemma_first_song_match(rv, song@.name, song@.artist, user_id, rv.len() as int);
        assert(rv.take(rv.len() as int) =~= rv);
    }
    let id = compute_next_id(Ghost(song_ids(rv)), rows);
    let ghost sv = song@;
    let new_row = StoredSong { id, user_id, ..song };
    assert(new_row@ == (StoredSongView { id: id, user_id, ..sv }));
    rows.push(new_row);
    assert(rows_view(rows@) =~= rv.push(new_row@));
    id
}

/// No two rows share an id.
pub open spec fn ids_distinct(rows: Seq<StoredSongView>) -> bool {
    forall|i: int, j: int| 0 <= i < j < rows.len() ==> rows[i].id != rows[j].id
}

/// Whether row `r` holds `song` as saved by `user_id`: its name, artist and
/// owner, and all of its saved content.
pub open spec fn holds_song(r: StoredSongView, song: StoredSongView, user_id: i64) -> bool {
    &&& r.name == song.name
    &&& r.artist == song.artist
    &&& r.user_id == user_id
    &&& r.key == song.key
    &&& r.parts_json == song.parts_json
    &&& r.instruments_json == song.instruments_json
    &&& r.vocals_notes == song.vocals_notes
    &&& r.instrument_parts_json == song.instrument_parts_json
    &&& r.instrument_capos_json == song.instrument_capos_json
    &&& r.pdf_settings_json == song.pdf_settings_json
}

proof fn lemma_first_song_match_some(rows: Seq<StoredSongView>, name: Seq<char>, artist: Seq<char>, user_id: i64)
    ensures
        first_song_match(rows, name, artist, user_id) matches Some(i) ==> {
            &&& 0 <= i < rows.len()
            &&& rows[i].name == name && rows[i].artist == artist && rows[i].user_id == user_id
            &&& first_song_match(rows.take(i), name, artist, user_id) is None
        },
    decreases rows.len(),
{
    if rows.len() > 0 {
        lemma_first_song_match_some(rows.drop_last(), name, artist, user_id);
        match first_song_match(rows.drop_last(), name, artist, user_id) {
            Some(i) => {
                assert(rows.drop_last().take(i) =~= rows.take(i));
            },
            None => {
                assert(rows.drop_last() =~= rows.take(rows.len() - 1));
            },
        }
    }
}

proof fn lemma_song_ids_view(rows: Seq<StoredSongView>)
    ensures
        song_ids(rows).len() == rows.len(),
        forall|i: int| 0 <= i < rows.len() ==> #[trigger] song_ids(rows)[i] == rows[i].id,
{
}

/// Saving keeps the ids distinct, and what was saved reads back under the
/// returned id: exactly one row has that id, and it holds the saved song
/// under the saving user.
pub proof fn lemma_save_then_read(rows: Seq<StoredSongView>, song: StoredSongView, user_id: i64)
    requires
        ids_distinct(rows),
        ids_below_max(song_ids(rows)),
    ensures
        ids_distinct(saved(rows, song, user_id).0),
        exists|i: int|
            0 <= i < saved(rows, song, user_id).0.len() && #[trigger] saved(rows, song, user_id).0[i].id
                == saved(rows, song, user_id).1,
        forall|i: int|
            0 <= i < saved(rows, song, user_id).0.len() && #[trigger] saved(rows, song, user_id).0[i].id
                == saved(rows, song, user_id).1 ==> holds_song(saved(rows, song, user_id).0[i], song, user_id),
{
    lemma_first_song_match_some(rows, song.name, song.artist, user_id);
    let after = saved(rows, song, user_id).0;
    let id = saved(rows, song, user_id).1;
    match first_song_match(rows, song.name, song.artist, user_id) {
        Some(i) => {
            assert forall|k: int| 0 <= k < after.len() implies #[trigger] after[k].id == rows[k].id by {
                if k != i {
                    assert(after[k] == rows[k]);
                }
            }
            assert(after[i].id == id);
            assert forall|k: int| 0 <= k < after.len() && #[trigger] after[k].id == id implies holds_song(
                after[k],
                song,
                user_id,
            ) by {
                if k != i {
                    assert(rows[k].id == rows[i].id);
                    if k < i {
                        assert(rows[k].id != rows[i].id);
                    } else {
                        assert(rows[i].id != rows[k].id);
                    }
                }
            }
        },
        None => {
            lemma_song_ids_view(rows);
            lemma_next_id_bounds(song_ids(rows));
            let n = rows.len() as int;
            assert(after[n].id == id);
            assert forall|k: int| 0 <= k < n implies #[trigger] after[k].id < id by {
                assert(after[k] == rows[k]);
                assert(song_ids(rows)[k] == rows[k].id);
            }
            assert forall|k: int| 0 <= k < after.len() && #[trigger] after[k].id == id implies holds_song(
                after[k],
                song,
                user_id,
            ) by {
                if k < n {
                    assert(after[k].id < id);
                }
            }
            assert forall|a: int, b: int| 0 <= a < b < after.len() implies after[a].id != after[b].id by {
                if b < n {
                    assert(after[a] == rows[a]);
                    assert(after[b] == rows[b]);
                } else {
                    assert(after[a].id < id);
                }
            }
        },
    }
}

/// Saving a song under the same name, artist and owner a second time
/// updates the row it was first saved to: the number of rows stays the
/// same and the id is the same.
pub proof fn lemma_save_twice_updates(
    rows: Seq<StoredSongView>,
    first: StoredSongView,
    second: StoredSongView,
    user_id: i64,
)
    requires
        ids_below_max(song_ids(rows)),
        second.name == first.name,
        second.artist == first.artist,
    ensures
        saved(saved(rows, first, user_id).0, second, user_id).0.len() == saved(rows, first, user_id).0.len(),
        saved(saved(rows, first, user_id).0, second, user_id).1 == saved(rows, first, user_id).1,
{
    lemma_first_song_match_some(rows, first.name, first.artist, user_id);
    let after = saved(rows, first, user_id).0;
    match first_song_match(rows, first.name, first.artist, user_id) {
        Some(i) => {
            assert(after.take(i) =~= rows.take(i));
            lemma_first_song_match_found(after, first.name, first.artist, user_id, i);
            assert(first_song_match(after, second.name, second.artist, user_id) == Some(i));
            assert(after[i].id == rows[i].id);
        },
        None => {
            lemma_song_ids_view(rows);
            lemma_next_id_bounds(song_ids(rows));
            let n = rows.len() as int;
            assert(after.take(n) =~= rows);
            lemma_first_song_match_found(after, first.name, first.artist, user_id, n);
            assert(first_song_match(after, second.name, second.artist, user_id) == Some(n));
            assert(after[n].id == saved(rows, first, user_id).1);
        },
    }
}

/// After deleting an id no row has it, and every other row is kept.
pub proof fn lemma_delete_then_absent(rows: Seq<StoredSongView>, id: i64)
    ensures
        forall|i: int| 0 <= i < without_id(rows, id).len() ==> #[trigger] without_id(rows, id)[i].id != id,
        forall|i: int| 0 <= i < rows.len() && rows[i].id != id ==> without_id(rows, id).contains(#[trigger] rows[i]),
{
    let keep = |r: StoredSongView| r.id != id;
    assert forall|i: int| 0 <= i < without_id(rows, id).len() implies #[trigger] without_id(rows, id)[i].id != id by {
        rows.lemma_filter_pred(keep, i);
    }
    assert forall|i: int| 0 <= i < rows.len() && rows[i].id != id implies without_id(rows, id).contains(#[trigger] rows[i]) by {
        rows.lemma_filter_contains(keep, i);
    }
}

/// A user sees exactly the rows they own and the shared ones.
pub proof fn lemma_visible_rows(rows: Seq<StoredSongView>, user_id: i64)
    ensures
        forall|i: int|
            0 <= i < visible_rows(rows, user_id).len() ==> #[trigger] visible_rows(rows, user_id)[i].user_id == user_id
                || visible_rows(rows, user_id)[i].user_id == 0,
        forall|i: int|
            0 <= i < rows.len() && (rows[i].user_id == user_id || rows[i].user_id == 0) ==> visible_rows(
                rows,
                user_id,
            ).contains(#[trigger] rows[i]),
{
    let seen = |r: StoredSongView| r.user_id == user_id || r.user_id == 0;
    assert forall|i: int| 0 <= i < visible_rows(rows, user_id).len() implies #[trigger] visible_rows(rows, user_id)[i].user_id == user_id
        || visible_rows(rows, user_id)[i].user_id == 0 by {
        rows.lemma_filter_pred(seen, i);
    }
    assert forall|i: int| 0 <= i < rows.len() && (rows[i].user_id == user_id || rows[i].user_id == 0) implies visible_rows(
        rows,
        user_id,
    ).contains(#[trigger] rows[i]) by {
        rows.lemma_filter_contains(seen, i);
    }
}

/// The rows a user sees: their own and the shared ones (owner 0), in order.
pub open spec fn visible_rows(rows: Seq<StoredSongView>, user_id: i64) -> Seq<StoredSongView> {
    rows.filter(|r: StoredSongView| r.user_id == user_id || r.user_id == 0)
}

/// Copies of the rows `user_id` may see: their own and the shared ones.
pub fn visible_songs(rows: &Vec<StoredSong>, user_id: i64) -> (r: Vec<StoredSong>)
    ensures
        rows_view(r@) == visible_rows(rows_view(rows@), user_id),
{
    let ghost rv = rows_view(rows@);
    let mut out: Vec<StoredSong> = Vec::new();
    let mut i: usize = 0;
    while i < rows.len()
        invariant
            i <= rows@.len(),
            rv == rows_view(rows@),
            rows_view(out@) == visible_rows(rv.take(i as int), user_id),
        decreases rows@.len() - i,
    {
        proof {
            reveal_with_fuel(Seq::filter, 1);
        }
        assert(rv.take(i + 1).drop_last() =~= rv.take(i as int));
        if rows[i].user_id == user_id || rows[i].user_id == 0 {
            out.push(rows[i].copy());
            assert(rows_view(out@) =~= visible_rows(rv.take(i as int), user_id).push(rv[i as int]));
        }
        i = i + 1;
    }
    assert(rv.take(rows@.len() as int) =~= rv);
    out
}

/// The position of the first row with this id.
pub open spec fn first_with_id(rows: Seq<StoredSongView>, id: i64) -> Option<int> {
    if exists|i: int| 0 <= i < rows.len() && rows[i].id == id {
        Some(choose|i: int| 0 <= i < rows.len() && rows[i].id == id && forall|j: int| 0 <= j < i ==> rows[j].id != id)
    } else {
        None
    }
}

/// The first row with this id, if any.
pub fn find_song(rows: &Vec<StoredSong>, id: i64) -> (r: Option<&StoredSong>)
    ensures
        match r {
            Some(s) => exists|i: int|
                0 <= i < rows@.len() && rows@[i]@ == s@ && s.id == id && forall|j: int|
                    0 <= j < i ==> rows@[j].id != id,
            None => forall|i: int| 0 <= i < rows@.len() ==> rows@[i].id != id,
        },
{
    let mut i: usize = 0;
    while i < rows.len()
        invariant
            i <= rows@.len(),
            forall|j: int| 0 <= j < i ==> rows@[j].id != id,
        decreases rows@.len() - i,
    {
        if rows[i].id == id {
            return Some(&rows[i]);
        }
        i = i + 1;
    }
    None
}

/// The rows whose id is not `id`, in order.
pub open spec fn without_id(rows: Seq<StoredSongView>, id: i64) -> Seq<StoredSongView> {
    rows.filter(|r: StoredSongView| r.id != id)
}

/// Removes every row with this id, keeping the others in order.
pub fn delete_song_rows(rows: &mut Vec<StoredSong>, id: i64)
    ensures
        rows_view(final(rows)@) == without_id(rows_view(old(rows)@), id),
{
    let ghost rv = rows_view(rows@);
    let mut kept: Vec<StoredSong> = Vec::new();
    let mut i: usize = 0;
    while i < rows.len()
        invariant
            i <= rows@.len(),
            rv == rows_view(rows@),
            rows_view(kept@) == without_id(rv.take(i as int), id),
        decreases rows@.len() - i,
    {
        proof {
            reveal_with_fuel(Seq::filter, 1);
        }
        assert(rv.take(i + 1).drop_last() =~= rv.take(i as int));
        if rows[i].id != id {
            kept.push(rows[i].copy());
            assert(rows_view(kept@) =~= without_id(rv.take(i as int), id).push(rv[i as int]));
        }
        i = i + 1;
    }
    assert(rv.take(rows@.len() as int) =~= rv);
    *rows = kept;
}

// ── Server rules ─────────────────────────────────────────────────────────────

/// Whether `user_id` may load row `r`: it is theirs or shared (owner 0).
pub open spec fn may_load(r: StoredSongView, user_id: i64) -> bool {
    r.user_id == user_id || r.user_id == 0
}

/// The first row with this id that `user_id` may load, if any.
pub fn find_visible_song(rows: &Vec<StoredSong>, id: i64, user_id: i64) -> (r: Option<&StoredSong>)
    ensures
        match r {
            Some(s) => exists|i: int|
                0 <= i < rows@.len() && rows@[i]@ == s@ && s.id == id && may_load(s@, user_id)
                    && forall|j: int| 0 <= j < i ==> !(rows@[j].id == id && may_load(rows@[j]@, user_id)),
            None => forall|i: int| 0 <= i < rows@.len() ==> !(rows@[i].id == id && may_load(rows@[i]@, user_id)),
        },
{
    let mut i: usize = 0;
    while i < rows.len()
        invariant
            i <= rows@.len(),
            forall|j: int| 0 <= j < i ==> !(rows@[j].id == id && may_load(rows@[j]@, user_id)),
        decreases rows@.len() - i,
    {
        if rows[i].id == id && (rows[i].user_id == user_id || rows[i].user_id == 0) {
            return Some(&rows[i]);
        }
        i = i + 1;
    }
    None
}

/// The message when a song cannot be loaded: "Song <id> not found".
pub fn song_not_found(id: i64) -> (r: String)
    ensures
        r@ == "Song "@ + signed_decimal(id as int) + " not found"@,
{
    let mut m = owned("Song ");
    push_signed(&mut m, id);
    m.append(" not found");
    m
}

/// The rows other than `user_id`'s own row(s) with this id, in order.
pub open spec fn without_owned(rows: Seq<StoredSongView>, id: i64, user_id: i64) -> Seq<StoredSongView> {
    rows.filter(|r: StoredSongView| !(r.id == id && r.user_id == user_id))
}

/// Deletes `user_id`'s own song with this id: shared songs and other
/// users' songs are kept. Returns how many rows were removed.
pub fn delete_own_song(rows: &mut Vec<StoredSong>, id: i64, user_id: i64) -> (r: usize)
    ensures
        rows_view(final(rows)@) == without_owned(rows_view(old(rows)@), id, user_id),
        r == old(rows)@.len() - final(rows)@.len(),
{
    let ghost rv = rows_view(rows@);
    let mut kept: Vec<StoredSong> = Vec::new();
    let mut i: usize = 0;
    while i < rows.len()
        invariant
            i <= rows@.len(),
            rv == rows_view(rows@),
            rows_view(kept@) == without_owned(rv.take(i as int), id, user_id),
            kept@.len() <= i,
        decreases rows@.len() - i,
    {
        proof {
            reveal_with_fuel(Seq::filter, 1);
        }
        assert(rv.take(i + 1).drop_last() =~= rv.take(i as int));
        if !(rows[i].id == id && rows[i].user_id == user_id) {
            kept.push(rows[i].copy());
            assert(rows_view(kept@) =~= without_owned(rv.take(i as int), id, user_id).push(rv[i as int]));
        }
        i = i + 1;
    }
    assert(rv.take(rows@.len() as int) =~= rv);
    let removed = rows.len() - kept.len();
    *rows = kept;
    removed
}

/// The message when nothing was deleted: "Song <id> not found or not owned
/// by you".
pub fn song_not_deleted(id: i64) -> (r: String)
    ensures
        r@ == "Song "@ + signed_decimal(id as int) + " not found or not owned by you"@,
{
    let mut m = owned("Song ");
    push_signed(&mut m, id);
    m.append(" not found or not owned by you");
    m
}

/// Deleting removes exactly the caller's own rows with that id: every
/// other row, shared songs and other users' songs among them, is kept.
pub proof fn lemma_delete_own_only(rows: Seq<StoredSongView>, id: i64, user_id: i64)
    ensures
        forall|i: int|
            0 <= i < without_owned(rows, id, user_id).len() ==> !(#[trigger] without_owned(rows, id, user_id)[i].id
                == id && without_owned(rows, id, user_id)[i].user_id == user_id),
        forall|i: int|
            0 <= i < rows.len() && !(rows[i].id == id && rows[i].user_id == user_id) ==> without_owned(
                rows,
                id,
                user_id,
            ).contains(#[trigger] rows[i]),
{
    let keep = |r: StoredSongView| !(r.id == id && r.user_id == user_id);
    assert forall|i: int| 0 <= i < without_owned(rows, id, user_id).len() implies !(#[trigger] without_owned(rows, id, user_id)[i].id
        == id && without_owned(rows, id, user_id)[i].user_id == user_id) by {
        rows.lemma_filter_pred(keep, i);
    }
    assert forall|i: int| 0 <= i < rows.len() && !(rows[i].id == id && rows[i].user_id == user_id) implies without_owned(
        rows,
        id,
        user_id,
    ).contains(#[trigger] rows[i]) by {
        rows.lemma_filter_contains(keep, i);
    }
}

// ── Users ────────────────────────────────────────────────────────────────────

/// A registered user as the store keeps it.
#[derive(Debug, Clone, PartialEq)]
pub struct StoredUser {
    pub id: i64,
    pub username: String,
    pub password_hash: String,
}

/// The ids of the users.
pub open spec fn user_ids(users: Seq<StoredUser>) -> Seq<i64> {
    users.map_values(|u: StoredUser| u.id)
}

/// Whether a user with this name exists.
pub open spec fn name_taken(users: Seq<StoredUser>, username: Seq<char>) -> bool {
    exists|i: int| 0 <= i < users.len() && #[trigger] users[i].username@ == username
}

fn next_user_id(users: &Vec<StoredUser>) -> (r: i64)
    requires
        ids_below_max(user_ids(users@)),
    ensures
        r == next_id(user_ids(users@)),
{
    let ghost ids = user_ids(users@);
    let mut best: i64 = 1;
    let mut i: usize = 0;
    while i < users.len()
        invariant
            i <= users@.len(),
            ids == user_ids(users@),
            ids_below_max(ids),
            best == next_id(ids.take(i as int)),
        decreases users@.len() - i,
    {
        assert(ids.take(i + 1).drop_last() =~= ids.take(i as int));
        assert(ids[i as int] == users@[i as int].id);
        let id = users[i].id;
        if i == 0 || id + 1 > best {
            best = id + 1;
        }
        i = i + 1;
    }
    assert(ids.take(users@.len() as int) =~= ids);
    best
}

/// Appends a user with this name and stored hash under an id one above the
/// largest (1 for the first user), and returns that id.
pub fn add_user(users: &mut Vec<StoredUser>, username: &str, password_hash: String) -> (r: i64)
    requires
        ids_below_max(user_ids(old(users)@)),
    ensures
        r == next_id(user_ids(old(users)@)),
        final(users)@.len() == old(users)@.len() + 1,
        final(users)@.take(old(users)@.len() as int) == old(users)@,
        final(users)@.last().id == r,
        final(users)@.last().username@ == username@,
        final(users)@.last().password_hash@ == password_hash@,
{
    let id = next_user_id(users);
    users.push(StoredUser { id, username: owned(username), password_hash });
    assert(users@.take(old(users)@.len() as int) =~= old(users)@);
    id
}

/// Registers `username` with a hash of `password`: refused when the name is
/// taken, otherwise appended with an id one above the largest.
pub fn create_user(users: &mut Vec<StoredUser>, username: &str, password: &str) -> (r: Result<i64, String>)
    requires
        ids_below_max(user_ids(old(users)@)),
    ensures
        name_taken(old(users)@, username@) ==> (r matches Err(m) && m@ == "Email '"@ + username@
            + "' is already registered"@),
        name_taken(old(users)@, username@) || r is Err ==> final(users)@ == old(users)@,
        r matches Err(m) ==> (name_taken(old(users)@, username@) && m@ == "Email '"@ + username@
            + "' is already registered"@) || (!name_taken(old(users)@, username@) && (starts_with(
            m@,
            "RNG error: "@,
        ) || (starts_with(m@, "Hash error: "@) && encode_utf8(password@).len() > 0xFFFF_FFFF))),
        r matches Ok(id) ==> {
            &&& id == next_id(user_ids(old(users)@))
            &&& final(users)@.len() == old(users)@.len() + 1
            &&& final(users)@.take(old(users)@.len() as int) == old(users)@
            &&& final(users)@.last().id == id
            &&& final(users)@.last().username@ == username@
            &&& is_hash_of(password@, final(users)@.last().password_hash@)
        },
{
    let mut i: usize = 0;
    while i < users.len()
        invariant
            i <= users@.len(),
            forall|j: int| 0 <= j < i ==> users@[j].username@ != username@,
        decreases users@.len() - i,
    {
        if str_eq(users[i].username.as_str(), username) {
            let mut m = concat2("Email '", username);
            m.append("' is already registered");
            return Err(m);
        }
        i = i + 1;
    }
    let hash = match hash_password(password) {
        Ok(h) => h,
        Err(e) => return Err(e),
    };
    Ok(add_user(users, username, hash))
}

/// A user just registered can log in: in the users after a successful
/// `create_user`, the first user with that name is the new one, under the
/// new id, and the password verifies against its stored hash.
pub proof fn lemma_register_then_login(
    users: Seq<StoredUser>,
    after: Seq<StoredUser>,
    username: Seq<char>,
    password: Seq<char>,
    id: i64,
)
    requires
        !name_taken(users, username),
        after.len() == users.len() + 1,
        after.take(users.len() as int) == users,
        after.last().id == id,
        after.last().username@ == username,
        is_hash_of(password, after.last().password_hash@),
    ensures
        after[users.len() as int].username@ == username,
        after[users.len() as int].id == id,
        verifies(password, after[users.len() as int].password_hash@),
        forall|j: int| 0 <= j < users.len() ==> #[trigger] after[j].username@ != username,
{
    crate::auth::lemma_hash_then_verify(password, after.last().password_hash@);
    assert forall|j: int| 0 <= j < users.len() implies #[trigger] after[j].username@ != username by {
        assert(after.take(users.len() as int)[j] == after[j]);
        assert(users[j] == after[j]);
    }
}

/// The id and name of the first user with this name, when the password
/// verifies against their stored hash.
pub fn verify_user(users: &Vec<StoredUser>, username: &str, password: &str) -> (r: Option<(i64, String)>)
    ensures
        match r {
            Some((id, name)) => exists|i: int|
                0 <= i < users@.len() && users@[i].username@ == username@ && users@[i].id == id
                    && name@ == username@ && verifies(password@, users@[i].password_hash@)
                    && forall|j: int| 0 <= j < i ==> users@[j].username@ != username@,
            None => forall|i: int|
                0 <= i < users@.len() && users@[i].username@ == username@ && (forall|j: int|
                    0 <= j < i ==> users@[j].username@ != username@) ==> !verifies(
                    password@,
                    users@[i].password_hash@,
                ),
        },
{
    let mut i: usize = 0;
    while i < users.len()
        invariant
            i <= users@.len(),
            forall|j: int| 0 <= j < i ==> users@[j].username@ != username@,
        decreases users@.len() - i,
    {
        if str_eq(users[i].username.as_str(), username) {
            if verify_password(password, users[i].password_hash.as_str()) {
                return Some((users[i].id, users[i].username.clone()));
            } else {
                assert forall|k: int|
                    0 <= k < users@.len() && users@[k].username@ == username@ && (forall|j: int|
                        0 <= j < k ==> users@[j].username@ != username@) implies !verifies(
                    password@,
                    users@[k].password_hash@,
                ) by {
                    if k != i {
                        if k < i {
                        } else {
                            assert(users@[i as int].username@ == username@);
                        }
                    }
                }
                return None;
            }
        }
        i = i + 1;
    }
    None
}

/// The name of the first user with this id, or the empty name when there
/// is none (the name shown beside a user's songs in the library).
pub open spec fn user_name_of(users: Seq<StoredUser>, id: i64) -> Seq<char>
    decreases users.len(),
{
    if users.len() == 0 {
        seq![]
    } else if users[0].id == id {
        users[0].username@
    } else {
        user_name_of(users.drop_first(), id)
    }
}

/// The name of the user with this id (see `user_name_of`).
pub fn user_name(users: &Vec<StoredUser>, id: i64) -> (r: String)
    ensures
        r@ == user_name_of(users@, id),
{
    let mut i: usize = 0;
    assert(users@.skip(0) =~= users@);
    while i < users.len()
        invariant
            i <= users@.len(),
            user_name_of(users@, id) == user_name_of(users@.skip(i as int), id),
        decreases users@.len() - i,
    {
        assert(users@.skip(i as int).drop_first() =~= users@.skip(i + 1));
        if users[i].id == id {
            return users[i].username.clone();
        }
        i = i + 1;
    }
    assert(users@.skip(i as int).len() == 0);
    String::new()
}

// ── Login form ───────────────────────────────────────────────────────────────

/// Whether a (normalised) address has an `@` with a `.` somewhere after the
/// first `@`.
pub open spec fn form_email_ok(u: Seq<char>) -> bool {
    has_char(u, '@') && has_char(after_sep(u, '@'), '.')
}

/// The login form's check of what was typed: the address normalised
/// (trimmed, lowercased) when both fields are filled in and the address
/// looks valid; otherwise the message shown under the form.
pub open spec fn form_check(email: Seq<char>, password: Seq<char>) -> Result<Seq<char>, Seq<char>> {
    let u = unicode_lowercase(trim(email));
    if u.len() == 0 || password.len() == 0 {
        Err("Please fill in all fields."@)
    } else if !form_email_ok(u) {
        Err("Please enter a valid email address."@)
    } else {
        Ok(u)
    }
}

/// Checks the login / registration form (see `form_check`).
pub fn check_login_form(email: &str, password: &str) -> (r: Result<String, String>)
    ensures
        match (r, form_check(email@, password@)) {
            (Ok(a), Ok(b)) => a@ == b,
            (Err(a), Err(b)) => a@ == b,
            _ => false,
        },
{
    let u = normalize_email(email);
    if u.unicode_len() == 0 || password.unicode_len() == 0 {
        return Err(owned("Please fill in all fields."));
    }
    let n = u.unicode_len();
    let mut i: usize = 0;
    while i < n && u.get_char(i) != '@'
        invariant
            n == u@.len(),
            i <= n,
            forall|j: int| 0 <= j < i ==> u@[j] != '@',
        decreases n - i,
    {
        i = i + 1;
    }
    if i == n {
        assert(!has_char(u@, '@'));
        return Err(owned("Please enter a valid email address."));
    }
    proof {
        crate::staff::lemma_before_sep(u@, '@', i as int);
    }
    let rest = u.as_str().substring_char(i + 1, n);
    assert(rest@ =~= after_sep(u@, '@'));
    if contains_char(rest, '.') {
        Ok(u)
    } else {
        Err(owned("Please enter a valid email address."))
    }
}

// ── Demo song ────────────────────────────────────────────────────────────────

/// A chord with no bass note.
pub open spec fn plain_chord(root: Seq<char>, quality: ChordQuality) -> ChordView {
    ChordView { root, quality, bass_note: None }
}

/// The demo song shown when no saved song can be loaded: "Let It Be" by
/// The Beatles in C Major, with a verse (C G Am F), a chorus (F C G F) and
/// a bridge (G F C).
pub open spec fn example_song_view() -> SongView {
    SongView {
        parts: seq![
            chord_part("Verse"@, seq![
                plain_chord("C"@, ChordQuality::Major),
                plain_chord("G"@, ChordQuality::Major),
                plain_chord("A"@, ChordQuality::Minor),
                plain_chord("F"@, ChordQuality::Major),
            ]),
            chord_part("Chorus"@, seq![
                plain_chord("F"@, ChordQuality::Major),
                plain_chord("C"@, ChordQuality::Major),
                plain_chord("G"@, ChordQuality::Major),
                plain_chord("F"@, ChordQuality::Major),
            ]),
            chord_part("Bridge"@, seq![
                plain_chord("G"@, ChordQuality::Major),
                plain_chord("F"@, ChordQuality::Major),
                plain_chord("C"@, ChordQuality::Major),
            ]),
        ],
        ..new_song("Let It Be"@, "C Major"@, "The Beatles"@)
    }
}

/// The demo song (see `example_song_view`).
pub fn example_song() -> (r: Song)
    ensures
        r@ == example_song_view(),
{
    let verse = vec![
        Chord::new("C", ChordQuality::Major),
        Chord::new("G", ChordQuality::Major),
        Chord::new("A", ChordQuality::Minor),
        Chord::new("F", ChordQuality::Major),
    ];
    let chorus = vec![
        Chord::new("F", ChordQuality::Major),
        Chord::new("C", ChordQuality::Major),
        Chord::new("G", ChordQuality::Major),
        Chord::new("F", ChordQuality::Major),
    ];
    let bridge = vec![
        Chord::new("G", ChordQuality::Major),
        Chord::new("F", ChordQuality::Major),
        Chord::new("C", ChordQuality::Major),
    ];
    assert(verse@.map_values(|c: Chord| c@) =~= seq![
        plain_chord("C"@, ChordQuality::Major),
        plain_chord("G"@, ChordQuality::Major),
        plain_chord("A"@, ChordQuality::Minor),
        plain_chord("F"@, ChordQuality::Major),
    ]);
    assert(chorus@.map_values(|c: Chord| c@) =~= seq![
        plain_chord("F"@, ChordQuality::Major),
        plain_chord("C"@, ChordQuality::Major),
        plain_chord("G"@, ChordQuality::Major),
        plain_chord("F"@, ChordQuality::Major),
    ]);
    assert(bridge@.map_values(|c: Chord| c@) =~= seq![
        plain_chord("G"@, ChordQuality::Major),
        plain_chord("F"@, ChordQuality::Major),
        plain_chord("C"@, ChordQuality::Major),
    ]);
    let r = Song::new("Let It Be", "C Major", "The Beatles").with_part("Verse", verse).with_part(
        "Chorus",
        chorus,
    ).with_part("Bridge", bridge);
    assert(r@.parts =~= example_song_view().parts);
    r
}

} // verus!
