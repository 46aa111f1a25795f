use chord_shifter::store::{
    add_user, check_login_form, create_user, delete_song_rows, find_song, save_song_row, verify_user,
    delete_own_song, example_song, find_visible_song, song_not_deleted, song_not_found, user_name,
    visible_songs, StoredSong, StoredUser,
};

fn row(name: &str, artist: &str, key: &str) -> StoredSong {
    StoredSong {
        id: 0,
        name: name.to_string(),
        artist: artist.to_string(),
        key: key.to_string(),
        parts_json: "[]".to_string(),
        instruments_json: "[]".to_string(),
        vocals_notes: String::new(),
        user_id: 0,
        instrument_parts_json: "{}".to_string(),
        instrument_capos_json: "{}".to_string(),
        pdf_settings_json: "{}".to_string(),
    }
}

#[test]
fn saving_assigns_ids_one_above_the_largest() {
    let mut rows = Vec::new();
    assert_eq!(save_song_row(&mut rows, row("A", "X", "C"), 1), 1);
    assert_eq!(save_song_row(&mut rows, row("B", "X", "C"), 1), 2);
    rows[0].id = 10;
    assert_eq!(save_song_row(&mut rows, row("C", "X", "C"), 1), 11);
    assert_eq!(rows.len(), 3);
}

#[test]
fn saving_again_updates_in_place() {
    let mut rows = Vec::new();
    let id = save_song_row(&mut rows, row("Hey Jude", "Beatles", "F Major"), 3);
    let again = save_song_row(&mut rows, row("Hey Jude", "Beatles", "G Major"), 3);
    assert_eq!(id, again);
    assert_eq!(rows.len(), 1);
    assert_eq!(rows[0].key, "G Major");
    assert_eq!(rows[0].user_id, 3);
    // Another user's song with the same name is a new row.
    let other = save_song_row(&mut rows, row("Hey Jude", "Beatles", "A Major"), 4);
    assert_ne!(other, id);
    assert_eq!(rows.len(), 2);
}

#[test]
fn users_see_their_songs_and_shared_ones() {
    let mut rows = Vec::new();
    save_song_row(&mut rows, row("Shared", "X", "C"), 0);
    save_song_row(&mut rows, row("Mine", "X", "C"), 1);
    save_song_row(&mut rows, row("Theirs", "X", "C"), 2);
    let names: Vec<String> = visible_songs(&rows, 1).into_iter().map(|r| r.name).collect();
    assert_eq!(names, ["Shared", "Mine"]);
}

#[test]
fn find_and_delete_by_id() {
    let mut rows = Vec::new();
    let a = save_song_row(&mut rows, row("A", "X", "C"), 1);
    let b = save_song_row(&mut rows, row("B", "X", "C"), 1);
    assert_eq!(find_song(&rows, b).map(|r| r.name.as_str()), Some("B"));
    delete_song_rows(&mut rows, a);
    assert!(find_song(&rows, a).is_none());
    assert_eq!(rows.len(), 1);
}

#[test]
fn registration_refuses_a_taken_name_and_login_checks_the_password() {
    let mut users: Vec<StoredUser> = Vec::new();
    assert_eq!(create_user(&mut users, "carol@x.y", "pw1"), Ok(1));
    assert_eq!(
        create_user(&mut users, "carol@x.y", "pw2"),
        Err("Email 'carol@x.y' is already registered".to_string())
    );
    assert_eq!(users.len(), 1);
    assert_eq!(
        verify_user(&users, "carol@x.y", "pw1"),
        Some((1, "carol@x.y".to_string()))
    );
    assert_eq!(verify_user(&users, "carol@x.y", "pw2"), None);
    assert_eq!(verify_user(&users, "dave@x.y", "pw1"), None);
}

#[test]
fn login_form_checks() {
    assert_eq!(check_login_form("  Ann@Example.COM ", "pw"), Ok("ann@example.com".to_string()));
    assert_eq!(check_login_form("", "pw"), Err("Please fill in all fields.".to_string()));
    assert_eq!(check_login_form("a@b.c", ""), Err("Please fill in all fields.".to_string()));
    assert_eq!(check_login_form("a.b@c", "pw"), Err("Please enter a valid email address.".to_string()));
    assert_eq!(check_login_form("ab.c", "pw"), Err("Please enter a valid email address.".to_string()));
    assert_eq!(check_login_form("a@b@c.d", "pw"), Ok("a@b@c.d".to_string()));
}

#[test]
fn demo_song_is_let_it_be() {
    let song = example_song();
    assert_eq!(song.name, "Let It Be");
    assert_eq!(song.key, "C Major");
    assert_eq!(song.artist, "The Beatles");
    let names: Vec<&str> = song.parts.iter().map(|p| p.name.as_str()).collect();
    assert_eq!(names, ["Verse", "Chorus", "Bridge"]);
    let verse: Vec<String> = song.parts[0].chords().into_iter().map(|c| c.display()).collect();
    assert_eq!(verse, ["C", "G", "Am", "F"]);
    assert_eq!(song.parts[2].chords().len(), 3);
}

#[test]
fn library_shows_the_owner_name() {
    let mut users: Vec<StoredUser> = Vec::new();
    create_user(&mut users, "ann@x.y", "pw").unwrap();
    create_user(&mut users, "bob@x.y", "pw").unwrap();
    assert_eq!(user_name(&users, 2), "bob@x.y");
    assert_eq!(user_name(&users, 0), "");
}

#[test]
fn server_load_and_delete_rules() {
    let mut rows = Vec::new();
    let shared = save_song_row(&mut rows, row("Shared", "X", "C"), 0);
    let mine = save_song_row(&mut rows, row("Mine", "X", "C"), 1);
    let theirs = save_song_row(&mut rows, row("Theirs", "X", "C"), 2);
    assert_eq!(find_visible_song(&rows, shared, 1).map(|r| r.name.as_str()), Some("Shared"));
    assert_eq!(find_visible_song(&rows, mine, 1).map(|r| r.name.as_str()), Some("Mine"));
    assert!(find_visible_song(&rows, theirs, 1).is_none());
    assert_eq!(delete_own_song(&mut rows, shared, 1), 0);
    assert_eq!(delete_own_song(&mut rows, theirs, 1), 0);
    assert_eq!(delete_own_song(&mut rows, mine, 1), 1);
    assert_eq!(rows.len(), 2);
    assert_eq!(song_not_found(7), "Song 7 not found");
    assert_eq!(song_not_deleted(-3), "Song -3 not found or not owned by you");
}

#[test]
fn added_users_get_the_next_id() {
    let mut users: Vec<StoredUser> = Vec::new();
    assert_eq!(add_user(&mut users, "a@x.y", "h1".to_string()), 1);
    assert_eq!(add_user(&mut users, "b@x.y", "h2".to_string()), 2);
    assert_eq!(users.len(), 2);
    assert_eq!(users[1].username, "b@x.y");
    assert_eq!(users[1].password_hash, "h2");
    users[0].id = 41;
    assert_eq!(add_user(&mut users, "c@x.y", "h3".to_string()), 42);
}
