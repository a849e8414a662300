use cardamon::ids::{derive_album_id, derive_artist_id, derive_track_id};

#[test]
fn derive_is_deterministic() {
    let a = derive_artist_id("ArtistA");
    let b = derive_artist_id("ArtistA");
    assert_eq!(a, b);
    let c = derive_album_id("AlbumX");
    let d = derive_album_id("AlbumX");
    assert_eq!(c, d);
    let e = derive_track_id("01 - Song.mp3");
    let f = derive_track_id("01 - Song.mp3");
    assert_eq!(e, f);
}

#[test]
fn derive_matches_version5_uuid_algorithm() {
    assert_eq!(derive_artist_id("ArtistA"), "f449e2d5-eed0-57ca-a214-e68f626e88cf");
    assert_eq!(derive_album_id("AlbumX"), "03cc2ccb-36d0-568b-9c17-14d8aede6e31");
    assert_eq!(derive_track_id("01 - Song.mp3"), "9f3a737f-a497-5d4c-9024-4dc07367d812");
}

#[test]
fn derive_agrees_with_uuid_crate() {
    let ns = uuid::Uuid::parse_str("dd625495-4816-4cb8-81f0-13ec4629c2cb").unwrap();
    let expected = uuid::Uuid::new_v5(&ns, "Some Artist".as_bytes()).to_string();
    assert_eq!(derive_artist_id("Some Artist"), expected);
}

#[test]
fn distinct_namespaces_give_distinct_identifiers() {
    let artist = derive_artist_id("x");
    let album = derive_album_id("x");
    let track = derive_track_id("x");
    assert_ne!(artist, album);
    assert_ne!(artist, track);
    assert_ne!(album, track);
}

#[test]
fn derived_identifier_is_a_hyphenated_uuid() {
    let id = derive_artist_id("ArtistA");
    assert_ne!(id, "ArtistA");
    assert_eq!(id.len(), 36);
    for (i, ch) in id.chars().enumerate() {
        if i == 8 || i == 13 || i == 18 || i == 23 {
            assert_eq!(ch, '-');
        } else {
            assert!(ch.is_ascii_hexdigit());
        }
    }
}

#[test]
fn distinct_names_give_distinct_identifiers() {
    assert_ne!(derive_artist_id("ArtistA"), derive_artist_id("ArtistB"));
}
