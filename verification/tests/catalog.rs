use cardamon::catalog::{build_catalog, classify_extension, Catalog, FileCategory, SourceEntry, TrackTags};

fn tags(
    artist: Option<&str>,
    album_artist: Option<&str>,
    album: Option<&str>,
    title: Option<&str>,
    number: Option<u32>,
) -> TrackTags {
    TrackTags {
        artist: artist.map(|s| s.to_string()),
        album_artist: album_artist.map(|s| s.to_string()),
        album: album.map(|s| s.to_string()),
        title: title.map(|s| s.to_string()),
        track_number: number,
    }
}

fn audio_entry(path: &str, name: &str, t: TrackTags) -> SourceEntry {
    SourceEntry {
        is_dir: false,
        extension: Some("mp3".to_string()),
        file_name: name.to_string(),
        file_path: path.to_string(),
        tags: Some(t),
    }
}

fn build(entries: Vec<SourceEntry>) -> Catalog {
    build_catalog("/music", &entries)
}

#[test]
fn two_tracks_of_one_album_in_order() {
    let c = build(vec![
        audio_entry(
            "/music/ArtistA/AlbumX/01 - Song.mp3",
            "01 - Song.mp3",
            tags(Some("ArtistA"), None, Some("AlbumX"), Some("Song"), Some(1)),
        ),
        audio_entry(
            "/music/ArtistA/AlbumX/02 - Other.mp3",
            "02 - Other.mp3",
            tags(Some("ArtistA"), None, Some("AlbumX"), Some("Other"), Some(2)),
        ),
    ]);
    assert_eq!(c.artists.len(), 1);
    let artist = &c.artists[0];
    assert_eq!(artist.name, "ArtistA");
    assert_eq!(artist.id, "f449e2d5-eed0-57ca-a214-e68f626e88cf");
    assert_eq!(artist.albums.len(), 1);
    let album = &artist.albums[0];
    assert_eq!(album.title, "AlbumX");
    assert_eq!(album.id, "03cc2ccb-36d0-568b-9c17-14d8aede6e31");
    assert_eq!(album.artist_id, artist.id);
    assert_eq!(album.tracks.len(), 2);
    assert_eq!(album.tracks[0].name, "Song");
    assert_eq!(album.tracks[1].name, "Other");
    assert_eq!(album.tracks[0].number, 1);
    assert_eq!(album.tracks[1].number, 2);
    assert_eq!(album.tracks[0].id, "9f3a737f-a497-5d4c-9024-4dc07367d812");
    assert_eq!(album.tracks[1].id, "56bb76cc-2a6d-59e4-b281-73ef50b4444a");
    assert_eq!(album.tracks[0].file_path, "/ArtistA/AlbumX/01 - Song.mp3");
    assert_eq!(album.tracks[0].artist_id, artist.id);
    assert_eq!(album.tracks[0].album_id, album.id);
}

#[test]
fn merge_same_artist_and_album_sorts_by_number() {
    let c = build(vec![
        audio_entry(
            "/music/a/b/second.mp3",
            "second.mp3",
            tags(Some("A"), None, Some("B"), Some("Second"), Some(7)),
        ),
        audio_entry(
            "/music/a/b/first.mp3",
            "first.mp3",
            tags(Some("A"), None, Some("B"), Some("First"), Some(3)),
        ),
    ]);
    assert_eq!(c.artists.len(), 1);
    assert_eq!(c.artists[0].albums.len(), 1);
    let album = &c.artists[0].albums[0];
    assert_eq!(album.tracks.len(), 2);
    assert_eq!(album.tracks[0].name, "First");
    assert_eq!(album.tracks[0].number, 3);
    assert_eq!(album.tracks[1].name, "Second");
    assert_eq!(album.tracks[1].number, 7);
}

#[test]
fn equal_numbers_keep_arrival_order() {
    let c = build(vec![
        audio_entry("/music/x1.mp3", "x1.mp3", tags(Some("A"), None, Some("B"), Some("One"), Some(5))),
        audio_entry("/music/x2.mp3", "x2.mp3", tags(Some("A"), None, Some("B"), Some("Two"), Some(5))),
    ]);
    let album = &c.artists[0].albums[0];
    assert_eq!(album.tracks[0].name, "One");
    assert_eq!(album.tracks[1].name, "Two");
}

#[test]
fn missing_number_defaults_to_zero_and_sorts_first() {
    let c = build(vec![
        audio_entry("/music/a.mp3", "a.mp3", tags(Some("A"), None, Some("B"), Some("Numbered"), Some(1))),
        audio_entry("/music/b.mp3", "b.mp3", tags(Some("A"), None, Some("B"), Some("Unnumbered"), None)),
    ]);
    let album = &c.artists[0].albums[0];
    assert_eq!(album.tracks[0].name, "Unnumbered");
    assert_eq!(album.tracks[0].number, 0);
    assert_eq!(album.tracks[1].name, "Numbered");
}

#[test]
fn album_artist_preferred_over_track_artist() {
    let c = build(vec![audio_entry(
        "/music/v.mp3",
        "v.mp3",
        tags(Some("Guest"), Some("Band"), Some("B"), Some("T"), Some(1)),
    )]);
    assert_eq!(c.artists.len(), 1);
    assert_eq!(c.artists[0].name, "Band");
}

#[test]
fn missing_tags_surface_under_placeholder_names() {
    let c = build(vec![audio_entry(
        "/music/mystery.mp3",
        "mystery.mp3",
        tags(None, None, None, None, None),
    )]);
    assert_eq!(c.artists.len(), 1);
    assert_eq!(c.artists[0].name, "Unknown Artist");
    assert_eq!(c.artists[0].id, "543b52da-d1ac-584d-8b5e-0915cf110e6d");
    assert_eq!(c.artists[0].albums.len(), 1);
    assert_eq!(c.artists[0].albums[0].title, "Unknown Album");
    assert_eq!(c.artists[0].albums[0].id, "ed10a40e-7453-5d1e-b6ac-6f7bd40768d0");
    let track = &c.artists[0].albums[0].tracks[0];
    assert_eq!(track.name, "Unknown Title");
    assert_eq!(track.number, 0);
}

#[test]
fn unreadable_tag_block_skips_the_file() {
    let c = build(vec![SourceEntry {
        is_dir: false,
        extension: Some("mp3".to_string()),
        file_name: "broken.mp3".to_string(),
        file_path: "/music/broken.mp3".to_string(),
        tags: None,
    }]);
    assert_eq!(c.artists.len(), 0);
}

#[test]
fn directories_and_unrecognized_extensions_are_ignored() {
    let c = build(vec![
        SourceEntry {
            is_dir: true,
            extension: None,
            file_name: "ArtistA".to_string(),
            file_path: "/music/ArtistA".to_string(),
            tags: None,
        },
        SourceEntry {
            is_dir: false,
            extension: Some("jpg".to_string()),
            file_name: "cover.jpg".to_string(),
            file_path: "/music/ArtistA/cover.jpg".to_string(),
            tags: None,
        },
        SourceEntry {
            is_dir: false,
            extension: None,
            file_name: "README".to_string(),
            file_path: "/music/README".to_string(),
            tags: None,
        },
    ]);
    assert_eq!(c.artists.len(), 0);
}

#[test]
fn building_twice_yields_identical_catalogs() {
    let entries = || {
        vec![
            audio_entry(
                "/music/ArtistA/AlbumX/01 - Song.mp3",
                "01 - Song.mp3",
                tags(Some("ArtistA"), None, Some("AlbumX"), Some("Song"), Some(1)),
            ),
            audio_entry(
                "/music/ArtistB/Other/song.mp3",
                "song.mp3",
                tags(Some("ArtistB"), None, Some("Other"), Some("S"), Some(4)),
            ),
        ]
    };
    let c1 = build(entries());
    let c2 = build(entries());
    assert_eq!(c1.artists.len(), c2.artists.len());
    for (a1, a2) in c1.artists.iter().zip(c2.artists.iter()) {
        assert_eq!(a1.id, a2.id);
        assert_eq!(a1.name, a2.name);
        assert_eq!(a1.albums.len(), a2.albums.len());
        for (b1, b2) in a1.albums.iter().zip(a2.albums.iter()) {
            assert_eq!(b1.id, b2.id);
            assert_eq!(b1.title, b2.title);
            assert_eq!(b1.tracks.len(), b2.tracks.len());
            for (t1, t2) in b1.tracks.iter().zip(b2.tracks.iter()) {
                assert_eq!(t1.id, t2.id);
                assert_eq!(t1.name, t2.name);
                assert_eq!(t1.number, t2.number);
                assert_eq!(t1.file_path, t2.file_path);
            }
        }
    }
}

#[test]
fn same_album_title_under_two_artists_collides_on_album_id() {
    let c = build(vec![
        audio_entry(
            "/music/ArtistA/Greatest Hits/a.mp3",
            "a.mp3",
            tags(Some("ArtistA"), None, Some("Greatest Hits"), Some("A"), Some(1)),
        ),
        audio_entry(
            "/music/ArtistB/Greatest Hits/b.mp3",
            "b.mp3",
            tags(Some("ArtistB"), None, Some("Greatest Hits"), Some("B"), Some(1)),
        ),
    ]);
    assert_eq!(c.artists.len(), 2);
    assert_eq!(c.artists[0].albums.len(), 1);
    assert_eq!(c.artists[1].albums.len(), 1);
    let id_a = &c.artists[0].albums[0].id;
    let id_b = &c.artists[1].albums[0].id;
    assert_eq!(id_a, id_b);
    assert_eq!(id_a, "babd5e81-fb9a-5966-9408-39d6adcb694a");
}

#[test]
fn path_outside_the_music_root_is_kept_whole() {
    let c = build(vec![audio_entry(
        "/elsewhere/t.mp3",
        "t.mp3",
        tags(Some("A"), None, Some("B"), Some("T"), Some(1)),
    )]);
    assert_eq!(c.artists[0].albums[0].tracks[0].file_path, "/elsewhere/t.mp3");
}

#[test]
fn extension_dispatch_recognizes_only_the_audio_extension() {
    assert_eq!(classify_extension(&Some("mp3".to_string())), FileCategory::AudioTags);
    assert_eq!(classify_extension(&Some("flac".to_string())), FileCategory::Ignored);
    assert_eq!(classify_extension(&Some("MP3".to_string())), FileCategory::Ignored);
    assert_eq!(classify_extension(&None), FileCategory::Ignored);
}
