//! Catalog aggregation.
//!
//! One build turns the scanned entries of a source tree into a single
//! artist → album → track aggregate. Directories, files without the
//! recognized audio extension and files whose tag block could not be read
//! are skipped; every other file becomes a track, filed under its artist
//! and album, with missing tag fields replaced by fixed placeholder
//! names. Entities are deduplicated by name: a second track with the same
//! artist and album merges into the existing entries, and tracks within
//! an album stay sorted by ascending track number (stable: ties keep
//! their arrival order).

use vstd::prelude::*;

use crate::ids::{
    album_namespace, artist_namespace, derive_album_id, derive_artist_id, derive_track_id,
    track_namespace, uuid_v5_of,
};

verus! {

/// Tag fields read from one audio file; a field the tag block does not
/// carry is `None`.
pub struct TrackTags {
    pub artist: Option<String>,
    pub album_artist: Option<String>,
    pub album: Option<String>,
    pub title: Option<String>,
    pub track_number: Option<u32>,
}

/// One entry met while walking the source tree. `tags` is `None` when
/// the entry is no recognized audio file or its tag block was unreadable.
pub struct SourceEntry {
    pub is_dir: bool,
    /// The file extension, without the dot, if the name has one.
    pub extension: Option<String>,
    /// The file's base name.
    pub file_name: String,
    /// The file's full path.
    pub file_path: String,
    pub tags: Option<TrackTags>,
}

#[verifier::ext_equal]
pub ghost struct TrackTagsView {
    pub artist: Option<Seq<char>>,
    pub album_artist: Option<Seq<char>>,
    pub album: Option<Seq<char>>,
    pub title: Option<Seq<char>>,
    pub track_number: Option<u32>,
}

#[verifier::ext_equal]
pub ghost struct SourceEntryView {
    pub is_dir: bool,
    pub extension: Option<Seq<char>>,
    pub file_name: Seq<char>,
    pub file_path: Seq<char>,
    pub tags: Option<TrackTagsView>,
}

/// The view of an optional string.
pub open spec fn opt_str_view(o: Option<String>) -> Option<Seq<char>> {
    match o {
        Some(s) => Some(s@),
        None => None,
    }
}

impl View for TrackTags {
    type V = TrackTagsView;

    open spec fn view(&self) -> TrackTagsView {
        TrackTagsView {
            artist: opt_str_view(self.artist),
            album_artist: opt_str_view(self.album_artist),
            album: opt_str_view(self.album),
            title: opt_str_view(self.title),
            track_number: self.track_number,
        }
    }
}

impl View for SourceEntry {
    type V = SourceEntryView;

    open spec fn view(&self) -> SourceEntryView {
        SourceEntryView {
            is_dir: self.is_dir,
            extension: opt_str_view(self.extension),
            file_name: self.file_name@,
            file_path: self.file_path@,
            tags: match self.tags {
                Some(t) => Some(t@),
                None => None,
            },
        }
    }
}

/// A track of the catalog.
pub struct Track {
    pub id: String,
    pub number: u32,
    /// The file's path with the music-root prefix stripped, so rendered
    /// links are root-relative.
    pub file_path: String,
    pub name: String,
    pub artist_id: String,
    pub album_id: String,
}

/// An album of the catalog, owning its tracks in ascending track-number
/// order.
pub struct Album {
    pub id: String,
    pub artist_id: String,
    pub title: String,
    pub tracks: Vec<Track>,
}

/// An artist of the catalog, owning its albums.
pub struct Artist {
    pub id: String,
    pub name: String,
    pub albums: Vec<Album>,
}

/// The aggregate of one build: every artist found in the source tree,
/// each owning its albums, each owning its tracks.
pub struct Catalog {
    pub artists: Vec<Artist>,
}

#[verifier::ext_equal]
pub ghost struct TrackView {
    pub id: Seq<char>,
    pub number: u32,
    pub file_path: Seq<char>,
    pub name: Seq<char>,
    pub artist_id: Seq<char>,
    pub album_id: Seq<char>,
}

#[verifier::ext_equal]
pub ghost struct AlbumView {
    pub id: Seq<char>,
    pub artist_id: Seq<char>,
    pub title: Seq<char>,
    pub tracks: Seq<TrackView>,
}

#[verifier::ext_equal]
pub ghost struct ArtistView {
    pub id: Seq<char>,
    pub name: Seq<char>,
    pub albums: Seq<AlbumView>,
}

#[verifier::ext_equal]
pub ghost struct CatalogView {
    pub artists: Seq<ArtistView>,
}

impl View for Track {
    type V = TrackView;

    open spec fn view(&self) -> TrackView {
        TrackView {
            id: self.id@,
            number: self.number,
            file_path: self.file_path@,
            name: self.name@,
            artist_id: self.artist_id@,
            album_id: self.album_id@,
        }
    }
}

impl View for Album {
    type V = AlbumView;

    open spec fn view(&self) -> AlbumView {
        AlbumView {
            id: self.id@,
            artist_id: self.artist_id@,
            title: self.title@,
            tracks: self.tracks@.map_values(|t: Track| t@),
        }
    }
}

impl View for Artist {
    type V = ArtistView;

    open spec fn view(&self) -> ArtistView {
        ArtistView {
            id: self.id@,
            name: self.name@,
            albums: self.albums@.map_values(|a: Album| a@),
        }
    }
}

impl View for Catalog {
    type V = CatalogView;

    open spec fn view(&self) -> CatalogView {
        CatalogView { artists: self.artists@.map_values(|a: Artist| a@) }
    }
}

/// Placeholder for a missing or empty artist name.
pub open spec fn unknown_artist() -> Seq<char> {
    "Unknown Artist"@
}

/// Placeholder for a missing or empty album title.
pub open spec fn unknown_album() -> Seq<char> {
    "Unknown Album"@
}

/// Placeholder for a missing or empty track title.
pub open spec fn unknown_title() -> Seq<char> {
    "Unknown Title"@
}

/// The artist name a track is filed under: the album-artist field,
/// falling back to the track-artist field, falling back to the
/// placeholder.
pub open spec fn spec_artist_name(tags: TrackTagsView) -> Seq<char> {
    match tags.album_artist {
        Some(s) => s,
        None => match tags.artist {
            Some(s) => s,
            None => unknown_artist(),
        },
    }
}

/// The album title a track is filed under: the album field, falling back
/// to the placeholder.
pub open spec fn spec_album_title(tags: TrackTagsView) -> Seq<char> {
    match tags.album {
        Some(s) => s,
        None => unknown_album(),
    }
}

/// The track's display name: the title field, falling back to the
/// placeholder.
pub open spec fn spec_track_title(tags: TrackTagsView) -> Seq<char> {
    match tags.title {
        Some(s) => s,
        None => unknown_title(),
    }
}

/// The track number: the tag field, with a missing or unparseable number
/// defaulting to 0, which sorts first.
pub open spec fn spec_track_number(tags: TrackTagsView) -> u32 {
    match tags.track_number {
        Some(n) => n,
        None => 0,
    }
}

/// Resolves the artist name from the tag fields.
pub fn resolve_artist_name(tags: &TrackTags) -> (r: String)
    ensures
        r@ == spec_artist_name(tags@),
{
    match &tags.album_artist {
        Some(s) => s.clone(),
        None => match &tags.artist {
            Some(s) => s.clone(),
            None => String::from_str("Unknown Artist"),
        },
    }
}

/// Resolves the album title from the tag fields.
pub fn resolve_album_title(tags: &TrackTags) -> (r: String)
    ensures
        r@ == spec_album_title(tags@),
{
    match &tags.album {
        Some(s) => s.clone(),
        None => String::from_str("Unknown Album"),
    }
}

/// Resolves the track title from the tag fields.
pub fn resolve_track_title(tags: &TrackTags) -> (r: String)
    ensures
        r@ == spec_track_title(tags@),
{
    match &tags.title {
        Some(s) => s.clone(),
        None => String::from_str("Unknown Title"),
    }
}

/// Resolves the track number from the tag fields.
pub fn resolve_track_number(tags: &TrackTags) -> (r: u32)
    ensures
        r == spec_track_number(tags@),
{
    match &tags.track_number {
        Some(n) => *n,
        None => 0,
    }
}

/// Whether an extension marks a file whose tags are extracted: only the
/// one recognized audio extension does; any other extension, and a
/// missing one, is ignored.
pub open spec fn spec_recognized_extension(ext: Option<Seq<char>>) -> bool {
    ext == Some("mp3"@)
}

/// Decides whether a file extension is the recognized audio extension.
pub fn recognized_extension(ext: &Option<String>) -> (r: bool)
    ensures
        r == spec_recognized_extension(opt_str_view(*ext)),
{
    match ext {
        Some(e) => {
            let audio = String::from_str("mp3");
            *e == audio
        },
        None => false,
    }
}

/// Whether a scanned entry contributes a track to the catalog:
/// directories are skipped, so are files without the recognized audio
/// extension and files whose tag block could not be read.
pub open spec fn spec_entry_relevant(e: SourceEntryView) -> bool {
    &&& !e.is_dir
    &&& spec_recognized_extension(e.extension)
    &&& e.tags is Some
}

/// Decides whether a scanned entry contributes a track to the catalog.
pub fn entry_relevant(e: &SourceEntry) -> (r: bool)
    ensures
        r == spec_entry_relevant(e@),
{
    !e.is_dir && recognized_extension(&e.extension) && e.tags.is_some()
}

/// How a file is handled, decided by its extension alone.
#[derive(Clone, Copy, PartialEq, Eq, Structural, Debug)]
pub enum FileCategory {
    /// A recognized audio file: its tags are extracted.
    AudioTags,
    /// Anything else — cover art, sidecar files, files without an
    /// extension — is left out of the catalog.
    Ignored,
}

/// The dispatch over file extensions, with ignoring as the default: only
/// the recognized audio extension maps to extraction.
pub fn classify_extension(ext: &Option<String>) -> (r: FileCategory)
    ensures
        r is AudioTags <==> spec_recognized_extension(opt_str_view(*ext)),
{
    if recognized_extension(ext) {
        FileCategory::AudioTags
    } else {
        FileCategory::Ignored
    }
}

/// The path with the music-root prefix stripped; a path that does not
/// start with the root is kept whole.
pub open spec fn spec_strip_root(root: Seq<char>, path: Seq<char>) -> Seq<char> {
    if root.len() <= path.len() && path.subrange(0, root.len() as int) == root {
        path.subrange(root.len() as int, path.len() as int)
    } else {
        path
    }
}

/// Strips the music-root prefix from a file path, so stored paths are
/// root-relative.
pub fn strip_root_prefix(root: &str, path: &str) -> (r: String)
    ensures
        r@ == spec_strip_root(root@, path@),
{
    let rlen = root.unicode_len();
    let plen = path.unicode_len();
    if rlen > plen {
        return String::from_str(path);
    }
    let mut i: usize = 0;
    while i < rlen
        invariant
            i <= rlen,
            rlen <= plen,
            rlen == root@.len(),
            plen == path@.len(),
            forall|j: int| 0 <= j < i ==> path@[j] == root@[j],
        decreases rlen - i,
    {
        if path.get_char(i) != root.get_char(i) {
            proof {
                assert(path@.subrange(0, root@.len() as int)[i as int] != root@[i as int]);
            }
            return String::from_str(path);
        }
        i = i + 1;
    }
    proof {
        assert(path@.subrange(0, root@.len() as int) =~= root@);
    }
    let rest = path.substring_char(rlen, plen);
    String::from_str(rest)
}

/// The views of a sequence of artists.
pub open spec fn artists_view(artists: Seq<Artist>) -> Seq<ArtistView> {
    artists.map_values(|a: Artist| a@)
}

/// The views of a sequence of albums.
pub open spec fn albums_view(albums: Seq<Album>) -> Seq<AlbumView> {
    albums.map_values(|a: Album| a@)
}

/// The views of a sequence of tracks.
pub open spec fn tracks_view(tracks: Seq<Track>) -> Seq<TrackView> {
    tracks.map_values(|t: Track| t@)
}

/// The views of a sequence of scanned entries.
pub open spec fn entry_views(entries: Seq<SourceEntry>) -> Seq<SourceEntryView> {
    entries.map_values(|e: SourceEntry| e@)
}

/// The track a relevant entry contributes: identifiers derived from the
/// resolved names, the number and title resolved from the tags, the path
/// made root-relative.
pub open spec fn spec_track_of(
    root: Seq<char>,
    file_name: Seq<char>,
    file_path: Seq<char>,
    tags: TrackTagsView,
) -> TrackView {
    TrackView {
        id: uuid_v5_of(track_namespace(), file_name),
        number: spec_track_number(tags),
        file_path: spec_strip_root(root, file_path),
        name: spec_track_title(tags),
        artist_id: uuid_v5_of(artist_namespace(), spec_artist_name(tags)),
        album_id: uuid_v5_of(album_namespace(), spec_album_title(tags)),
    }
}

/// The position of the first artist with this name, or the length when
/// none has it.
pub open spec fn artist_index(artists: Seq<ArtistView>, name: Seq<char>) -> int
    decreases artists.len(),
{
    if artists.len() == 0 {
        0
    } else if artists[0].name == name {
        0
    } else {
        1 + artist_index(artists.drop_first(), name)
    }
}

/// The position of the first album with this title, or the length when
/// none has it.
pub open spec fn album_index(albums: Seq<AlbumView>, title: Seq<char>) -> int
    decreases albums.len(),
{
    if albums.len() == 0 {
        0
    } else if albums[0].title == title {
        0
    } else {
        1 + album_index(albums.drop_first(), title)
    }
}

/// Where a track with this number lands in a run of tracks: before the
/// first track with a greater number, and after every track with the
/// same one, so ties keep their arrival order.
pub open spec fn insert_pos(tracks: Seq<TrackView>, number: u32) -> int
    decreases tracks.len(),
{
    if tracks.len() == 0 {
        0
    } else if tracks[0].number > number {
        0
    } else {
        1 + insert_pos(tracks.drop_first(), number)
    }
}

/// `artist_index` is the first matching position: in bounds, matching
/// when within, with no match anywhere before it.
pub proof fn lemma_artist_index_spec(artists: Seq<ArtistView>, name: Seq<char>)
    ensures
        0 <= artist_index(artists, name) <= artists.len(),
        artist_index(artists, name) < artists.len() ==> artists[artist_index(artists, name)].name
            == name,
        forall|j: int| 0 <= j < artist_index(artists, name) ==> artists[j].name != name,
    decreases artists.len(),
{
    if artists.len() > 0 && artists[0].name != name {
        lemma_artist_index_spec(artists.drop_first(), name);
        assert forall|j: int| 0 <= j < artist_index(artists, name) implies artists[j].name
            != name by {
            if j > 0 {
                assert(artists.drop_first()[j - 1] == artists[j]);
            }
        }
    }
}

/// A position with no match before it, and a match at it when within
/// bounds, is `artist_index`.
pub proof fn lemma_artist_index_agrees(artists: Seq<ArtistView>, name: Seq<char>, i: int)
    requires
        0 <= i <= artists.len(),
        forall|j: int| 0 <= j < i ==> artists[j].name != name,
        i < artists.len() ==> artists[i].name == name,
    ensures
        artist_index(artists, name) == i,
    decreases artists.len(),
{
    if artists.len() == 0 {
    } else if artists[0].name == name {
        if i > 0 {
            assert(artists[0].name != name);
        }
    } else {
        assert(i >= 1);
        assert forall|j: int| 0 <= j < i - 1 implies artists.drop_first()[j].name != name by {
            assert(artists.drop_first()[j] == artists[j + 1]);
        }
        assert(i - 1 < artists.drop_first().len() ==> artists.drop_first()[i - 1].name == name);
        lemma_artist_index_agrees(artists.drop_first(), name, i - 1);
    }
}

/// `album_index` is the first matching position: in bounds, matching
/// when within, with no match anywhere before it.
pub proof fn lemma_album_index_spec(albums: Seq<AlbumView>, title: Seq<char>)
    ensures
        0 <= album_index(albums, title) <= albums.len(),
        album_index(albums, title) < albums.len() ==> albums[album_index(albums, title)].title
            == title,
        forall|j: int| 0 <= j < album_index(albums, title) ==> albums[j].title != title,
    decreases albums.len(),
{
    if albums.len() > 0 && albums[0].title != title {
        lemma_album_index_spec(albums.drop_first(), title);
        assert forall|j: int| 0 <= j < album_index(albums, title) implies albums[j].title
            != title by {
            if j > 0 {
                assert(albums.drop_first()[j - 1] == albums[j]);
            }
        }
    }
}

/// A position with no match before it, and a match at it when within
/// bounds, is `album_index`.
pub proof fn lemma_album_index_agrees(albums: Seq<AlbumView>, title: Seq<char>, i: int)
    requires
        0 <= i <= albums.len(),
        forall|j: int| 0 <= j < i ==> albums[j].title != title,
        i < albums.len() ==> albums[i].title == title,
    ensures
        album_index(albums, title) == i,
    decreases albums.len(),
{
    if albums.len() == 0 {
    } else if albums[0].title == title {
        if i > 0 {
            assert(albums[0].title != title);
        }
    } else {
        assert(i >= 1);
        assert forall|j: int| 0 <= j < i - 1 implies albums.drop_first()[j].title != title by {
            assert(albums.drop_first()[j] == albums[j + 1]);
        }
        assert(i - 1 < albums.drop_first().len() ==> albums.drop_first()[i - 1].title == title);
        lemma_album_index_agrees(albums.drop_first(), title, i - 1);
    }
}

/// `insert_pos` is in bounds; every track before it has a number at most
/// the inserted one, and the track at it, when within bounds, a greater
/// one.
pub proof fn lemma_insert_pos_spec(tracks: Seq<TrackView>, number: u32)
    ensures
        0 <= insert_pos(tracks, number) <= tracks.len(),
        insert_pos(tracks, number) < tracks.len() ==> tracks[insert_pos(tracks, number)].number
            > number,
        forall|j: int| 0 <= j < insert_pos(tracks, number) ==> tracks[j].number <= number,
    decreases tracks.len(),
{
    if tracks.len() > 0 && tracks[0].number <= number {
        lemma_insert_pos_spec(tracks.drop_first(), number);
        assert forall|j: int| 0 <= j < insert_pos(tracks, number) implies tracks[j].number
            <= number by {
            if j > 0 {
                assert(tracks.drop_first()[j - 1] == tracks[j]);
            }
        }
    }
}

/// A position with only numbers at most `number` before it, and a
/// greater number at it when within bounds, is `insert_pos`.
pub proof fn lemma_insert_pos_agrees(tracks: Seq<TrackView>, number: u32, i: int)
    requires
        0 <= i <= tracks.len(),
        forall|j: int| 0 <= j < i ==> tracks[j].number <= number,
        i < tracks.len() ==> tracks[i].number > number,
    ensures
        insert_pos(tracks, number) == i,
    decreases tracks.len(),
{
    if tracks.len() == 0 {
    } else if tracks[0].number > number {
        if i > 0 {
            assert(tracks[0].number <= number);
        }
    } else {
        assert(i >= 1);
        assert forall|j: int| 0 <= j < i - 1 implies tracks.drop_first()[j].number <= number by {
            assert(tracks.drop_first()[j] == tracks[j + 1]);
        }
        assert(i - 1 < tracks.drop_first().len() ==> tracks.drop_first()[i - 1].number > number);
        lemma_insert_pos_agrees(tracks.drop_first(), number, i - 1);
    }
}

/// A track run after one more arrival: the new track stands at
/// `insert_pos`, everything else keeps its order.
pub open spec fn spec_insert_track(tracks: Seq<TrackView>, track: TrackView) -> Seq<TrackView> {
    tracks.insert(insert_pos(tracks, track.number), track)
}

/// The catalog before any entry: no artists.
pub open spec fn spec_empty_catalog() -> CatalogView {
    CatalogView { artists: Seq::empty() }
}

/// An artist's album run after one more track: the album is found by
/// title, or appended with the track's identifiers when the artist does
/// not have it yet, and the track put at its sorted position in it.
pub open spec fn spec_add_to_albums(
    albums: Seq<AlbumView>,
    title: Seq<char>,
    track: TrackView,
) -> Seq<AlbumView> {
    let bi = album_index(albums, title);
    if bi < albums.len() {
        let album = albums[bi];
        albums.update(
            bi,
            AlbumView {
                id: album.id,
                artist_id: album.artist_id,
                title: album.title,
                tracks: spec_insert_track(album.tracks, track),
            },
        )
    } else {
        albums.push(
            AlbumView {
                id: track.album_id,
                artist_id: track.artist_id,
                title: title,
                tracks: seq![track],
            },
        )
    }
}

/// The catalog after one more track: its artist is found by name or
/// appended, the album found by title within the artist or appended, and
/// the track put at its sorted position in the album.
pub open spec fn spec_add_track(
    c: CatalogView,
    root: Seq<char>,
    file_name: Seq<char>,
    file_path: Seq<char>,
    tags: TrackTagsView,
) -> CatalogView {
    let name = spec_artist_name(tags);
    let title = spec_album_title(tags);
    let track = spec_track_of(root, file_name, file_path, tags);
    let ai = artist_index(c.artists, name);
    if ai < c.artists.len() {
        let artist = c.artists[ai];
        CatalogView {
            artists: c.artists.update(
                ai,
                ArtistView {
                    id: artist.id,
                    name: artist.name,
                    albums: spec_add_to_albums(artist.albums, title, track),
                },
            ),
        }
    } else {
        CatalogView {
            artists: c.artists.push(
                ArtistView {
                    id: track.artist_id,
                    name: name,
                    albums: spec_add_to_albums(Seq::empty(), title, track),
                },
            ),
        }
    }
}

/// The catalog after one more scanned entry: a relevant entry adds its
/// track, any other entry changes nothing.
pub open spec fn spec_add_entry(c: CatalogView, root: Seq<char>, e: SourceEntryView) -> CatalogView {
    if spec_entry_relevant(e) {
        spec_add_track(c, root, e.file_name, e.file_path, e.tags->0)
    } else {
        c
    }
}

/// The catalog a scan of the source tree yields: the entries folded into
/// the empty catalog, in traversal order.
pub open spec fn spec_build(root: Seq<char>, entries: Seq<SourceEntryView>) -> CatalogView
    decreases entries.len(),
{
    if entries.len() == 0 {
        spec_empty_catalog()
    } else {
        spec_add_entry(spec_build(root, entries.drop_last()), root, entries.last())
    }
}

/// Finds the first artist with this name, or the length when none has
/// it.
fn find_artist(artists: &Vec<Artist>, name: &String) -> (r: usize)
    ensures
        r as int == artist_index(artists_view(artists@), name@),
        r <= artists.len(),
{
    let ghost vs = artists_view(artists@);
    let mut i: usize = 0;
    while i < artists.len()
        invariant
            i <= artists.len(),
            vs == artists_view(artists@),
            vs.len() == artists.len(),
            forall|j: int| 0 <= j < i ==> vs[j].name != name@,
        decreases artists.len() - i,
    {
        if artists[i].name == *name {
            proof {
                assert(vs[i as int].name == name@);
                lemma_artist_index_agrees(vs, name@, i as int);
            }
            return i;
        }
        proof {
            assert(vs[i as int].name != name@);
        }
        i = i + 1;
    }
    proof {
        lemma_artist_index_agrees(vs, name@, i as int);
    }
    i
}

/// Finds the first album with this title, or the length when none has
/// it.
fn find_album(albums: &Vec<Album>, title: &String) -> (r: usize)
    ensures
        r as int == album_index(albums_view(albums@), title@),
        r <= albums.len(),
{
    let ghost vs = albums_view(albums@);
    let mut i: usize = 0;
    while i < albums.len()
        invariant
            i <= albums.len(),
            vs == albums_view(albums@),
            vs.len() == albums.len(),
            forall|j: int| 0 <= j < i ==> vs[j].title != title@,
        decreases albums.len() - i,
    {
        if albums[i].title == *title {
            proof {
                assert(vs[i as int].title == title@);
                lemma_album_index_agrees(vs, title@, i as int);
            }
            return i;
        }
        proof {
            assert(vs[i as int].title != title@);
        }
        i = i + 1;
    }
    proof {
        lemma_album_index_agrees(vs, title@, i as int);
    }
    i
}

/// Finds the sorted position for a track with this number: after every
/// track with the same or a smaller number.
fn find_insert_pos(tracks: &Vec<Track>, number: u32) -> (r: usize)
    ensures
        r as int == insert_pos(tracks_view(tracks@), number),
        r <= tracks.len(),
{
    let ghost vs = tracks_view(tracks@);
    let mut i: usize = 0;
    while i < tracks.len() && tracks[i].number <= number
        invariant
            i <= tracks.len(),
            vs == tracks_view(tracks@),
            vs.len() == tracks.len(),
            forall|j: int| 0 <= j < i ==> vs[j].number <= number,
        decreases tracks.len() - i,
    {
        proof {
            assert(vs[i as int].number <= number);
        }
        i = i + 1;
    }
    proof {
        lemma_insert_pos_agrees(vs, number, i as int);
    }
    i
}

/// Puts a track at its sorted position: the run stays sorted, and a
/// track that ties an existing number goes after it, as a stable re-sort
/// after appending would place it.
fn insert_track_sorted(tracks: &mut Vec<Track>, track: Track)
    ensures
        tracks_view(final(tracks)@) == spec_insert_track(tracks_view(old(tracks)@), track@),
{
    proof {
        lemma_insert_pos_spec(tracks_view(tracks@), track@.number);
    }
    let i = find_insert_pos(tracks, track.number);
    tracks.insert(i, track);
    proof {
        assert(tracks_view(final(tracks)@) =~= spec_insert_track(
            tracks_view(old(tracks)@),
            track@,
        ));
    }
}

/// Puts one track into an artist's album run: found by title or
/// appended, with the track at its sorted position.
fn add_track_to_albums(albums: &mut Vec<Album>, title: &String, track: Track)
    ensures
        albums_view(final(albums)@) == spec_add_to_albums(
            albums_view(old(albums)@),
            title@,
            track@,
        ),
{
    let ghost goal = spec_add_to_albums(albums_view(albums@), title@, track@);
    proof {
        lemma_album_index_spec(albums_view(albums@), title@);
    }
    let bi = find_album(albums, title);
    if bi < albums.len() {
        let mut album = albums.remove(bi);
        insert_track_sorted(&mut album.tracks, track);
        albums.insert(bi, album);
        proof {
            assert(albums_view(albums@) =~~= goal);
        }
    } else {
        let album_id = track.album_id.clone();
        let artist_id = track.artist_id.clone();
        let mut new_tracks: Vec<Track> = Vec::new();
        new_tracks.push(track);
        let album = Album { id: album_id, artist_id: artist_id, title: title.clone(), tracks: new_tracks };
        albums.push(album);
        proof {
            assert(albums_view(albums@) =~~= goal);
        }
    }
}

impl Catalog {
    /// A catalog with no artists, the start of every build.
    pub fn new() -> (c: Catalog)
        ensures
            c@ == spec_empty_catalog(),
    {
        let c = Catalog { artists: Vec::new() };
        proof {
            assert(c@ =~~= spec_empty_catalog());
        }
        c
    }

    /// Merges one extracted file into the catalog: the artist is looked
    /// up by resolved name or created, the album by resolved title
    /// within the artist or created, and the track put at its sorted
    /// position, with identifiers derived from the resolved names and
    /// the stored path made relative to the music root.
    pub fn add_track(&mut self, root: &str, file_name: &str, file_path: &str, tags: &TrackTags)
        ensures
            final(self)@ == spec_add_track(old(self)@, root@, file_name@, file_path@, tags@),
    {
        let ghost goal = spec_add_track(self@, root@, file_name@, file_path@, tags@);
        let name = resolve_artist_name(tags);
        let title = resolve_album_title(tags);
        let artist_id = derive_artist_id(name.as_str());
        let album_id = derive_album_id(title.as_str());
        let track = Track {
            id: derive_track_id(file_name),
            number: resolve_track_number(tags),
            file_path: strip_root_prefix(root, file_path),
            name: resolve_track_title(tags),
            artist_id: artist_id.clone(),
            album_id: album_id,
        };
        proof {
            assert(track@ =~~= spec_track_of(root@, file_name@, file_path@, tags@));
            lemma_artist_index_spec(self@.artists, name@);
        }
        let ai = find_artist(&self.artists, &name);
        if ai < self.artists.len() {
            let mut artist = self.artists.remove(ai);
            add_track_to_albums(&mut artist.albums, &title, track);
            self.artists.insert(ai, artist);
            proof {
                assert(self.artists@ =~= old(self).artists@.update(
                    ai as int,
                    self.artists@[ai as int],
                ));
                assert(self@.artists =~~= goal.artists);
                assert(self@ =~~= goal);
            }
        } else {
            let mut new_albums: Vec<Album> = Vec::new();
            add_track_to_albums(&mut new_albums, &title, track);
            let artist = Artist { id: artist_id, name: name, albums: new_albums };
            self.artists.push(artist);
            proof {
                assert(albums_view(Seq::<Album>::empty()) =~= Seq::<AlbumView>::empty());
                assert(self@.artists =~~= goal.artists);
                assert(self@ =~~= goal);
            }
        }
    }
}

/// Builds the catalog of one scan: every relevant entry merged, in
/// traversal order; directories, unrecognized files and files with an
/// unreadable tag block leave the catalog untouched.
pub fn build_catalog(root: &str, entries: &Vec<SourceEntry>) -> (c: Catalog)
    ensures
        c@ == spec_build(root@, entry_views(entries@)),
        catalog_wf(c@),
        catalog_linked(c@),
{
    proof {
        lemma_build_wf(root@, entry_views(entries@));
        lemma_build_linked(root@, entry_views(entries@));
    }
    let mut c = Catalog::new();
    let mut i: usize = 0;
    while i < entries.len()
        invariant
            i <= entries.len(),
            c@ == spec_build(root@, entry_views(entries@.take(i as int))),
        decreases entries.len() - i,
    {
        proof {
            assert(entry_views(entries@.take(i + 1)).drop_last() =~= entry_views(
                entries@.take(i as int),
            ));
            assert(entry_views(entries@.take(i + 1)).last() == entries@[i as int]@);
        }
        let e = &entries[i];
        if entry_relevant(e) {
            match &e.tags {
                Some(tags) => {
                    c.add_track(root, e.file_name.as_str(), e.file_path.as_str(), tags);
                },
                None => {
                    // a relevant entry always carries tags
                    proof {
                        assert(false);
                    }
                },
            }
        }
        i = i + 1;
    }
    proof {
        assert(entries@.take(entries@.len() as int) =~= entries@);
    }
    c
}

/// Tracks in ascending track-number order.
pub open spec fn tracks_sorted(tracks: Seq<TrackView>) -> bool {
    forall|i: int, j: int|
        0 <= i < j < tracks.len() ==> tracks[i].number <= tracks[j].number
}

/// Album titles unique within one artist, and every album's tracks
/// sorted.
pub open spec fn albums_wf(albums: Seq<AlbumView>) -> bool {
    &&& forall|i: int, j: int|
        0 <= i < j < albums.len() ==> albums[i].title != albums[j].title
    &&& forall|i: int| 0 <= i < albums.len() ==> #[trigger] tracks_sorted(albums[i].tracks)
}

/// Within one build an artist name determines one artist and an album
/// title one album under it: names unique at both levels, and tracks
/// sorted within every album.
pub open spec fn catalog_wf(c: CatalogView) -> bool {
    &&& forall|i: int, j: int|
        0 <= i < j < c.artists.len() ==> c.artists[i].name != c.artists[j].name
    &&& forall|i: int| 0 <= i < c.artists.len() ==> #[trigger] albums_wf(c.artists[i].albums)
}

/// Sorted insertion keeps a track run sorted.
pub proof fn lemma_insert_track_sorted(tracks: Seq<TrackView>, track: TrackView)
    requires
        tracks_sorted(tracks),
    ensures
        tracks_sorted(spec_insert_track(tracks, track)),
{
    lemma_insert_pos_spec(tracks, track.number);
    let p = insert_pos(tracks, track.number);
    let r = spec_insert_track(tracks, track);
    assert forall|i: int, j: int| 0 <= i < j < r.len() implies r[i].number <= r[j].number by {
        if i < p {
            assert(r[i] == tracks[i]);
        } else if i == p {
            assert(r[i] == track);
        } else {
            assert(r[i] == tracks[i - 1]);
        }
        if j < p {
            assert(r[j] == tracks[j]);
        } else if j == p {
            assert(r[j] == track);
        } else {
            assert(r[j] == tracks[j - 1]);
        }
        if j == p {
            assert(i < p);
            assert(tracks[i].number <= track.number);
        } else if i == p {
            assert(p <= j - 1 < tracks.len());
            assert(tracks[p].number <= tracks[j - 1].number);
            assert(tracks[p].number > track.number);
        }
    }
}

/// Adding a track to an artist's albums keeps titles unique and every
/// album's tracks sorted.
pub proof fn lemma_add_to_albums_wf(albums: Seq<AlbumView>, title: Seq<char>, track: TrackView)
    requires
        albums_wf(albums),
    ensures
        albums_wf(spec_add_to_albums(albums, title, track)),
{
    lemma_album_index_spec(albums, title);
    let bi = album_index(albums, title);
    let r = spec_add_to_albums(albums, title, track);
    if bi < albums.len() {
        lemma_insert_track_sorted(albums[bi].tracks, track);
        assert forall|i: int| 0 <= i < r.len() implies #[trigger] tracks_sorted(r[i].tracks) by {
            if i != bi {
                assert(r[i] == albums[i]);
            }
        }
    } else {
        assert forall|i: int, j: int| 0 <= i < j < r.len() implies r[i].title != r[j].title by {
            if j == albums.len() {
                assert(r[i] == albums[i]);
                assert(r[j].title == title);
            }
        }
        assert forall|i: int| 0 <= i < r.len() implies #[trigger] tracks_sorted(r[i].tracks) by {
            if i < albums.len() {
                assert(r[i] == albums[i]);
            } else {
                assert(r[i].tracks == seq![track]);
            }
        }
    }
}

/// Adding a track keeps the catalog well-formed.
pub proof fn lemma_add_track_wf(
    c: CatalogView,
    root: Seq<char>,
    file_name: Seq<char>,
    file_path: Seq<char>,
    tags: TrackTagsView,
)
    requires
        catalog_wf(c),
    ensures
        catalog_wf(spec_add_track(c, root, file_name, file_path, tags)),
{
    let name = spec_artist_name(tags);
    let title = spec_album_title(tags);
    let track = spec_track_of(root, file_name, file_path, tags);
    lemma_artist_index_spec(c.artists, name);
    let ai = artist_index(c.artists, name);
    let r = spec_add_track(c, root, file_name, file_path, tags);
    if ai < c.artists.len() {
        lemma_add_to_albums_wf(c.artists[ai].albums, title, track);
        assert forall|i: int, j: int| 0 <= i < j < r.artists.len() implies r.artists[i].name
            != r.artists[j].name by {
            assert(r.artists[i].name == c.artists[i].name);
            assert(r.artists[j].name == c.artists[j].name);
        }
        assert forall|i: int| 0 <= i < r.artists.len() implies #[trigger] albums_wf(
            r.artists[i].albums,
        ) by {
            if i != ai {
                assert(r.artists[i] == c.artists[i]);
            }
        }
    } else {
        lemma_add_to_albums_wf(Seq::empty(), title, track);
        assert forall|i: int, j: int| 0 <= i < j < r.artists.len() implies r.artists[i].name
            != r.artists[j].name by {
            if j == c.artists.len() {
                assert(r.artists[i] == c.artists[i]);
                assert(r.artists[j].name == name);
            }
        }
        assert forall|i: int| 0 <= i < r.artists.len() implies #[trigger] albums_wf(
            r.artists[i].albums,
        ) by {
            if i < c.artists.len() {
                assert(r.artists[i] == c.artists[i]);
            }
        }
    }
}

/// Every built catalog is well-formed: artist names unique, album
/// titles unique within an artist, tracks sorted within every album.
pub proof fn lemma_build_wf(root: Seq<char>, entries: Seq<SourceEntryView>)
    ensures
        catalog_wf(spec_build(root, entries)),
    decreases entries.len(),
{
    if entries.len() == 0 {
    } else {
        lemma_build_wf(root, entries.drop_last());
        let e = entries.last();
        if spec_entry_relevant(e) {
            lemma_add_track_wf(
                spec_build(root, entries.drop_last()),
                root,
                e.file_name,
                e.file_path,
                e.tags->0,
            );
        }
    }
}

/// Building is deterministic: the same source tree scanned twice yields
/// catalogs with identical artists, albums, tracks, identifiers and
/// ordering.
pub proof fn lemma_build_deterministic(
    root1: Seq<char>,
    entries1: Seq<SourceEntryView>,
    root2: Seq<char>,
    entries2: Seq<SourceEntryView>,
)
    requires
        root1 == root2,
        entries1 == entries2,
    ensures
        spec_build(root1, entries1) == spec_build(root2, entries2),
{
}

/// An entry that is a directory, lacks the recognized extension or has
/// an unreadable tag block leaves the catalog exactly as it was.
pub proof fn lemma_irrelevant_entry_skipped(c: CatalogView, root: Seq<char>, e: SourceEntryView)
    requires
        !spec_entry_relevant(e),
    ensures
        spec_add_entry(c, root, e) == c,
{
}

/// A file whose extraction succeeds with no tag fields at all surfaces
/// under the three placeholder names, with track number 0.
pub proof fn lemma_placeholder_substitution(tags: TrackTagsView)
    requires
        tags.artist is None,
        tags.album_artist is None,
        tags.album is None,
        tags.title is None,
        tags.track_number is None,
    ensures
        spec_artist_name(tags) == unknown_artist(),
        spec_album_title(tags) == unknown_album(),
        spec_track_title(tags) == unknown_title(),
        spec_track_number(tags) == 0,
{
}

/// Album identifiers are derived from the album title alone, not scoped
/// by artist: tracks of different artists whose albums share a title
/// get the same album identifier and merge on it. A known sharp edge,
/// kept deliberately.
pub proof fn lemma_album_id_from_title_alone(
    root: Seq<char>,
    file_name1: Seq<char>,
    file_path1: Seq<char>,
    tags1: TrackTagsView,
    file_name2: Seq<char>,
    file_path2: Seq<char>,
    tags2: TrackTagsView,
)
    requires
        spec_album_title(tags1) == spec_album_title(tags2),
    ensures
        spec_track_of(root, file_name1, file_path1, tags1).album_id == spec_track_of(
            root,
            file_name2,
            file_path2,
            tags2,
        ).album_id,
{
}

/// Two files tagged with the same artist and album merge into one
/// artist with one album holding both tracks, in ascending
/// track-number order: a tie, and a smaller or equal second number,
/// put the later arrival after the earlier one.
pub proof fn lemma_merge_same_album(root: Seq<char>, e1: SourceEntryView, e2: SourceEntryView)
    requires
        spec_entry_relevant(e1),
        spec_entry_relevant(e2),
        spec_artist_name(e1.tags->0) == spec_artist_name(e2.tags->0),
        spec_album_title(e1.tags->0) == spec_album_title(e2.tags->0),
    ensures
        ({
            let c = spec_build(root, seq![e1, e2]);
            let t1 = spec_track_of(root, e1.file_name, e1.file_path, e1.tags->0);
            let t2 = spec_track_of(root, e2.file_name, e2.file_path, e2.tags->0);
            &&& c.artists.len() == 1
            &&& c.artists[0].name == spec_artist_name(e1.tags->0)
            &&& c.artists[0].albums.len() == 1
            &&& c.artists[0].albums[0].title == spec_album_title(e1.tags->0)
            &&& c.artists[0].albums[0].tracks == (if t1.number <= t2.number {
                seq![t1, t2]
            } else {
                seq![t2, t1]
            })
            &&& tracks_sorted(c.artists[0].albums[0].tracks)
        }),
{
    let entries = seq![e1, e2];
    assert(entries.drop_last() =~= seq![e1]);
    assert(entries.last() == e2);
    assert(seq![e1].drop_last() =~= Seq::<SourceEntryView>::empty());
    let c0 = spec_empty_catalog();
    let c1 = spec_build(root, seq![e1]);
    let t1 = spec_track_of(root, e1.file_name, e1.file_path, e1.tags->0);
    let t2 = spec_track_of(root, e2.file_name, e2.file_path, e2.tags->0);
    let name = spec_artist_name(e1.tags->0);
    let title = spec_album_title(e1.tags->0);
    assert(spec_build(root, seq![e1].drop_last()) == c0);
    assert(c1 == spec_add_entry(c0, root, e1));
    assert(c1 == spec_add_track(c0, root, e1.file_name, e1.file_path, e1.tags->0));
    assert(artist_index(c0.artists, name) == 0);
    assert(album_index(Seq::<AlbumView>::empty(), title) == 0);
    assert(c1.artists.len() == 1);
    assert(c1.artists[0].name == name);
    assert(c1.artists[0].albums =~= seq![
        AlbumView { id: t1.album_id, artist_id: t1.artist_id, title: title, tracks: seq![t1] },
    ]);
    let c2 = spec_build(root, entries);
    assert(c2 == spec_add_track(c1, root, e2.file_name, e2.file_path, e2.tags->0));
    assert(artist_index(c1.artists, spec_artist_name(e2.tags->0)) == 0);
    assert(album_index(c1.artists[0].albums, spec_album_title(e2.tags->0)) == 0);
    let ts = c1.artists[0].albums[0].tracks;
    assert(ts =~= seq![t1]);
    assert(ts.drop_first() =~= Seq::<TrackView>::empty());
    assert(insert_pos(Seq::<TrackView>::empty(), t2.number) == 0);
    assert(insert_pos(ts, t2.number) == if t1.number > t2.number { 0int } else { 1int });
    if t1.number <= t2.number {
        assert(c2.artists[0].albums[0].tracks =~= seq![t1, t2]);
    } else {
        assert(c2.artists[0].albums[0].tracks =~= seq![t2, t1]);
    }
}

/// An album consistent with its identifiers: its own id derived from
/// its title, and every track carrying the owning artist's id and the
/// album's id as back-references.
pub open spec fn album_linked(artist_id: Seq<char>, album: AlbumView) -> bool {
    &&& album.id == uuid_v5_of(album_namespace(), album.title)
    &&& album.artist_id == artist_id
    &&& forall|k: int|
        0 <= k < album.tracks.len() ==> ((#[trigger] album.tracks[k]).artist_id == artist_id
            && album.tracks[k].album_id == album.id)
}

/// An artist consistent with its identifiers: its id derived from its
/// name, and every album linked to it.
pub open spec fn artist_linked(artist: ArtistView) -> bool {
    &&& artist.id == uuid_v5_of(artist_namespace(), artist.name)
    &&& forall|j: int|
        0 <= j < artist.albums.len() ==> album_linked(artist.id, #[trigger] artist.albums[j])
}

/// Identifiers are consistent throughout the catalog: every id is
/// derived from its entity's name, and the back-references on albums
/// and tracks name their owners.
pub open spec fn catalog_linked(c: CatalogView) -> bool {
    forall|i: int| 0 <= i < c.artists.len() ==> artist_linked(#[trigger] c.artists[i])
}

/// Adding a track with identifiers derived from the resolved names
/// keeps an artist's albums linked to the artist.
pub proof fn lemma_add_to_albums_linked(
    albums: Seq<AlbumView>,
    artist_id: Seq<char>,
    title: Seq<char>,
    track: TrackView,
)
    requires
        forall|j: int| 0 <= j < albums.len() ==> album_linked(artist_id, #[trigger] albums[j]),
        track.artist_id == artist_id,
        track.album_id == uuid_v5_of(album_namespace(), title),
    ensures
        forall|j: int|
            0 <= j < spec_add_to_albums(albums, title, track).len() ==> album_linked(
                artist_id,
                #[trigger] spec_add_to_albums(albums, title, track)[j],
            ),
{
    lemma_album_index_spec(albums, title);
    let bi = album_index(albums, title);
    let r = spec_add_to_albums(albums, title, track);
    if bi < albums.len() {
        let album = albums[bi];
        let tracks = spec_insert_track(album.tracks, track);
        lemma_insert_pos_spec(album.tracks, track.number);
        let p = insert_pos(album.tracks, track.number);
        assert forall|k: int| 0 <= k < tracks.len() implies ((#[trigger] tracks[k]).artist_id
            == artist_id && tracks[k].album_id == album.id) by {
            if k < p {
                assert(tracks[k] == album.tracks[k]);
            } else if k == p {
                assert(tracks[k] == track);
                assert(album.title == title);
            } else {
                assert(tracks[k] == album.tracks[k - 1]);
            }
        }
        assert forall|j: int| 0 <= j < r.len() implies album_linked(artist_id, #[trigger] r[j]) by {
            if j != bi {
                assert(r[j] == albums[j]);
            }
        }
    } else {
        assert forall|j: int| 0 <= j < r.len() implies album_linked(artist_id, #[trigger] r[j]) by {
            if j < albums.len() {
                assert(r[j] == albums[j]);
            } else {
                assert(r[j].tracks == seq![track]);
            }
        }
    }
}

/// Adding a track keeps the catalog's identifiers consistent.
pub proof fn lemma_add_track_linked(
    c: CatalogView,
    root: Seq<char>,
    file_name: Seq<char>,
    file_path: Seq<char>,
    tags: TrackTagsView,
)
    requires
        catalog_linked(c),
    ensures
        catalog_linked(spec_add_track(c, root, file_name, file_path, tags)),
{
    let name = spec_artist_name(tags);
    let title = spec_album_title(tags);
    let track = spec_track_of(root, file_name, file_path, tags);
    lemma_artist_index_spec(c.artists, name);
    let ai = artist_index(c.artists, name);
    let r = spec_add_track(c, root, file_name, file_path, tags);
    if ai < c.artists.len() {
        let artist = c.artists[ai];
        assert(artist.name == name);
        assert(artist.id == uuid_v5_of(artist_namespace(), name));
        lemma_add_to_albums_linked(artist.albums, artist.id, title, track);
        assert forall|i: int| 0 <= i < r.artists.len() implies artist_linked(
            #[trigger] r.artists[i],
        ) by {
            if i != ai {
                assert(r.artists[i] == c.artists[i]);
            }
        }
    } else {
        lemma_add_to_albums_linked(Seq::empty(), track.artist_id, title, track);
        assert forall|i: int| 0 <= i < r.artists.len() implies artist_linked(
            #[trigger] r.artists[i],
        ) by {
            if i < c.artists.len() {
                assert(r.artists[i] == c.artists[i]);
            } else {
                assert(r.artists[i].albums == spec_add_to_albums(Seq::empty(), title, track));
            }
        }
    }
}

/// Every built catalog has consistent identifiers: each one derived
/// from its entity's name, and every back-reference naming its owner.
pub proof fn lemma_build_linked(root: Seq<char>, entries: Seq<SourceEntryView>)
    ensures
        catalog_linked(spec_build(root, entries)),
    decreases entries.len(),
{
    if entries.len() > 0 {
        lemma_build_linked(root, entries.drop_last());
        let e = entries.last();
        if spec_entry_relevant(e) {
            lemma_add_track_linked(
                spec_build(root, entries.drop_last()),
                root,
                e.file_name,
                e.file_path,
                e.tags->0,
            );
        }
    }
}

} // verus!
