//! Deterministic identifier derivation.
//!
//! Every catalog entity gets an identifier that is a pure function of a
//! name string and a fixed per-entity-kind namespace, in the version-5
//! (name-based, SHA-1) UUID family. Re-deriving from the same name always
//! yields the same identifier, so logical entities keep their identifiers
//! across builds with no persisted state.

use vstd::prelude::*;

verus! {

/// The identifier that the version-5 UUID algorithm yields for a
/// namespace and a name, in hyphenated string form. The result depends on
/// the namespace bytes and the name alone.
pub uninterp spec fn uuid_v5_of(ns: Seq<u8>, name: Seq<char>) -> Seq<char>;

/// Relies on uuid::Uuid::new_v5: the SHA-1 based, name-dependent UUID,
/// deterministic in the namespace and name; and on uuid::Uuid's Display,
/// which formats it as the hyphenated string.
#[verifier::external_body]
fn uuid_v5_string(ns: &[u8; 16], name: &str) -> (r: String)
    ensures
        r@ == uuid_v5_of(ns@, name@),
{
    uuid::Uuid::new_v5(&uuid::Uuid::from_bytes(*ns), name.as_bytes()).to_string()
}

/// Namespace for artist identifiers.
pub open spec fn artist_namespace() -> Seq<u8> {
    seq![
        0xdd, 0x62, 0x54, 0x95, 0x48, 0x16, 0x4c, 0xb8,
        0x81, 0xf0, 0x13, 0xec, 0x46, 0x29, 0xc2, 0xcb,
    ]
}

/// Namespace for album identifiers.
pub open spec fn album_namespace() -> Seq<u8> {
    seq![
        0xc1, 0x17, 0x51, 0x0b, 0xb0, 0xdc, 0x4b, 0x42,
        0xb8, 0x4d, 0xdd, 0xda, 0x5d, 0x69, 0xc5, 0xf4,
    ]
}

/// Namespace for track identifiers.
pub open spec fn track_namespace() -> Seq<u8> {
    seq![
        0xa9, 0xc9, 0x5d, 0x7c, 0xc3, 0xb4, 0x42, 0x17,
        0xad, 0xcc, 0x81, 0x53, 0x60, 0x0e, 0x35, 0x45,
    ]
}

fn artist_namespace_bytes() -> (r: [u8; 16])
    ensures
        r@ == artist_namespace(),
{
    let r: [u8; 16] = [
        0xdd, 0x62, 0x54, 0x95, 0x48, 0x16, 0x4c, 0xb8,
        0x81, 0xf0, 0x13, 0xec, 0x46, 0x29, 0xc2, 0xcb,
    ];
    assert(r@ =~= artist_namespace());
    r
}

fn album_namespace_bytes() -> (r: [u8; 16])
    ensures
        r@ == album_namespace(),
{
    let r: [u8; 16] = [
        0xc1, 0x17, 0x51, 0x0b, 0xb0, 0xdc, 0x4b, 0x42,
        0xb8, 0x4d, 0xdd, 0xda, 0x5d, 0x69, 0xc5, 0xf4,
    ];
    assert(r@ =~= album_namespace());
    r
}

fn track_namespace_bytes() -> (r: [u8; 16])
    ensures
        r@ == track_namespace(),
{
    let r: [u8; 16] = [
        0xa9, 0xc9, 0x5d, 0x7c, 0xc3, 0xb4, 0x42, 0x17,
        0xad, 0xcc, 0x81, 0x53, 0x60, 0x0e, 0x35, 0x45,
    ];
    assert(r@ =~= track_namespace());
    r
}

/// Identifier of an artist, derived from the artist name.
pub fn derive_artist_id(name: &str) -> (r: String)
    ensures
        r@ == uuid_v5_of(artist_namespace(), name@),
{
    uuid_v5_string(&artist_namespace_bytes(), name)
}

/// Identifier of an album, derived from the album title alone: two
/// artists with an identically titled album share the album identifier.
pub fn derive_album_id(title: &str) -> (r: String)
    ensures
        r@ == uuid_v5_of(album_namespace(), title@),
{
    uuid_v5_string(&album_namespace_bytes(), title)
}

/// Identifier of a track, derived from the file's base name, not from tag
/// content: files with identical tags but different names get distinct
/// identifiers.
pub fn derive_track_id(file_name: &str) -> (r: String)
    ensures
        r@ == uuid_v5_of(track_namespace(), file_name@),
{
    uuid_v5_string(&track_namespace_bytes(), file_name)
}

/// Derivation is deterministic: equal namespaces and equal names always
/// yield the identical identifier, on any two derivations.
pub proof fn lemma_derive_deterministic(ns1: Seq<u8>, name1: Seq<char>, ns2: Seq<u8>, name2: Seq<char>)
    requires
        ns1 == ns2,
        name1 == name2,
    ensures
        uuid_v5_of(ns1, name1) == uuid_v5_of(ns2, name2),
{
}

} // verus!
