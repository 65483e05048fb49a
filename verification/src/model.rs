//! The records a playlist page is made of: tracks, artists and their albums.
use vstd::prelude::*;

use crate::text::{decimal, decimal_string, owned};

verus! {

/// The cover shown for a track or an artist until a real one is found.
pub const DEFAULT_COVER: &'static str = "https://lastfm.freetls.fastly.net/i/u/770x0/0248ee38f8d45f32fe6fad5d43e64f47.jpg#0248ee38f8d45f32fe6fad5d43e64f47";

/// The placeholder artist of a file whose tags name none.
pub const UNKNOWN_ARTIST: &'static str = "Unknown Artist";

/// The placeholder title of a file whose tags name none.
pub const UNKNOWN_TITLE: &'static str = "Unknown Title";

/// The album of a track that belongs to none.
pub const SINGLE: &'static str = "Single";

/// One entry of a playlist.
#[derive(Clone, Debug, PartialEq, Eq, PartialOrd, Ord)]
pub struct Track {
    pub title: String,
    pub artist: String,
    pub album: String,
    pub tracknum: String,
    pub maxtracknum: String,
    pub cover: String,
}

/// An artist with the data shown on its card.
#[derive(Clone, Debug, PartialEq, Eq, PartialOrd, Ord)]
pub struct Artist {
    pub name: String,
    pub cover: String,
    pub description: String,
    pub tags: Vec<String>,
    pub albums: Vec<Album>,
}

/// An album of an artist.
#[derive(Clone, Debug, PartialEq, Eq, PartialOrd, Ord)]
pub struct Album {
    pub name: String,
    pub cover: String,
}

impl Track {
    /// The sample track used for a preview page: its fields hold template variables.
    pub fn example() -> (r: Track)
        ensures
            r.title@ == "{$title}"@,
            r.artist@ == "{$artist}"@,
            r.album@ == "{$album}"@,
            r.tracknum@ == "{$tracknumber}"@,
            r.maxtracknum@ == ""@,
            r.cover@ == DEFAULT_COVER@,
    {
        Track {
            title: owned("{$title}"),
            artist: owned("{$artist}"),
            album: owned("{$album}"),
            tracknum: owned("{$tracknumber}"),
            maxtracknum: owned(""),
            cover: owned(DEFAULT_COVER),
        }
    }

    /// Replaces the cover.
    pub fn changeCover(&mut self, cover: &str)
        ensures
            final(self).cover@ == cover@,
            final(self).title == old(self).title,
            final(self).artist == old(self).artist,
            final(self).album == old(self).album,
            final(self).tracknum == old(self).tracknum,
            final(self).maxtracknum == old(self).maxtracknum,
    {
        self.cover = owned(cover);
    }

    /// A copy of the track.
    pub fn duplicate(&self) -> (r: Track)
        ensures
            r == *self,
    {
        Track {
            title: self.title.clone(),
            artist: self.artist.clone(),
            album: self.album.clone(),
            tracknum: self.tracknum.clone(),
            maxtracknum: self.maxtracknum.clone(),
            cover: self.cover.clone(),
        }
    }
}

/// The text a tag value stands for, or `default` when the tag is absent.
pub open spec fn tag_or(tag: Option<String>, default: Seq<char>) -> Seq<char> {
    match tag {
        Some(t) => t@,
        None => default,
    }
}

/// The decimal text of a numeric tag, or nothing when the tag is absent.
pub open spec fn number_or_empty(n: Option<u32>) -> Seq<char> {
    match n {
        Some(v) => decimal(v as nat),
        None => Seq::empty(),
    }
}

/// The value of an optional tag, or `default`.
fn text_or(tag: Option<String>, default: &str) -> (r: String)
    ensures
        r@ == tag_or(tag, default@),
{
    match tag {
        Some(t) => t,
        None => owned(default),
    }
}

/// The decimal text of an optional number, or the empty string.
fn number_text(n: Option<u32>) -> (r: String)
    ensures
        r@ == number_or_empty(n),
{
    match n {
        Some(v) => decimal_string(v as u64),
        None => String::new(),
    }
}

impl Track {
    /// The track described by the tags read from an audio file (all `None` when the
    /// file could not be read or has no tags).
    ///
    /// A missing artist or title falls back to the placeholders `Unknown Artist` and
    /// `Unknown Title`, and a track whose artist or title is such a placeholder is not
    /// kept. A missing album makes the track a `Single`.
    pub fn from_tags(
        artist: Option<String>,
        title: Option<String>,
        album: Option<String>,
        track: Option<u32>,
        track_total: Option<u32>,
    ) -> (r: Option<Track>)
        ensures
            r is None <==> (tag_or(artist, UNKNOWN_ARTIST@) == UNKNOWN_ARTIST@ || tag_or(
                title,
                UNKNOWN_TITLE@,
            ) == UNKNOWN_TITLE@),
            r matches Some(t) ==> {
                &&& t.artist@ == tag_or(artist, UNKNOWN_ARTIST@)
                &&& t.title@ == tag_or(title, UNKNOWN_TITLE@)
                &&& t.album@ == tag_or(album, SINGLE@)
                &&& t.tracknum@ == number_or_empty(track)
                &&& t.maxtracknum@ == number_or_empty(track_total)
                &&& t.cover@ == DEFAULT_COVER@
            },
    {
        let art = text_or(artist, UNKNOWN_ARTIST);
        let tit = text_or(title, UNKNOWN_TITLE);
        let alb = text_or(album, SINGLE);
        if crate::text::str_eq(art.as_str(), UNKNOWN_ARTIST) {
            return None;
        }
        if crate::text::str_eq(tit.as_str(), UNKNOWN_TITLE) {
            return None;
        }
        Some(
            Track {
                title: tit,
                artist: art,
                album: alb,
                tracknum: number_text(track),
                maxtracknum: number_text(track_total),
                cover: owned(DEFAULT_COVER),
            },
        )
    }
}

impl Artist {
    /// An artist made of the given parts.
    pub fn new(
        name: String,
        cover: String,
        description: String,
        tags: Vec<String>,
        albums: Vec<Album>,
    ) -> (r: Artist)
        ensures
            r.name == name,
            r.cover == cover,
            r.description == description,
            r.tags == tags,
            r.albums == albums,
    {
        Artist { name, cover, description, tags, albums }
    }

    /// The sample artist used for previews.
    pub fn example() -> (r: Artist)
        ensures
            r.name@ == "Example"@,
            r.cover@ == DEFAULT_COVER@,
            r.description@ == LOREM@,
            r.tags@.len() == 3,
            r.tags@[0]@ == "Pop"@,
            r.tags@[1]@ == "Rock"@,
            r.tags@[2]@ == "Electro"@,
            r.albums@.len() == 3,
            forall|i: int| 0 <= i < 3 ==> is_example_album(#[trigger] r.albums@[i]),
    {
        let mut tags: Vec<String> = Vec::new();
        tags.push(owned("Pop"));
        tags.push(owned("Rock"));
        tags.push(owned("Electro"));
        Artist {
            name: owned("Example"),
            cover: owned(DEFAULT_COVER),
            description: owned(LOREM),
            tags,
            albums: example_albums(),
        }
    }

    /// Renames the artist.
    pub fn set_name(&mut self, name: String)
        ensures
            final(self).name == name,
            final(self).cover == old(self).cover,
            final(self).description == old(self).description,
            final(self).tags == old(self).tags,
            final(self).albums == old(self).albums,
    {
        self.name = name;
    }
}

/// The description of the sample artist.
pub const LOREM: &'static str = "Lorem ipsum dolor sit amet, consectetur adipiscing elit, sed do eiusmod tempor incididunt ut labore et dolore magna aliqua. Ut enim ad minim veniam, quis nostrud exercitation ullamco laboris nisi ut aliquip ex ea commodo consequat. Duis aute irure dolor in reprehenderit in voluptate velit esse cillum dolore eu fugiat nulla pariatur. Excepteur sint occaecat cupidatat non proident, sunt in culpa qui officia deserunt mollit anim id est laborum.";

/// Whether `a` is the sample album.
pub open spec fn is_example_album(a: Album) -> bool {
    a.name@ == "Example"@ && a.cover@ == DEFAULT_COVER@
}

/// Three sample albums, the albums an artist is given before real ones are known.
pub fn example_albums() -> (r: Vec<Album>)
    ensures
        r@.len() == 3,
        forall|i: int| 0 <= i < 3 ==> is_example_album(#[trigger] r@[i]),
{
    let mut r: Vec<Album> = Vec::new();
    r.push(Album::example());
    r.push(Album::example());
    r.push(Album::example());
    r
}

impl Album {
    /// An album of the given name and cover.
    pub fn new(name: String, cover: String) -> (r: Album)
        ensures
            r.name == name,
            r.cover == cover,
    {
        Album { name, cover }
    }

    /// The sample album.
    pub fn example() -> (r: Album)
        ensures
            is_example_album(r),
    {
        Album { name: owned("Example"), cover: owned(DEFAULT_COVER) }
    }

    /// A copy of the album.
    pub fn duplicate(&self) -> (r: Album)
        ensures
            r == *self,
    {
        Album { name: self.name.clone(), cover: self.cover.clone() }
    }
}

/// A copy of a list of strings.
fn copy_strings(v: &Vec<String>) -> (r: Vec<String>)
    ensures
        r@ == v@,
{
    let mut r: Vec<String> = Vec::new();
    let mut i: usize = 0;
    while i < v.len()
        invariant
            i <= v@.len(),
            r@ == v@.take(i as int),
        decreases v@.len() - i,
    {
        r.push(v[i].clone());
        i = i + 1;
        assert(r@ =~= v@.take(i as int));
    }
    assert(v@.take(v@.len() as int) =~= v@);
    r
}

/// A copy of a list of albums.
fn copy_albums(v: &Vec<Album>) -> (r: Vec<Album>)
    ensures
        r@ == v@,
{
    let mut r: Vec<Album> = Vec::new();
    let mut i: usize = 0;
    while i < v.len()
        invariant
            i <= v@.len(),
            r@ == v@.take(i as int),
        decreases v@.len() - i,
    {
        r.push(v[i].duplicate());
        i = i + 1;
        assert(r@ =~= v@.take(i as int));
    }
    assert(v@.take(v@.len() as int) =~= v@);
    r
}

/// Whether two artists hold the same name, cover, description, tags and albums.
pub open spec fn same_artist(a: Artist, b: Artist) -> bool {
    &&& a.name == b.name
    &&& a.cover == b.cover
    &&& a.description == b.description
    &&& a.tags@ == b.tags@
    &&& a.albums@ == b.albums@
}

impl Artist {
    /// A copy of the artist.
    pub fn duplicate(&self) -> (r: Artist)
        ensures
            same_artist(r, *self),
    {
        Artist {
            name: self.name.clone(),
            cover: self.cover.clone(),
            description: self.description.clone(),
            tags: copy_strings(&self.tags),
            albums: copy_albums(&self.albums),
        }
    }
}

} // verus!
