//! Playlists kept in the media database of VLC: the queries, and the rows as tracks.
use vstd::prelude::*;

use crate::model::{DEFAULT_COVER, SINGLE, Track, UNKNOWN_ARTIST, UNKNOWN_TITLE};
use crate::text::{decimal, decimal_string, owned, replace_all, replace_str, str_eq};

verus! {

/// The kind of database a playlist is read from.
#[allow(non_camel_case_types)]
pub enum dbtype {
    Vlc,
    Vlc_playlists,
    Spotify,
}

impl dbtype {
    /// Whether tracks are read from a database of this kind (only VLC's media table).
    pub fn serves_tracks(&self) -> (r: bool)
        ensures
            r == (*self is Vlc),
    {
        match self {
            dbtype::Vlc => true,
            _ => false,
        }
    }

    /// Whether playlist names are read from a database of this kind.
    pub fn serves_playlists(&self) -> (r: bool)
        ensures
            r == (*self is Vlc_playlists),
    {
        match self {
            dbtype::Vlc_playlists => true,
            _ => false,
        }
    }
}

/// The query for the names of all playlists.
pub const PLAYLISTS_QUERY: &'static str = "\n    SELECT\n    name from playlist;\n    ";

/// The query for the favourite tracks.
pub const FAVORITES_QUERY: &'static str = "\n    SELECT \n    media.title, \n    artist.name AS artist, \n    album.title AS album, \n    media.track_number AS number\n    FROM media \n    INNER JOIN artist ON media.artist_id=artist.id_artist \n    INNER JOIN album ON media.album_id=id_album \n    WHERE media.is_favorite = 1;\n    ";

/// The query for the tracks of a playlist, `DUPA` standing for its name.
pub const PLAYLIST_QUERY: &'static str = "\n    SELECT \n    media.title, \n    artist.name AS artist, \n    album.title AS album, \n    media.track_number AS number\n    FROM media \n    INNER JOIN artist ON media.artist_id=artist.id_artist \n    INNER JOIN album ON media.album_id=id_album \n\t\tINNER JOIN playlistmediarelation AS pmr ON media.id_media=pmr.media_id\n\t\tINNER JOIN playlist ON pmr.playlist_id=playlist.id_playlist\n    WHERE playlist.name = \"DUPA\";\n    ";

/// The name under which VLC's favourite tracks are listed.
pub const FAVORITE: &'static str = "favorite";

/// The query for the tracks of the playlist `name`.
pub open spec fn spec_vlc_query(name: Seq<char>) -> Seq<char> {
    if name == FAVORITE@ {
        FAVORITES_QUERY@
    } else {
        replace_all(PLAYLIST_QUERY@, "DUPA"@, name)
    }
}

/// The query for the tracks of the playlist `name`: the favourites for `favorite`,
/// else the tracks related to the playlist of that name.
pub fn vlc_query(name: &str) -> (r: String)
    ensures
        r@ == spec_vlc_query(name@),
{
    if str_eq(name, FAVORITE) {
        owned(FAVORITES_QUERY)
    } else {
        proof {
            reveal_strlit("DUPA");
        }
        replace_str(PLAYLIST_QUERY, "DUPA", name)
    }
}

/// The names of the playlists to offer: those found, then the favourites.
pub fn vlc_playlist_names(names: Vec<String>) -> (r: Vec<String>)
    ensures
        r@.len() == names@.len() + 1,
        r@.drop_last() == names@,
        r@.last()@ == FAVORITE@,
{
    let mut r = names;
    let ghost before = r@;
    r.push(owned(FAVORITE));
    assert(r@.drop_last() =~= before);
    r
}

/// A row of the media table.
pub struct MediaRow {
    pub title: Option<String>,
    pub artist: Option<String>,
    pub album: Option<String>,
    pub number: u8,
}

/// The text of an optional column, or `default`.
pub open spec fn column_or(c: Option<String>, default: Seq<char>) -> Seq<char> {
    match c {
        Some(s) => s@,
        None => default,
    }
}

fn column_text(c: Option<String>, default: &str) -> (r: String)
    ensures
        r@ == column_or(c, default@),
{
    match c {
        Some(s) => s,
        None => owned(default),
    }
}

impl MediaRow {
    /// The track of this row: missing columns take the placeholders `Unknown Title`,
    /// `Unknown Artist` and `Single`; a track number of zero stands for none.
    pub fn toTrack(self) -> (r: Track)
        ensures
            r.title@ == column_or(self.title, UNKNOWN_TITLE@),
            r.artist@ == column_or(self.artist, UNKNOWN_ARTIST@),
            r.album@ == column_or(self.album, SINGLE@),
            r.tracknum@ == (if self.number > 0 {
                decimal(self.number as nat)
            } else {
                Seq::empty()
            }),
            r.maxtracknum@ == Seq::<char>::empty(),
            r.cover@ == DEFAULT_COVER@,
    {
        let trn = if self.number > 0 {
            decimal_string(self.number as u64)
        } else {
            String::new()
        };
        Track {
            title: column_text(self.title, UNKNOWN_TITLE),
            artist: column_text(self.artist, UNKNOWN_ARTIST),
            album: column_text(self.album, SINGLE),
            tracknum: trn,
            maxtracknum: String::new(),
            cover: owned(DEFAULT_COVER),
        }
    }
}

} // verus!
