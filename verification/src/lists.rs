//! The lists of tracks and artists that the page of a run is made of, kept between the
//! steps that fill and read them.
use vstd::prelude::*;

use crate::model::{Artist, Track, same_artist};

verus! {

/// A copy of a list of tracks.
fn copy_tracks(v: &Vec<Track>) -> (r: Vec<Track>)
    ensures
        r@ == v@,
{
    let mut r: Vec<Track> = Vec::new();
    let mut i: usize = 0;
    while i < v.len()
        invariant
            i <= v@.len(),
            r@ == v@.take(i as int),
        decreases v@.len() - i,
    {
        r.push(v[i].duplicate());
        i = i + 1;
        assert(r@ =~= v@.take(i as int));
    }
    assert(v@.take(v@.len() as int) =~= v@);
    r
}

/// Whether two lists hold the same artists, in the same order.
pub open spec fn same_artists(a: Seq<Artist>, b: Seq<Artist>) -> bool {
    &&& a.len() == b.len()
    &&& forall|i: int| 0 <= i < a.len() ==> same_artist(#[trigger] a[i], b[i])
}

/// A copy of a list of artists.
fn copy_artists(v: &Vec<Artist>) -> (r: Vec<Artist>)
    ensures
        same_artists(r@, v@),
{
    let mut r: Vec<Artist> = Vec::new();
    let mut i: usize = 0;
    while i < v.len()
        invariant
            i <= v@.len(),
            r@.len() == i,
            forall|j: int| 0 <= j < i ==> same_artist(#[trigger] r@[j], v@[j]),
        decreases v@.len() - i,
    {
        r.push(v[i].duplicate());
        i = i + 1;
    }
    r
}

/// The tracks and the artists of the page, both empty at first.
pub struct PageLists {
    tracks: Vec<Track>,
    artists: Vec<Artist>,
}

impl View for PageLists {
    type V = (Seq<Track>, Seq<Artist>);

    closed spec fn view(&self) -> (Seq<Track>, Seq<Artist>) {
        (self.tracks@, self.artists@)
    }
}

impl PageLists {
    /// No tracks and no artists.
    pub fn new() -> (r: PageLists)
        ensures
            r@.0 == Seq::<Track>::empty(),
            r@.1 == Seq::<Artist>::empty(),
    {
        PageLists { tracks: Vec::new(), artists: Vec::new() }
    }
}

/// Keeps `tracks` in place of the tracks kept; the artists stay.
#[allow(non_snake_case)]
pub fn set_TrackList(lists: &mut PageLists, tracks: Vec<Track>)
    ensures
        final(lists)@.0 == tracks@,
        final(lists)@.1 == old(lists)@.1,
{
    lists.tracks = tracks;
}

/// A copy of the tracks kept.
#[allow(non_snake_case)]
pub fn get_TrackList(lists: &PageLists) -> (r: Vec<Track>)
    ensures
        r@ == lists@.0,
{
    copy_tracks(&lists.tracks)
}

/// Keeps `artists` in place of the artists kept; the tracks stay.
#[allow(non_snake_case)]
pub fn set_ArtistList(lists: &mut PageLists, artists: Vec<Artist>)
    ensures
        final(lists)@.1 == artists@,
        final(lists)@.0 == old(lists)@.0,
{
    lists.artists = artists;
}

/// A copy of the artists kept: the same artists, in the same order.
#[allow(non_snake_case)]
pub fn get_ArtistList(lists: &PageLists) -> (r: Vec<Artist>)
    ensures
        same_artists(r@, lists@.1),
{
    copy_artists(&lists.artists)
}

} // verus!
