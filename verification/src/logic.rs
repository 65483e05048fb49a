//! Pages: the cards of tracks and artists, and the whole playlist page.
use vstd::prelude::*;

use crate::error::ConfigErrorView;
use crate::model::{Artist, Track};
use crate::parser::{
    LineError, Rendered, Templates, errors_are, opt_view, render, rendered_is, spec_render,
    spec_render_errors,
};
use crate::text::{owned, split_lines};

verus! {

impl Track {
    /// The track's card: the track template filled with this track.
    pub fn getHTML(&self, tpl: &Templates) -> (r: Rendered)
        ensures
            rendered_is(r, split_lines(tpl.track@), Some(*self), None, None, None, *tpl),
    {
        render(tpl.track.as_str(), Some(self.duplicate()), None, None, None, tpl)
    }
}

impl Artist {
    /// The artist's card: the artist template filled with this artist.
    pub fn getHTML(self, tpl: &Templates) -> (r: Rendered)
        ensures
            rendered_is(r, split_lines(tpl.artist@), None, Some(self), None, None, *tpl),
    {
        render(tpl.artist.as_str(), None, Some(self), None, None, tpl)
    }
}

/// The cards of `tracks`, one after the other.
pub open spec fn spec_tracks_html(tracks: Seq<Track>, tpl: Templates) -> Seq<char>
    decreases tracks.len(),
{
    if tracks.len() == 0 {
        Seq::empty()
    } else {
        spec_tracks_html(tracks.drop_last(), tpl) + spec_render(
            split_lines(tpl.track@),
            Some(tracks.last()),
            None,
            None,
            None,
            tpl,
        )
    }
}

/// The cards of `artists`, one after the other.
pub open spec fn spec_artists_html(artists: Seq<Artist>, tpl: Templates) -> Seq<char>
    decreases artists.len(),
{
    if artists.len() == 0 {
        Seq::empty()
    } else {
        spec_artists_html(artists.drop_last(), tpl) + spec_render(
            split_lines(tpl.artist@),
            None,
            Some(artists.last()),
            None,
            None,
            tpl,
        )
    }
}

/// The lines of the track template that cannot be filled, card after card.
pub open spec fn spec_tracks_errors(tracks: Seq<Track>, tpl: Templates) -> Seq<
    (int, ConfigErrorView),
>
    decreases tracks.len(),
{
    if tracks.len() == 0 {
        Seq::empty()
    } else {
        spec_tracks_errors(tracks.drop_last(), tpl) + spec_render_errors(
            split_lines(tpl.track@),
            Some(tracks.last()),
            None,
            None,
            None,
            tpl,
        )
    }
}

/// The lines of the artist template that cannot be filled, card after card.
pub open spec fn spec_artists_errors(artists: Seq<Artist>, tpl: Templates) -> Seq<
    (int, ConfigErrorView),
>
    decreases artists.len(),
{
    if artists.len() == 0 {
        Seq::empty()
    } else {
        spec_artists_errors(artists.drop_last(), tpl) + spec_render_errors(
            split_lines(tpl.artist@),
            None,
            Some(artists.last()),
            None,
            None,
            tpl,
        )
    }
}

/// Two lists of errors put one after the other are the two numbered lists put one
/// after the other.
proof fn lemma_errors_append(
    a: Seq<LineError>,
    x: Seq<(int, ConfigErrorView)>,
    b: Seq<LineError>,
    y: Seq<(int, ConfigErrorView)>,
)
    requires
        errors_are(a, x),
        errors_are(b, y),
    ensures
        errors_are(a + b, x + y),
{
    assert forall|i: int| 0 <= i < (x + y).len() implies #[trigger] (a + b)[i].line == (x
        + y)[i].0 && (a + b)[i].error@ == (x + y)[i].1 by {
        if i >= x.len() {
            let j = i - x.len();
            assert((a + b)[i] == b[j]);
            assert((x + y)[i] == y[j]);
            assert(b[j].line == y[j].0);
            assert(b[j].error@ == y[j].1);
        } else {
            assert((a + b)[i] == a[i]);
            assert((x + y)[i] == x[i]);
            assert(a[i].line == x[i].0);
            assert(a[i].error@ == x[i].1);
        }
    }
    assert((a + b).len() == (x + y).len());
}

/// The track cards of a page are one card per track, in the order of the tracks: the
/// card of the k-th track is the track template filled with that track.
pub proof fn lemma_track_cards(tracks: Seq<Track>, tpl: Templates)
    ensures
        spec_tracks_html(tracks, tpl) == tracks.map_values(
            |t: Track| spec_render(split_lines(tpl.track@), Some(t), None, None, None, tpl),
        ).flatten(),
    decreases tracks.len(),
{
    let f = |t: Track| spec_render(split_lines(tpl.track@), Some(t), None, None, None, tpl);
    if tracks.len() == 0 {
        assert(tracks.map_values(f) =~= Seq::<Seq<char>>::empty());
    } else {
        lemma_track_cards(tracks.drop_last(), tpl);
        assert(tracks.map_values(f) =~= tracks.drop_last().map_values(f).push(f(tracks.last())));
        tracks.drop_last().map_values(f).lemma_flatten_push(f(tracks.last()));
    }
}

/// The artist cards of a page are one card per artist, in the order of the artists: the
/// card of the k-th artist is the artist template filled with that artist.
pub proof fn lemma_artist_cards(artists: Seq<Artist>, tpl: Templates)
    ensures
        spec_artists_html(artists, tpl) == artists.map_values(
            |a: Artist| spec_render(split_lines(tpl.artist@), None, Some(a), None, None, tpl),
        ).flatten(),
    decreases artists.len(),
{
    let f = |a: Artist| spec_render(split_lines(tpl.artist@), None, Some(a), None, None, tpl);
    if artists.len() == 0 {
        assert(artists.map_values(f) =~= Seq::<Seq<char>>::empty());
    } else {
        lemma_artist_cards(artists.drop_last(), tpl);
        assert(artists.map_values(f) =~= artists.drop_last().map_values(f).push(f(artists.last())));
        artists.drop_last().map_values(f).lemma_flatten_push(f(artists.last()));
    }
}

/// The errors of the track cards come card after card, in the order of the tracks: those
/// of the k-th card are the failing lines of the track template filled with that track.
pub proof fn lemma_track_card_errors(tracks: Seq<Track>, tpl: Templates)
    ensures
        spec_tracks_errors(tracks, tpl) == tracks.map_values(
            |t: Track| spec_render_errors(split_lines(tpl.track@), Some(t), None, None, None, tpl),
        ).flatten(),
    decreases tracks.len(),
{
    let f = |t: Track| spec_render_errors(split_lines(tpl.track@), Some(t), None, None, None, tpl);
    if tracks.len() == 0 {
        assert(tracks.map_values(f) =~= Seq::<Seq<(int, ConfigErrorView)>>::empty());
    } else {
        lemma_track_card_errors(tracks.drop_last(), tpl);
        assert(tracks.map_values(f) =~= tracks.drop_last().map_values(f).push(f(tracks.last())));
        tracks.drop_last().map_values(f).lemma_flatten_push(f(tracks.last()));
    }
}

/// A template filled with the name of the playlist.
pub open spec fn with_playlist(template: Seq<char>, name: Seq<char>, tpl: Templates) -> Seq<char> {
    spec_render(split_lines(template), None, None, Some(name), None, tpl)
}

/// The playlist page: the header and the playlist templates filled with the playlist's
/// name, the track cards, the end of the track list, the artist cards and the tail.
pub open spec fn spec_page(name: Seq<char>, tracks: Seq<Track>, artists: Seq<Artist>, tpl: Templates) -> Seq<
    char,
> {
    with_playlist(tpl.header@, name, tpl) + with_playlist(tpl.playlist@, name, tpl)
        + spec_tracks_html(tracks, tpl) + "</div>"@ + spec_artists_html(artists, tpl) + tpl.tail@
}

/// The file a page is written to: the one asked for, else `<playlist>_playlist.html`.
pub open spec fn output_name(name: Seq<char>, output: Option<Seq<char>>) -> Seq<char> {
    match output {
        Some(o) => o,
        None => name + "_playlist.html"@,
    }
}

/// A generated page and where it goes.
pub struct Page {
    pub html: String,
    pub output: String,
    pub errors: Vec<crate::parser::LineError>,
}

/// The file a page is written to (see [`output_name`]).
pub fn output_file(playlistname: &str, output: Option<String>) -> (r: String)
    ensures
        r@ == output_name(playlistname@, opt_view(output)),
{
    match output {
        Some(o) => o,
        None => {
            let mut r = owned(playlistname);
            r.append("_playlist.html");
            r
        },
    }
}

/// The cards of `tracks`, and the errors of their lines.
fn tracks_html(tracks: &Vec<Track>, tpl: &Templates) -> (r: Rendered)
    ensures
        r.html@ == spec_tracks_html(tracks@, *tpl),
        errors_are(r.errors@, spec_tracks_errors(tracks@, *tpl)),
{
    let mut html = String::new();
    let mut errors: Vec<LineError> = Vec::new();
    let mut i: usize = 0;
    while i < tracks.len()
        invariant
            i <= tracks@.len(),
            html@ == spec_tracks_html(tracks@.take(i as int), *tpl),
            errors_are(errors@, spec_tracks_errors(tracks@.take(i as int), *tpl)),
        decreases tracks@.len() - i,
    {
        let mut card = tracks[i].getHTML(tpl);
        html.append(card.html.as_str());
        let ghost before = errors@;
        let ghost card_errors = card.errors@;
        errors.append(&mut card.errors);
        proof {
            assert(tracks@.take(i + 1).drop_last() =~= tracks@.take(i as int));
            assert(tracks@.take(i + 1).last() == tracks@[i as int]);
            assert(errors@ =~= before + card_errors);
            lemma_errors_append(
                before,
                spec_tracks_errors(tracks@.take(i as int), *tpl),
                card_errors,
                spec_render_errors(split_lines(tpl.track@), Some(tracks@[i as int]), None, None, None, *tpl),
            );
        }
        i = i + 1;
    }
    assert(tracks@.take(tracks@.len() as int) =~= tracks@);
    Rendered { html, errors }
}

proof fn lemma_artists_step(artists: Seq<Artist>, tpl: Templates)
    requires
        artists.len() > 0,
    ensures
        spec_artists_html(artists, tpl) == spec_artists_html(artists.drop_last(), tpl) + spec_render(
            split_lines(tpl.artist@),
            None,
            Some(artists.last()),
            None,
            None,
            tpl,
        ),
        spec_artists_errors(artists, tpl) == spec_artists_errors(artists.drop_last(), tpl)
            + spec_render_errors(split_lines(tpl.artist@), None, Some(artists.last()), None, None, tpl),
{
}

/// The cards of `artists`, and the errors of their lines.
fn artists_html(artists: Vec<Artist>, tpl: &Templates) -> (r: Rendered)
    ensures
        r.html@ == spec_artists_html(artists@, *tpl),
        errors_are(r.errors@, spec_artists_errors(artists@, *tpl)),
{
    let ghost all = artists@;
    assert(all.len() == artists.len());
    let mut rest = artists;
    let mut html = String::new();
    let mut errors: Vec<LineError> = Vec::new();
    let mut k: usize = 0;
    while rest.len() > 0
        invariant
            k <= all.len(),
            all.len() <= usize::MAX,
            rest@ == all.skip(k as int),
            html@ == spec_artists_html(all.take(k as int), *tpl),
            errors_are(errors@, spec_artists_errors(all.take(k as int), *tpl)),
        decreases rest@.len(),
    {
        let a = rest.remove(0);
        proof {
            assert(a == all[k as int]);
            assert(rest@ =~= all.skip(k + 1));
        }
        let mut card = a.getHTML(tpl);
        html.append(card.html.as_str());
        let ghost before = errors@;
        let ghost card_errors = card.errors@;
        errors.append(&mut card.errors);
        proof {
            lemma_artists_step(all.take(k + 1), *tpl);
            assert(all.take(k + 1).drop_last() =~= all.take(k as int));
            assert(all.take(k + 1).last() == all[k as int]);
            assert(errors@ =~= before + card_errors);
            lemma_errors_append(
                before,
                spec_artists_errors(all.take(k as int), *tpl),
                card_errors,
                spec_render_errors(split_lines(tpl.artist@), None, Some(all[k as int]), None, None, *tpl),
            );
        }
        k = k + 1;
    }
    assert(all.take(k as int) =~= all);
    Rendered { html, errors }
}

/// The errors of a page: the lines of the playlist template, then of the header template,
/// then of each track card and of each artist card, that could not be filled.
pub open spec fn spec_page_errors(
    name: Seq<char>,
    tracks: Seq<Track>,
    artists: Seq<Artist>,
    tpl: Templates,
) -> Seq<(int, ConfigErrorView)> {
    spec_render_errors(split_lines(tpl.playlist@), None, None, Some(name), None, tpl)
        + spec_render_errors(split_lines(tpl.header@), None, None, Some(name), None, tpl)
        + spec_tracks_errors(tracks, tpl) + spec_artists_errors(artists, tpl)
}

/// The playlist page for the playlist `playlistname` with the given tracks and artists,
/// and the file it is written to: `output` when given, else `<playlist>_playlist.html`.
/// The errors are those of the template lines that could not be filled: of the playlist
/// template, of the header template, then of the track cards and of the artist cards.
pub fn generate(
    playlistname: &str,
    tracks: &Vec<Track>,
    artists: Vec<Artist>,
    output: Option<String>,
    tpl: &Templates,
) -> (r: Page)
    ensures
        r.html@ == spec_page(playlistname@, tracks@, artists@, *tpl),
        r.output@ == output_name(playlistname@, opt_view(output)),
        errors_are(r.errors@, spec_page_errors(playlistname@, tracks@, artists@, *tpl)),
{
    let ghost artists_view = artists@;
    let mut top = render(tpl.playlist.as_str(), None, None, Some(owned(playlistname)), None, tpl);
    let mut header = render(tpl.header.as_str(), None, None, Some(owned(playlistname)), None, tpl);
    let mut cards = tracks_html(tracks, tpl);
    let mut artist_cards = artists_html(artists, tpl);
    let mut end = String::new();
    end.append(header.html.as_str());
    end.append(top.html.as_str());
    end.append(cards.html.as_str());
    end.append("</div>");
    end.append(artist_cards.html.as_str());
    end.append(tpl.tail.as_str());
    let ghost e1 = top.errors@;
    let ghost e2 = header.errors@;
    let ghost e3 = cards.errors@;
    let ghost e4 = artist_cards.errors@;
    let mut errors: Vec<LineError> = Vec::new();
    errors.append(&mut top.errors);
    errors.append(&mut header.errors);
    errors.append(&mut cards.errors);
    errors.append(&mut artist_cards.errors);
    proof {
        let name = playlistname@;
        let s1 = spec_render_errors(split_lines(tpl.playlist@), None, None, Some(name), None, *tpl);
        let s2 = spec_render_errors(split_lines(tpl.header@), None, None, Some(name), None, *tpl);
        let s3 = spec_tracks_errors(tracks@, *tpl);
        let s4 = spec_artists_errors(artists_view, *tpl);
        assert(errors@ =~= e1 + e2 + e3 + e4);
        lemma_errors_append(e1, s1, e2, s2);
        lemma_errors_append(e1 + e2, s1 + s2, e3, s3);
        lemma_errors_append(e1 + e2 + e3, s1 + s2 + s3, e4, s4);
    }
    Page { html: end, output: output_file(playlistname, output), errors }
}

} // verus!
