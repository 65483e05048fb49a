//! The template language: a line is copied to the output, and each `{..}` in it is
//! replaced by the value of the variable it names.
//!
//! A variable starts with a sigil that says where its value comes from: `$` the track,
//! `@` the artist, `!` the playlist, `^` the album, `%` the style sheet. Inside braces
//! a backslash escapes `{`, `}` and `\`; before any other character it stays as it is.
use vstd::prelude::*;

use crate::error::{ConfigError, ConfigErrorView};
use crate::model::{Album, Artist, Track};
use crate::text::{lines_of, owned, push_char, split_lines, str_eq, views};

verus! {

/// The template texts a page is made from, with the style sheet that `{%css}` stands for.
pub struct Templates {
    pub track: String,
    pub artist: String,
    pub album: String,
    pub playlist: String,
    pub header: String,
    pub tail: String,
    pub css: String,
}

/// A template line that could not be filled, numbered from one.
pub struct LineError {
    pub line: usize,
    pub error: ConfigError,
}

/// A filled template: the text of the lines that could be filled, and the errors of the
/// others.
pub struct Rendered {
    pub html: String,
    pub errors: Vec<LineError>,
}

/// The characters of an optional string.
pub open spec fn opt_view(o: Option<String>) -> Option<Seq<char>> {
    match o {
        Some(s) => Some(s@),
        None => None,
    }
}

/// Whether an executable result is the given mathematical result.
pub open spec fn result_is(r: Result<String, ConfigError>, s: Result<Seq<char>, ConfigErrorView>) -> bool {
    match r {
        Ok(v) => s == Ok::<Seq<char>, ConfigErrorView>(v@),
        Err(e) => s == Err::<Seq<char>, ConfigErrorView>(e@),
    }
}

/// The text of `{$tracknumber}`: empty without a track number, else the number and,
/// when known, the number of tracks.
pub open spec fn track_number_text(t: Track) -> Seq<char> {
    if t.tracknum@.len() == 0 {
        Seq::empty()
    } else if t.maxtracknum@.len() == 0 {
        "tracknumber: "@ + t.tracknum@
    } else {
        "tracknumber: "@ + t.tracknum@ + " / "@ + t.maxtracknum@
    }
}

/// The value of a track variable (`$`), by the name after the sigil.
pub open spec fn spec_replace_var(key: Seq<char>, t: Track) -> Result<Seq<char>, ConfigErrorView> {
    if key == "track"@ {
        Ok(t.title@)
    } else if key == "album"@ {
        Ok(t.album@)
    } else if key == "tracknumber"@ {
        Ok(track_number_text(t))
    } else if key == "artist"@ {
        Ok(t.artist@)
    } else if key == "cover"@ {
        Ok(t.cover@)
    } else {
        Err(ConfigErrorView::UnknownVariable(key))
    }
}

/// `items` separated by `sep`.
pub open spec fn join_with(items: Seq<Seq<char>>, sep: Seq<char>) -> Seq<char>
    decreases items.len(),
{
    if items.len() == 0 {
        Seq::empty()
    } else if items.len() == 1 {
        items[0]
    } else {
        join_with(items.drop_last(), sep) + sep + items.last()
    }
}

/// A tag as an HTML paragraph.
pub open spec fn tag_paragraph(t: Seq<char>) -> Seq<char> {
    "<p>"@ + t + "</p>"@
}

/// The text of `{@tags}`: one paragraph per tag, one per line.
pub open spec fn tags_html(tags: Seq<String>) -> Seq<char> {
    join_with(tags.map_values(|t: String| tag_paragraph(t@)), "\n"@)
}

/// The value of an album variable (`^`).
pub open spec fn spec_replace_var_album(key: Seq<char>, a: Album) -> Result<Seq<char>, ConfigErrorView> {
    if key == "name"@ {
        Ok(a.name@)
    } else if key == "cover"@ {
        Ok(a.cover@)
    } else {
        Err(ConfigErrorView::UnknownVariable(key))
    }
}

/// The value of a playlist variable (`!`).
pub open spec fn spec_replace_var_playlist(key: Seq<char>, playlist: Seq<char>) -> Result<
    Seq<char>,
    ConfigErrorView,
> {
    if key == "playlist"@ {
        Ok(playlist)
    } else {
        Err(ConfigErrorView::UnknownVariable(key))
    }
}

/// The value of a style variable (`%`).
pub open spec fn spec_replace_var_css(key: Seq<char>, css: Seq<char>) -> Result<Seq<char>, ConfigErrorView> {
    if key == "css"@ {
        Ok(css)
    } else {
        Err(ConfigErrorView::UnknownVariable(key))
    }
}

/// One when an artist is given: the artist's albums are filled in with the album
/// template, which is filled without an artist.
pub open spec fn art_rank(art: Option<Artist>) -> int {
    if art is Some {
        1
    } else {
        0
    }
}

/// Filling the rest `rest` of a line, with the output so far `out`, the variable
/// name read so far `buf`, whether a `{` is open and whether a backslash was just read
/// inside it.
pub open spec fn scan(
    rest: Seq<char>,
    out: Seq<char>,
    buf: Seq<char>,
    inside: bool,
    esc: bool,
    track: Option<Track>,
    art: Option<Artist>,
    play: Option<Seq<char>>,
    alb: Option<Album>,
    tpl: Templates,
) -> Result<Seq<char>, ConfigErrorView>
    decreases art_rank(art), 5int, rest.len(),
{
    if rest.len() == 0 {
        if inside {
            Err(ConfigErrorView::UnexpectedCurlyBrace)
        } else {
            Ok(out.push('\n'))
        }
    } else {
        let c = rest[0];
        let r = rest.drop_first();
        if esc {
            let b = if c == '{' || c == '}' || c == '\\' {
                buf.push(c)
            } else {
                buf.push('\\').push(c)
            };
            scan(r, out, b, inside, false, track, art, play, alb, tpl)
        } else if c == '\\' {
            if inside {
                scan(r, out, buf, inside, true, track, art, play, alb, tpl)
            } else {
                scan(r, out.push('\\'), buf, inside, false, track, art, play, alb, tpl)
            }
        } else if c == '{' {
            if inside {
                Err(ConfigErrorView::UnexpectedCurlyBrace)
            } else {
                scan(r, out, Seq::empty(), true, false, track, art, play, alb, tpl)
            }
        } else if c == '}' {
            if !inside {
                Err(ConfigErrorView::UnexpectedCurlyBrace)
            } else {
                match spec_parse_var(buf, track, art, play, alb, tpl) {
                    Ok(v) => scan(r, out + v, buf, false, false, track, art, play, alb, tpl),
                    Err(e) => Err(e),
                }
            }
        } else if inside {
            scan(r, out, buf.push(c), inside, false, track, art, play, alb, tpl)
        } else {
            scan(r, out.push(c), buf, inside, false, track, art, play, alb, tpl)
        }
    }
}

/// The filled line, ended by a line feed, or the first error met.
pub open spec fn spec_parse_line(
    line: Seq<char>,
    track: Option<Track>,
    art: Option<Artist>,
    play: Option<Seq<char>>,
    alb: Option<Album>,
    tpl: Templates,
) -> Result<Seq<char>, ConfigErrorView>
    decreases art_rank(art), 5int, line.len() + 1,
{
    scan(line, Seq::empty(), Seq::empty(), false, false, track, art, play, alb, tpl)
}

/// The value of the variable `var` (the text between the braces).
pub open spec fn spec_parse_var(
    var: Seq<char>,
    track: Option<Track>,
    art: Option<Artist>,
    play: Option<Seq<char>>,
    alb: Option<Album>,
    tpl: Templates,
) -> Result<Seq<char>, ConfigErrorView>
    decreases art_rank(art), 4int, 0int,
{
    if var.len() > 0 && var[0] == '$' && track is Some {
        spec_replace_var(var.drop_first(), track.unwrap())
    } else if var.len() > 0 && var[0] == '@' && art is Some {
        spec_replace_var_artist(var.drop_first(), art.unwrap(), tpl)
    } else if var.len() > 0 && var[0] == '!' && play is Some {
        spec_replace_var_playlist(var.drop_first(), play.unwrap())
    } else if var.len() > 0 && var[0] == '^' && alb is Some {
        spec_replace_var_album(var.drop_first(), alb.unwrap())
    } else if var.len() > 0 && var[0] == '%' {
        spec_replace_var_css(var.drop_first(), tpl.css@)
    } else {
        Err(ConfigErrorView::UnknownVariable(var))
    }
}

/// The value of an artist variable (`@`).
pub open spec fn spec_replace_var_artist(key: Seq<char>, a: Artist, tpl: Templates) -> Result<
    Seq<char>,
    ConfigErrorView,
>
    decreases 1int, 3int, 0int,
{
    if key == "name"@ {
        Ok(a.name@)
    } else if key == "cover"@ {
        Ok(a.cover@)
    } else if key == "description"@ {
        Ok(a.description@)
    } else if key == "tags"@ {
        Ok(tags_html(a.tags@))
    } else if key == "albums"@ {
        Ok(spec_for_albs(a.albums@, tpl))
    } else {
        Err(ConfigErrorView::UnknownVariable(key))
    }
}

/// The album template filled for each album in turn.
pub open spec fn spec_for_albs(albums: Seq<Album>, tpl: Templates) -> Seq<char>
    decreases 1int, 2int, albums.len(),
{
    if albums.len() == 0 {
        Seq::empty()
    } else {
        spec_for_albs(albums.drop_last(), tpl) + spec_for_alb(albums.last(), tpl)
    }
}

/// The album template filled for one album.
pub open spec fn spec_for_alb(a: Album, tpl: Templates) -> Seq<char>
    decreases 1int, 1int, 0int,
{
    spec_render(split_lines(tpl.album@), None, None, None, Some(a), tpl)
}

/// The filled lines of a template, one after the other; a line that cannot be filled
/// contributes nothing.
pub open spec fn spec_render(
    lines: Seq<Seq<char>>,
    track: Option<Track>,
    art: Option<Artist>,
    play: Option<Seq<char>>,
    alb: Option<Album>,
    tpl: Templates,
) -> Seq<char>
    decreases art_rank(art), 6int, lines.len(),
{
    if lines.len() == 0 {
        Seq::empty()
    } else {
        let prev = spec_render(lines.drop_last(), track, art, play, alb, tpl);
        match spec_parse_line(lines.last(), track, art, play, alb, tpl) {
            Ok(v) => prev + v,
            Err(_) => prev,
        }
    }
}

/// The lines of a template that cannot be filled: their numbers, counted from one,
/// and their errors.
pub open spec fn spec_render_errors(
    lines: Seq<Seq<char>>,
    track: Option<Track>,
    art: Option<Artist>,
    play: Option<Seq<char>>,
    alb: Option<Album>,
    tpl: Templates,
) -> Seq<(int, ConfigErrorView)>
    decreases lines.len(),
{
    if lines.len() == 0 {
        Seq::empty()
    } else {
        let prev = spec_render_errors(lines.drop_last(), track, art, play, alb, tpl);
        match spec_parse_line(lines.last(), track, art, play, alb, tpl) {
            Ok(_) => prev,
            Err(e) => prev.push((lines.len() as int, e)),
        }
    }
}

/// Whether `errors` are the numbered errors `errs`.
pub open spec fn errors_are(errors: Seq<LineError>, errs: Seq<(int, ConfigErrorView)>) -> bool {
    &&& errors.len() == errs.len()
    &&& forall|i: int|
        0 <= i < errs.len() ==> #[trigger] errors[i].line == errs[i].0 && errors[i].error@
            == errs[i].1
}

/// Whether `r` is the template `lines` filled with the given variables.
pub open spec fn rendered_is(
    r: Rendered,
    lines: Seq<Seq<char>>,
    track: Option<Track>,
    art: Option<Artist>,
    play: Option<Seq<char>>,
    alb: Option<Album>,
    tpl: Templates,
) -> bool {
    &&& r.html@ == spec_render(lines, track, art, play, alb, tpl)
    &&& errors_are(r.errors@, spec_render_errors(lines, track, art, play, alb, tpl))
}

fn replace_var(key: &str, track: &Track) -> (r: Result<String, ConfigError>)
    ensures
        result_is(r, spec_replace_var(key@, *track)),
{
    if str_eq(key, "track") {
        Ok(track.title.clone())
    } else if str_eq(key, "album") {
        Ok(track.album.clone())
    } else if str_eq(key, "tracknumber") {
        let mut numb = String::new();
        if track.tracknum.unicode_len() != 0 {
            numb.append("tracknumber: ");
            numb.append(track.tracknum.as_str());
            if track.maxtracknum.unicode_len() != 0 {
                numb.append(" / ");
                numb.append(track.maxtracknum.as_str());
            }
        }
        assert(numb@ =~= track_number_text(*track));
        Ok(numb)
    } else if str_eq(key, "artist") {
        Ok(track.artist.clone())
    } else if str_eq(key, "cover") {
        Ok(track.cover.clone())
    } else {
        Err(ConfigError::UnknownVariable(owned(key)))
    }
}

fn tags_text(tags: &Vec<String>) -> (r: String)
    ensures
        r@ == tags_html(tags@),
{
    let ghost items = tags@.map_values(|t: String| tag_paragraph(t@));
    let mut r = String::new();
    let mut i: usize = 0;
    while i < tags.len()
        invariant
            i <= tags@.len(),
            items == tags@.map_values(|t: String| tag_paragraph(t@)),
            r@ == join_with(items.take(i as int), "\n"@),
        decreases tags@.len() - i,
    {
        let ghost before = r@;
        if i > 0 {
            r.append("\n");
        }
        r.append("<p>");
        r.append(tags[i].as_str());
        r.append("</p>");
        proof {
            let t = items.take(i + 1);
            assert(t.drop_last() =~= items.take(i as int));
            assert(t.last() == tag_paragraph(tags@[i as int]@));
            assert(r@ =~= join_with(t, "\n"@));
        }
        i = i + 1;
    }
    assert(items.take(tags@.len() as int) =~= items);
    r
}

fn replace_var_album(key: &str, alb: &Album) -> (r: Result<String, ConfigError>)
    ensures
        result_is(r, spec_replace_var_album(key@, *alb)),
{
    if str_eq(key, "name") {
        Ok(alb.name.clone())
    } else if str_eq(key, "cover") {
        Ok(alb.cover.clone())
    } else {
        Err(ConfigError::UnknownVariable(owned(key)))
    }
}

fn replace_var_playlist(key: &str, playlist: &str) -> (r: Result<String, ConfigError>)
    ensures
        result_is(r, spec_replace_var_playlist(key@, playlist@)),
{
    if str_eq(key, "playlist") {
        Ok(owned(playlist))
    } else {
        Err(ConfigError::UnknownVariable(owned(key)))
    }
}

fn replace_var_css(key: &str, css: &str) -> (r: Result<String, ConfigError>)
    ensures
        result_is(r, spec_replace_var_css(key@, css@)),
{
    if str_eq(key, "css") {
        Ok(owned(css))
    } else {
        Err(ConfigError::UnknownVariable(owned(key)))
    }
}

fn replace_var_artist(key: &str, art: &Artist, tpl: &Templates) -> (r: Result<String, ConfigError>)
    ensures
        result_is(r, spec_replace_var_artist(key@, *art, *tpl)),
    decreases 1int, 3int, 0int,
{
    if str_eq(key, "name") {
        Ok(art.name.clone())
    } else if str_eq(key, "cover") {
        Ok(art.cover.clone())
    } else if str_eq(key, "description") {
        Ok(art.description.clone())
    } else if str_eq(key, "tags") {
        Ok(tags_text(&art.tags))
    } else if str_eq(key, "albums") {
        Ok(for_albs(&art.albums, tpl))
    } else {
        Err(ConfigError::UnknownVariable(owned(key)))
    }
}

/// The album template filled for each of `albums` in turn.
pub fn for_albs(albums: &Vec<Album>, tpl: &Templates) -> (r: String)
    ensures
        r@ == spec_for_albs(albums@, *tpl),
    decreases 1int, 2int, 0int,
{
    let mut fin = String::new();
    let mut i: usize = 0;
    while i < albums.len()
        invariant
            i <= albums@.len(),
            fin@ == spec_for_albs(albums@.take(i as int), *tpl),
        decreases albums@.len() - i,
    {
        let s = for_alb(&albums[i], tpl);
        fin.append(s.as_str());
        proof {
            let t = albums@.take(i + 1);
            assert(t.drop_last() =~= albums@.take(i as int));
        }
        i = i + 1;
    }
    assert(albums@.take(albums@.len() as int) =~= albums@);
    fin
}

/// The album template filled for `album`.
pub fn for_alb(album: &Album, tpl: &Templates) -> (r: String)
    ensures
        r@ == spec_for_alb(*album, *tpl),
    decreases 1int, 1int, 0int,
{
    let lines = lines_of(tpl.album.as_str());
    let alb = Some(album.duplicate());
    let no_track: Option<Track> = None;
    let no_art: Option<Artist> = None;
    let no_play: Option<String> = None;
    let r = render_lines(&lines, &no_track, &no_art, &no_play, &alb, tpl);
    r.html
}

fn parse_var(
    var: &str,
    track: &Option<Track>,
    art: &Option<Artist>,
    play: &Option<String>,
    alb: &Option<Album>,
    tpl: &Templates,
) -> (r: Result<String, ConfigError>)
    ensures
        result_is(r, spec_parse_var(var@, *track, *art, opt_view(*play), *alb, *tpl)),
    decreases art_rank(*art), 4int, 0int,
{
    let n = var.unicode_len();
    if n > 0 {
        let c = var.get_char(0);
        let key = var.substring_char(1, n);
        assert(key@ =~= var@.drop_first());
        if c == '$' {
            if let Some(t) = track {
                return replace_var(key, t);
            }
        }
        if c == '@' {
            if let Some(a) = art {
                return replace_var_artist(key, a, tpl);
            }
        }
        if c == '!' {
            if let Some(p) = play {
                return replace_var_playlist(key, p.as_str());
            }
        }
        if c == '^' {
            if let Some(a) = alb {
                return replace_var_album(key, a);
            }
        }
        if c == '%' {
            return replace_var_css(key, tpl.css.as_str());
        }
    }
    Err(ConfigError::UnknownVariable(owned(var)))
}

/// Fills one template line (see [`parse_line`]).
#[verifier::rlimit(40)]
#[verifier::spinoff_prover]
pub fn fill_line(
    line: &str,
    track: &Option<Track>,
    art: &Option<Artist>,
    play: &Option<String>,
    alb: &Option<Album>,
    tpl: &Templates,
) -> (r: Result<String, ConfigError>)
    ensures
        result_is(r, spec_parse_line(line@, *track, *art, opt_view(*play), *alb, *tpl)),
    decreases art_rank(*art), 5int, 0int,
{
    let v = crate::text::to_chars(line);
    let mut out = String::new();
    let mut buf = String::new();
    let mut inside = false;
    let mut esc = false;
    let mut i: usize = 0;
    assert(v@.skip(0) =~= v@);
    while i < v.len()
        invariant
            v@ == line@,
            i <= v@.len(),
            esc ==> inside,
            scan(v@.skip(i as int), out@, buf@, inside, esc, *track, *art, opt_view(*play), *alb, *tpl)
                == spec_parse_line(line@, *track, *art, opt_view(*play), *alb, *tpl),
        decreases v@.len() - i,
    {
        let c = v[i];
        assert(v@.skip(i as int)[0] == c);
        assert(v@.skip(i as int).drop_first() =~= v@.skip(i + 1));
        if esc {
            if c == '{' || c == '}' || c == '\\' {
                push_char(&mut buf, c);
            } else {
                push_char(&mut buf, '\\');
                push_char(&mut buf, c);
            }
            esc = false;
        } else if c == '\\' {
            if inside {
                esc = true;
            } else {
                push_char(&mut out, '\\');
            }
        } else if c == '{' {
            if inside {
                return Err(ConfigError::UnexpectedCurlyBrace);
            }
            inside = true;
            buf = String::new();
        } else if c == '}' {
            if !inside {
                return Err(ConfigError::UnexpectedCurlyBrace);
            }
            inside = false;
            match parse_var(buf.as_str(), track, art, play, alb, tpl) {
                Ok(val) => {
                    out.append(val.as_str());
                },
                Err(e) => {
                    return Err(e);
                },
            }
        } else if inside {
            push_char(&mut buf, c);
        } else {
            push_char(&mut out, c);
        }
        i = i + 1;
    }
    if inside {
        return Err(ConfigError::UnexpectedCurlyBrace);
    }
    push_char(&mut out, '\n');
    Ok(out)
}

/// Fills the lines of a template one by one, keeping the lines that can be filled and
/// the errors of the others.
#[verifier::rlimit(40)]
#[verifier::spinoff_prover]
pub fn render_lines(
    lines: &Vec<String>,
    track: &Option<Track>,
    art: &Option<Artist>,
    play: &Option<String>,
    alb: &Option<Album>,
    tpl: &Templates,
) -> (r: Rendered)
    ensures
        rendered_is(r, views(lines@), *track, *art, opt_view(*play), *alb, *tpl),
    decreases art_rank(*art), 6int, 0int,
{
    let ghost ls = views(lines@);
    let mut html = String::new();
    let mut errors: Vec<LineError> = Vec::new();
    let mut i: usize = 0;
    while i < lines.len()
        invariant
            i <= lines@.len(),
            ls == views(lines@),
            ls.len() == lines@.len(),
            html@ == spec_render(ls.take(i as int), *track, *art, opt_view(*play), *alb, *tpl),
            errors_are(errors@, spec_render_errors(ls.take(i as int), *track, *art, opt_view(*play), *alb, *tpl)),
        decreases lines@.len() - i,
    {
        let ghost t = ls.take(i + 1);
        assert(t.drop_last() =~= ls.take(i as int));
        assert(t.last() == lines@[i as int]@);
        assert(t.len() == i + 1);
        let ghost prev_errors = errors@;
        let res = fill_line(lines[i].as_str(), track, art, play, alb, tpl);
        match res {
            Ok(s) => {
                html.append(s.as_str());
            },
            Err(e) => {
                errors.push(LineError { line: i + 1, error: e });
                assert(errors@ == prev_errors.push(errors@.last()));
            },
        }
        i = i + 1;
    }
    assert(ls.take(lines@.len() as int) =~= ls);
    Rendered { html, errors }
}

/// Whether `s` holds no brace.
pub open spec fn no_braces(s: Seq<char>) -> bool {
    !s.contains('{') && !s.contains('}')
}

proof fn lemma_scan_literal(
    a: Seq<char>,
    rest: Seq<char>,
    out: Seq<char>,
    buf: Seq<char>,
    track: Option<Track>,
    art: Option<Artist>,
    play: Option<Seq<char>>,
    alb: Option<Album>,
    tpl: Templates,
)
    requires
        no_braces(a),
    ensures
        scan(a + rest, out, buf, false, false, track, art, play, alb, tpl) == scan(
            rest,
            out + a,
            buf,
            false,
            false,
            track,
            art,
            play,
            alb,
            tpl,
        ),
    decreases a.len(),
{
    if a.len() == 0 {
        assert(a + rest =~= rest);
        assert(out + a =~= out);
    } else {
        let c = a[0];
        assert(a.contains(c));
        assert((a + rest)[0] == c);
        assert((a + rest).drop_first() =~= a.drop_first() + rest);
        assert(no_braces(a.drop_first())) by {
            if a.drop_first().contains('{') {
                let j = choose|j: int| 0 <= j < a.drop_first().len() && a.drop_first()[j] == '{';
                assert(a[j + 1] == '{');
            }
            if a.drop_first().contains('}') {
                let j = choose|j: int| 0 <= j < a.drop_first().len() && a.drop_first()[j] == '}';
                assert(a[j + 1] == '}');
            }
        }
        lemma_scan_literal(a.drop_first(), rest, out.push(c), buf, track, art, play, alb, tpl);
        assert(out.push(c) + a.drop_first() =~= out + a);
    }
}

/// Whether `s` can stand between braces as written: no brace and no backslash in it.
pub open spec fn plain_name(s: Seq<char>) -> bool {
    no_braces(s) && !s.contains('\\')
}

proof fn lemma_scan_name(
    v: Seq<char>,
    rest: Seq<char>,
    out: Seq<char>,
    buf: Seq<char>,
    track: Option<Track>,
    art: Option<Artist>,
    play: Option<Seq<char>>,
    alb: Option<Album>,
    tpl: Templates,
)
    requires
        plain_name(v),
    ensures
        scan(v + rest, out, buf, true, false, track, art, play, alb, tpl) == scan(
            rest,
            out,
            buf + v,
            true,
            false,
            track,
            art,
            play,
            alb,
            tpl,
        ),
    decreases v.len(),
{
    if v.len() == 0 {
        assert(v + rest =~= rest);
        assert(buf + v =~= buf);
    } else {
        let c = v[0];
        assert(v.contains(c));
        assert((v + rest)[0] == c);
        assert((v + rest).drop_first() =~= v.drop_first() + rest);
        assert(plain_name(v.drop_first())) by {
            let d = v.drop_first();
            if d.contains('{') {
                let j = choose|j: int| 0 <= j < d.len() && d[j] == '{';
                assert(v[j + 1] == '{');
            }
            if d.contains('}') {
                let j = choose|j: int| 0 <= j < d.len() && d[j] == '}';
                assert(v[j + 1] == '}');
            }
            if d.contains('\\') {
                let j = choose|j: int| 0 <= j < d.len() && d[j] == '\\';
                assert(v[j + 1] == '\\');
            }
        }
        lemma_scan_name(v.drop_first(), rest, out, buf.push(c), track, art, play, alb, tpl);
        assert(buf.push(c) + v.drop_first() =~= buf + v);
    }
}

/// A line without braces is copied as it is, followed by a line feed.
pub proof fn lemma_literal_line(
    line: Seq<char>,
    track: Option<Track>,
    art: Option<Artist>,
    play: Option<Seq<char>>,
    alb: Option<Album>,
    tpl: Templates,
)
    requires
        no_braces(line),
    ensures
        spec_parse_line(line, track, art, play, alb, tpl) == Ok::<Seq<char>, ConfigErrorView>(
            line.push('\n'),
        ),
{
    lemma_scan_literal(line, Seq::empty(), Seq::empty(), Seq::empty(), track, art, play, alb, tpl);
    assert(line + Seq::<char>::empty() =~= line);
    assert(Seq::<char>::empty() + line =~= line);
}

/// A variable between two texts without braces is replaced by its value: the line is
/// the text before, the value, the text after and a line feed; or the variable's error.
pub proof fn lemma_one_variable(
    before: Seq<char>,
    name: Seq<char>,
    after: Seq<char>,
    track: Option<Track>,
    art: Option<Artist>,
    play: Option<Seq<char>>,
    alb: Option<Album>,
    tpl: Templates,
)
    requires
        no_braces(before),
        plain_name(name),
        no_braces(after),
    ensures
        spec_parse_line(before + seq!['{'] + name + seq!['}'] + after, track, art, play, alb, tpl)
            == match spec_parse_var(name, track, art, play, alb, tpl) {
            Ok(v) => Ok(before + v + after.push('\n')),
            Err(e) => Err(e),
        },
{
    let e = Seq::<char>::empty();
    let tail = seq!['}'] + after;
    let line = before + seq!['{'] + name + seq!['}'] + after;
    assert(line =~= before + (seq!['{'] + (name + tail)));
    lemma_scan_literal(before, seq!['{'] + (name + tail), e, e, track, art, play, alb, tpl);
    assert(e + before =~= before);
    let s1 = seq!['{'] + (name + tail);
    assert(s1[0] == '{');
    assert(s1.drop_first() =~= name + tail);
    lemma_scan_name(name, tail, before, e, track, art, play, alb, tpl);
    assert(e + name =~= name);
    assert(tail[0] == '}');
    assert(tail.drop_first() =~= after);
    match spec_parse_var(name, track, art, play, alb, tpl) {
        Ok(v) => {
            lemma_scan_literal(after, e, before + v, name, track, art, play, alb, tpl);
            assert(after + e =~= after);
            assert((before + v + after).push('\n') =~= before + v + after.push('\n'));
        },
        Err(_) => {},
    }
}

proof fn lemma_scan_unclosed(
    rest: Seq<char>,
    out: Seq<char>,
    buf: Seq<char>,
    esc: bool,
    track: Option<Track>,
    art: Option<Artist>,
    play: Option<Seq<char>>,
    alb: Option<Album>,
    tpl: Templates,
)
    requires
        !rest.contains('}'),
    ensures
        scan(rest, out, buf, true, esc, track, art, play, alb, tpl) == Err::<
            Seq<char>,
            ConfigErrorView,
        >(ConfigErrorView::UnexpectedCurlyBrace),
    decreases rest.len(),
{
    if rest.len() > 0 {
        let c = rest[0];
        let r = rest.drop_first();
        assert(!r.contains('}')) by {
            if r.contains('}') {
                let j = choose|j: int| 0 <= j < r.len() && r[j] == '}';
                assert(rest[j + 1] == '}');
            }
        }
        assert(rest.contains(c));
        let b = if c == '{' || c == '}' || c == '\\' {
            buf.push(c)
        } else {
            buf.push('\\').push(c)
        };
        lemma_scan_unclosed(r, out, b, false, track, art, play, alb, tpl);
        lemma_scan_unclosed(r, out, buf, true, track, art, play, alb, tpl);
        lemma_scan_unclosed(r, out, buf.push(c), false, track, art, play, alb, tpl);
    }
}

/// The first position of `c` in `s`, which holds it.
proof fn first_index(s: Seq<char>, c: char) -> (j: int)
    requires
        s.contains(c),
    ensures
        0 <= j < s.len(),
        s[j] == c,
        forall|k: int| 0 <= k < j ==> s[k] != c,
    decreases s.len(),
{
    if s[0] == c {
        0
    } else {
        let d = s.drop_first();
        assert(d.contains(c)) by {
            let k = choose|k: int| 0 <= k < s.len() && s[k] == c;
            assert(k > 0);
            assert(d[k - 1] == c);
        }
        let j = first_index(d, c);
        assert forall|k: int| 0 <= k < j + 1 implies s[k] != c by {
            if k > 0 {
                assert(s[k] == d[k - 1]);
            }
        }
        j + 1
    }
}

/// A `{` that is never closed makes the line fail.
pub proof fn lemma_unclosed_brace(
    line: Seq<char>,
    track: Option<Track>,
    art: Option<Artist>,
    play: Option<Seq<char>>,
    alb: Option<Album>,
    tpl: Templates,
)
    requires
        line.contains('{'),
        !line.contains('}'),
    ensures
        spec_parse_line(line, track, art, play, alb, tpl) == Err::<Seq<char>, ConfigErrorView>(
            ConfigErrorView::UnexpectedCurlyBrace,
        ),
{
    let e = Seq::<char>::empty();
    let j = first_index(line, '{');
    let before = line.take(j);
    let rest = line.skip(j);
    assert(line =~= before + rest);
    assert(no_braces(before)) by {
        if before.contains('{') {
            let k = choose|k: int| 0 <= k < before.len() && before[k] == '{';
            assert(line[k] == '{');
        }
        if before.contains('}') {
            let k = choose|k: int| 0 <= k < before.len() && before[k] == '}';
            assert(line[k] == '}');
        }
    }
    lemma_scan_literal(before, rest, e, e, track, art, play, alb, tpl);
    assert(rest[0] == '{');
    assert(!rest.drop_first().contains('}')) by {
        if rest.drop_first().contains('}') {
            let k = choose|k: int| 0 <= k < rest.drop_first().len() && rest.drop_first()[k] == '}';
            assert(line[j + 1 + k] == '}');
        }
    }
    lemma_scan_unclosed(rest.drop_first(), e + before, e, false, track, art, play, alb, tpl);
}

/// A `}` with no `{` before it makes the line fail.
pub proof fn lemma_unopened_brace(
    line: Seq<char>,
    k: int,
    track: Option<Track>,
    art: Option<Artist>,
    play: Option<Seq<char>>,
    alb: Option<Album>,
    tpl: Templates,
)
    requires
        0 <= k < line.len(),
        line[k] == '}',
        forall|i: int| 0 <= i < k ==> line[i] != '{',
    ensures
        spec_parse_line(line, track, art, play, alb, tpl) == Err::<Seq<char>, ConfigErrorView>(
            ConfigErrorView::UnexpectedCurlyBrace,
        ),
{
    let e = Seq::<char>::empty();
    assert(line.contains('}'));
    let j = first_index(line, '}');
    let before = line.take(j);
    let rest = line.skip(j);
    assert(line =~= before + rest);
    assert(no_braces(before)) by {
        if before.contains('{') {
            let m = choose|m: int| 0 <= m < before.len() && before[m] == '{';
            assert(line[m] == '{');
        }
        if before.contains('}') {
            let m = choose|m: int| 0 <= m < before.len() && before[m] == '}';
            assert(line[m] == '}');
        }
    }
    lemma_scan_literal(before, rest, e, e, track, art, play, alb, tpl);
    assert(rest[0] == '}');
}

/// `r` with `out` put before its text.
pub open spec fn prefixed(out: Seq<char>, r: Result<Seq<char>, ConfigErrorView>) -> Result<
    Seq<char>,
    ConfigErrorView,
> {
    match r {
        Ok(v) => Ok(out + v),
        Err(e) => Err(e),
    }
}

/// Outside braces, the variable name read before does not matter.
proof fn lemma_scan_outside_buf(
    s: Seq<char>,
    out: Seq<char>,
    buf: Seq<char>,
    track: Option<Track>,
    art: Option<Artist>,
    play: Option<Seq<char>>,
    alb: Option<Album>,
    tpl: Templates,
)
    ensures
        scan(s, out, buf, false, false, track, art, play, alb, tpl) == scan(
            s,
            out,
            Seq::empty(),
            false,
            false,
            track,
            art,
            play,
            alb,
            tpl,
        ),
    decreases s.len(),
{
    if s.len() > 0 {
        let c = s[0];
        let r = s.drop_first();
        lemma_scan_outside_buf(r, out.push('\\'), buf, track, art, play, alb, tpl);
        lemma_scan_outside_buf(r, out.push(c), buf, track, art, play, alb, tpl);
    }
}

/// The output so far is put before whatever the rest of the line gives.
proof fn lemma_scan_output(
    s: Seq<char>,
    out: Seq<char>,
    buf: Seq<char>,
    inside: bool,
    esc: bool,
    track: Option<Track>,
    art: Option<Artist>,
    play: Option<Seq<char>>,
    alb: Option<Album>,
    tpl: Templates,
)
    ensures
        scan(s, out, buf, inside, esc, track, art, play, alb, tpl) == prefixed(
            out,
            scan(s, Seq::empty(), buf, inside, esc, track, art, play, alb, tpl),
        ),
    decreases s.len(),
{
    let e = Seq::<char>::empty();
    if s.len() == 0 {
        assert(out + e.push('\n') =~= out.push('\n'));
    } else {
        let c = s[0];
        let r = s.drop_first();
        if esc {
            let b = if c == '{' || c == '}' || c == '\\' {
                buf.push(c)
            } else {
                buf.push('\\').push(c)
            };
            lemma_scan_output(r, out, b, inside, false, track, art, play, alb, tpl);
        } else if c == '\\' {
            if inside {
                lemma_scan_output(r, out, buf, inside, true, track, art, play, alb, tpl);
            } else {
                lemma_scan_output(r, out.push('\\'), buf, inside, false, track, art, play, alb, tpl);
                lemma_scan_output(r, e.push('\\'), buf, inside, false, track, art, play, alb, tpl);
                let x = scan(r, e, buf, inside, false, track, art, play, alb, tpl);
                if let Ok(v) = x {
                    assert(out + (e.push('\\') + v) =~= out.push('\\') + v);
                }
            }
        } else if c == '{' {
            if !inside {
                lemma_scan_output(r, out, e, true, false, track, art, play, alb, tpl);
            }
        } else if c == '}' {
            if inside {
                match spec_parse_var(buf, track, art, play, alb, tpl) {
                    Ok(v) => {
                        lemma_scan_output(r, out + v, buf, false, false, track, art, play, alb, tpl);
                        lemma_scan_output(r, e + v, buf, false, false, track, art, play, alb, tpl);
                        let x = scan(r, e, buf, false, false, track, art, play, alb, tpl);
                        if let Ok(w) = x {
                            assert(out + ((e + v) + w) =~= (out + v) + w);
                        }
                    },
                    Err(_) => {},
                }
            }
        } else if inside {
            lemma_scan_output(r, out, buf.push(c), inside, false, track, art, play, alb, tpl);
        } else {
            lemma_scan_output(r, out.push(c), buf, inside, false, track, art, play, alb, tpl);
            lemma_scan_output(r, e.push(c), buf, inside, false, track, art, play, alb, tpl);
            let x = scan(r, e, buf, inside, false, track, art, play, alb, tpl);
            if let Ok(v) = x {
                assert(out + (e.push(c) + v) =~= out.push(c) + v);
            }
        }
    }
}

/// Reading `a` then `b` is reading `b` from where `a` left off, when `a` alone fills:
/// outside braces, with the output of `a` before its line feed.
proof fn lemma_scan_then(
    a: Seq<char>,
    b: Seq<char>,
    out: Seq<char>,
    buf: Seq<char>,
    inside: bool,
    esc: bool,
    track: Option<Track>,
    art: Option<Artist>,
    play: Option<Seq<char>>,
    alb: Option<Album>,
    tpl: Templates,
)
    requires
        esc ==> inside,
        scan(a, out, buf, inside, esc, track, art, play, alb, tpl) is Ok,
    ensures
        scan(a + b, out, buf, inside, esc, track, art, play, alb, tpl) == scan(
            b,
            scan(a, out, buf, inside, esc, track, art, play, alb, tpl)->Ok_0.drop_last(),
            Seq::empty(),
            false,
            false,
            track,
            art,
            play,
            alb,
            tpl,
        ),
    decreases a.len(),
{
    if a.len() == 0 {
        assert(a + b =~= b);
        assert(out.push('\n').drop_last() =~= out);
        lemma_scan_outside_buf(b, out, buf, track, art, play, alb, tpl);
    } else {
        let c = a[0];
        let r = a.drop_first();
        assert((a + b)[0] == c);
        assert((a + b).drop_first() =~= r + b);
        if esc {
            let bb = if c == '{' || c == '}' || c == '\\' {
                buf.push(c)
            } else {
                buf.push('\\').push(c)
            };
            lemma_scan_then(r, b, out, bb, inside, false, track, art, play, alb, tpl);
        } else if c == '\\' {
            if inside {
                lemma_scan_then(r, b, out, buf, inside, true, track, art, play, alb, tpl);
            } else {
                lemma_scan_then(r, b, out.push('\\'), buf, inside, false, track, art, play, alb, tpl);
            }
        } else if c == '{' {
            lemma_scan_then(r, b, out, Seq::empty(), true, false, track, art, play, alb, tpl);
        } else if c == '}' {
            match spec_parse_var(buf, track, art, play, alb, tpl) {
                Ok(v) => {
                    lemma_scan_then(r, b, out + v, buf, false, false, track, art, play, alb, tpl);
                },
                Err(_) => {},
            }
        } else if inside {
            lemma_scan_then(r, b, out, buf.push(c), inside, false, track, art, play, alb, tpl);
        } else {
            lemma_scan_then(r, b, out.push(c), buf, inside, false, track, art, play, alb, tpl);
        }
    }
}

/// Two lines that fill one after the other: when `a` fills to `x` and a line feed and
/// `b` fills to `y`, the text `a` followed by `b` fills to `x` followed by `y`.
pub proof fn lemma_lines_join(
    a: Seq<char>,
    b: Seq<char>,
    x: Seq<char>,
    y: Seq<char>,
    track: Option<Track>,
    art: Option<Artist>,
    play: Option<Seq<char>>,
    alb: Option<Album>,
    tpl: Templates,
)
    requires
        spec_parse_line(a, track, art, play, alb, tpl) == Ok::<Seq<char>, ConfigErrorView>(
            x.push('\n'),
        ),
        spec_parse_line(b, track, art, play, alb, tpl) == Ok::<Seq<char>, ConfigErrorView>(y),
    ensures
        spec_parse_line(a + b, track, art, play, alb, tpl) == Ok::<Seq<char>, ConfigErrorView>(
            x + y,
        ),
{
    let e = Seq::<char>::empty();
    lemma_scan_then(a, b, e, e, false, false, track, art, play, alb, tpl);
    assert(x.push('\n').drop_last() =~= x);
    lemma_scan_output(b, x, e, false, false, track, art, play, alb, tpl);
}

/// The style variable `%k` does not depend on the track, artist, playlist or album
/// given: `%css` is the style sheet, and any other name is unknown, the error naming it
/// without the sigil.
pub proof fn lemma_css_variable(
    k: Seq<char>,
    track: Option<Track>,
    art: Option<Artist>,
    play: Option<Seq<char>>,
    alb: Option<Album>,
    tpl: Templates,
)
    ensures
        spec_parse_var(seq!['%'] + k, track, art, play, alb, tpl) == (if k == "css"@ {
            Ok::<Seq<char>, ConfigErrorView>(tpl.css@)
        } else {
            Err::<Seq<char>, ConfigErrorView>(ConfigErrorView::UnknownVariable(k))
        }),
{
    let v = seq!['%'] + k;
    assert(v[0] == '%');
    assert(v.drop_first() =~= k);
}

/// Whether `s` holds no brace and no backslash, spelled out for `%css`.
proof fn lemma_css_name_plain()
    ensures
        plain_name("%css"@),
        "%css"@ == seq!['%'] + "css"@,
{
    reveal_strlit("%css");
    reveal_strlit("css");
    assert("%css"@ =~= seq!['%'] + "css"@);
    let n = "%css"@;
    assert(!n.contains('{') && !n.contains('}') && !n.contains('\\')) by {
        if n.contains('{') || n.contains('}') || n.contains('\\') {
            let j = choose|j: int| 0 <= j < n.len() && (n[j] == '{' || n[j] == '}' || n[j] == '\\');
        }
    }
}

/// A line holding `{%css}` between texts without braces fills to the style sheet
/// between those texts, whatever track, artist, playlist or album is given.
pub proof fn lemma_css_line(
    before: Seq<char>,
    after: Seq<char>,
    track: Option<Track>,
    art: Option<Artist>,
    play: Option<Seq<char>>,
    alb: Option<Album>,
    tpl: Templates,
)
    requires
        no_braces(before),
        no_braces(after),
    ensures
        spec_parse_line(before + "{%css}"@ + after, track, art, play, alb, tpl) == Ok::<
            Seq<char>,
            ConfigErrorView,
        >(before + tpl.css@ + after.push('\n')),
{
    reveal_strlit("{%css}");
    reveal_strlit("%css");
    lemma_css_name_plain();
    assert(before + "{%css}"@ + after =~= before + seq!['{'] + "%css"@ + seq!['}'] + after);
    lemma_one_variable(before, "%css"@, after, track, art, play, alb, tpl);
    lemma_css_variable("css"@, track, art, play, alb, tpl);
}

/// Each variable takes its value from its own source, whatever the other sources are:
/// `$track` is the title of the track, `@name` the name of the artist, `!playlist` the
/// playlist's name and `^name` the album's name. A variable whose source is not given
/// is unknown, the error naming the whole variable.
pub proof fn lemma_variable_sources(
    k: Seq<char>,
    track: Option<Track>,
    art: Option<Artist>,
    play: Option<Seq<char>>,
    alb: Option<Album>,
    tpl: Templates,
)
    ensures
        track matches Some(t) ==> spec_parse_var(seq!['$'] + "track"@, track, art, play, alb, tpl)
            == Ok::<Seq<char>, ConfigErrorView>(t.title@),
        art matches Some(a) ==> spec_parse_var(seq!['@'] + "name"@, track, art, play, alb, tpl)
            == Ok::<Seq<char>, ConfigErrorView>(a.name@),
        play matches Some(p) ==> spec_parse_var(seq!['!'] + "playlist"@, track, art, play, alb, tpl)
            == Ok::<Seq<char>, ConfigErrorView>(p),
        alb matches Some(b) ==> spec_parse_var(seq!['^'] + "name"@, track, art, play, alb, tpl)
            == Ok::<Seq<char>, ConfigErrorView>(b.name@),
        track is None ==> spec_parse_var(seq!['$'] + k, track, art, play, alb, tpl) == Err::<
            Seq<char>,
            ConfigErrorView,
        >(ConfigErrorView::UnknownVariable(seq!['$'] + k)),
        art is None ==> spec_parse_var(seq!['@'] + k, track, art, play, alb, tpl) == Err::<
            Seq<char>,
            ConfigErrorView,
        >(ConfigErrorView::UnknownVariable(seq!['@'] + k)),
        play is None ==> spec_parse_var(seq!['!'] + k, track, art, play, alb, tpl) == Err::<
            Seq<char>,
            ConfigErrorView,
        >(ConfigErrorView::UnknownVariable(seq!['!'] + k)),
        alb is None ==> spec_parse_var(seq!['^'] + k, track, art, play, alb, tpl) == Err::<
            Seq<char>,
            ConfigErrorView,
        >(ConfigErrorView::UnknownVariable(seq!['^'] + k)),
{
    reveal_strlit("track");
    reveal_strlit("name");
    reveal_strlit("playlist");
    reveal_strlit("album");
    reveal_strlit("tracknumber");
    reveal_strlit("artist");
    reveal_strlit("cover");
    reveal_strlit("description");
    reveal_strlit("tags");
    reveal_strlit("albums");
    assert((seq!['$'] + "track"@)[0] == '$' && (seq!['$'] + "track"@).drop_first() =~= "track"@);
    assert((seq!['@'] + "name"@)[0] == '@' && (seq!['@'] + "name"@).drop_first() =~= "name"@);
    assert((seq!['!'] + "playlist"@)[0] == '!' && (seq!['!'] + "playlist"@).drop_first() =~= "playlist"@);
    assert((seq!['^'] + "name"@)[0] == '^' && (seq!['^'] + "name"@).drop_first() =~= "name"@);
    assert((seq!['$'] + k)[0] == '$');
    assert((seq!['@'] + k)[0] == '@');
    assert((seq!['!'] + k)[0] == '!');
    assert((seq!['^'] + k)[0] == '^');
    assert("name"@ != "track"@ && "name"@ != "album"@);
}

/// The text a filled line contributes to its template: its filled text, or nothing
/// when it cannot be filled.
pub open spec fn line_text(r: Result<Seq<char>, ConfigErrorView>) -> Seq<char> {
    match r {
        Ok(v) => v,
        Err(_) => Seq::empty(),
    }
}

/// A filled template is the texts of its lines, each filled on its own, one after the
/// other, in order.
pub proof fn lemma_render_lines(
    lines: Seq<Seq<char>>,
    track: Option<Track>,
    art: Option<Artist>,
    play: Option<Seq<char>>,
    alb: Option<Album>,
    tpl: Templates,
)
    ensures
        spec_render(lines, track, art, play, alb, tpl) == lines.map_values(
            |l: Seq<char>| line_text(spec_parse_line(l, track, art, play, alb, tpl)),
        ).flatten(),
    decreases lines.len(),
{
    let f = |l: Seq<char>| line_text(spec_parse_line(l, track, art, play, alb, tpl));
    if lines.len() == 0 {
        assert(lines.map_values(f) =~= Seq::<Seq<char>>::empty());
    } else {
        lemma_render_lines(lines.drop_last(), track, art, play, alb, tpl);
        assert(lines.map_values(f) =~= lines.drop_last().map_values(f).push(f(lines.last())));
        lines.drop_last().map_values(f).lemma_flatten_push(f(lines.last()));
    }
}

/// The text of an album is every line of the album template, each filled with the
/// album, one after the other.
pub proof fn lemma_album_text(a: Album, tpl: Templates)
    ensures
        spec_for_alb(a, tpl) == split_lines(tpl.album@).map_values(
            |l: Seq<char>| line_text(spec_parse_line(l, None, None, None, Some(a), tpl)),
        ).flatten(),
{
    lemma_render_lines(split_lines(tpl.album@), None, None, None, Some(a), tpl);
}

/// The text of `{@albums}` is the text of each album of the artist, in order, each made
/// of every line of the album template filled with that album.
pub proof fn lemma_albums_text(albums: Seq<Album>, tpl: Templates)
    ensures
        spec_for_albs(albums, tpl) == albums.map_values(
            |a: Album| split_lines(tpl.album@).map_values(
                |l: Seq<char>| line_text(spec_parse_line(l, None, None, None, Some(a), tpl)),
            ).flatten(),
        ).flatten(),
    decreases albums.len(),
{
    let g = |a: Album| split_lines(tpl.album@).map_values(
        |l: Seq<char>| line_text(spec_parse_line(l, None, None, None, Some(a), tpl)),
    ).flatten();
    if albums.len() == 0 {
        assert(albums.map_values(g) =~= Seq::<Seq<char>>::empty());
    } else {
        lemma_albums_text(albums.drop_last(), tpl);
        lemma_album_text(albums.last(), tpl);
        assert(albums.map_values(g) =~= albums.drop_last().map_values(g).push(g(albums.last())));
        albums.drop_last().map_values(g).lemma_flatten_push(g(albums.last()));
    }
}

/// With an artist given, `{@albums}` is the text of each of the artist's albums, in
/// order, each made of every line of the album template filled with that album,
/// whatever track, playlist or album is given besides.
pub proof fn lemma_albums_variable(
    a: Artist,
    track: Option<Track>,
    play: Option<Seq<char>>,
    alb: Option<Album>,
    tpl: Templates,
)
    ensures
        spec_parse_var(seq!['@'] + "albums"@, track, Some(a), play, alb, tpl) == Ok::<
            Seq<char>,
            ConfigErrorView,
        >(
            a.albums@.map_values(
                |b: Album| split_lines(tpl.album@).map_values(
                    |l: Seq<char>| line_text(spec_parse_line(l, None, None, None, Some(b), tpl)),
                ).flatten(),
            ).flatten(),
        ),
{
    reveal_strlit("albums");
    reveal_strlit("name");
    reveal_strlit("cover");
    reveal_strlit("description");
    reveal_strlit("tags");
    let v = seq!['@'] + "albums"@;
    assert(v[0] == '@');
    assert(v.drop_first() =~= "albums"@);
    lemma_albums_text(a.albums@, tpl);
}

/// Fills one line of a template: copies it, replaces each `{..}` by the value of the
/// variable it names, and ends it with a line feed.
///
/// Fails on a `{` inside braces, a `}` outside them or a `{` left open, and on a variable
/// whose source is not given or whose name is not known.
pub fn parse_line(
    line: &str,
    track: Option<Track>,
    art: Option<Artist>,
    play: Option<String>,
    alb: Option<Album>,
    tpl: &Templates,
) -> (r: Result<String, ConfigError>)
    ensures
        result_is(r, spec_parse_line(line@, track, art, opt_view(play), alb, *tpl)),
{
    fill_line(line, &track, &art, &play, &alb, tpl)
}

/// Fills a whole template text line by line.
pub fn render(
    template: &str,
    track: Option<Track>,
    art: Option<Artist>,
    play: Option<String>,
    alb: Option<Album>,
    tpl: &Templates,
) -> (r: Rendered)
    ensures
        rendered_is(r, split_lines(template@), track, art, opt_view(play), alb, *tpl),
{
    let lines = lines_of(template);
    render_lines(&lines, &track, &art, &play, &alb, tpl)
}

} // verus!
