//! Covers and artist data from Last.fm: the request links, and the reading of the XML
//! answers.
use vstd::prelude::*;

use crate::model::{Album, Artist, Track, example_albums, SINGLE};
use crate::parser::opt_view;
use crate::text::{newline_at, occurs_at, owned, replace_all, replace_str, str_eq, string_from_range, to_chars};

verus! {

/// The start of a request for the data of an album.
pub const ALBUM_INFO_LINK: &'static str = "http://ws.audioscrobbler.com/2.0/?method=album.getinfo&api_key=";

/// The start of a request for the data of an artist.
pub const ARTIST_INFO_LINK: &'static str = "http://ws.audioscrobbler.com/2.0/?method=artist.getinfo&api_key=";

/// The description of an artist whose data holds none.
pub const NO_DESCRIPTION: &'static str = "Lorem ipsum";

/// The API key as read from the key file: its text without line feeds.
pub open spec fn api_key(token: Seq<char>) -> Seq<char> {
    replace_all(token, "\n"@, ""@)
}

/// A name as a value of a request parameter: each `&` written `%26`.
pub open spec fn query_value(s: Seq<char>) -> Seq<char> {
    replace_all(s, "&"@, "%26"@)
}

/// The album a track's cover is looked up under: its album, or its title for a single.
pub open spec fn album_query(t: Track) -> Seq<char> {
    if t.album@ == SINGLE@ {
        t.title@
    } else {
        t.album@
    }
}

/// The link that asks for the data of the album of `t`.
pub open spec fn spec_cover_link(token: Seq<char>, t: Track) -> Seq<char> {
    ALBUM_INFO_LINK@ + api_key(token) + "&artist="@ + query_value(t.artist@) + "&album="@
        + query_value(album_query(t))
}

/// The link that asks for the data of the artist `artist`.
pub open spec fn spec_artist_link(token: Seq<char>, artist: Seq<char>) -> Seq<char> {
    ARTIST_INFO_LINK@ + api_key(token) + "&artist="@ + query_value(artist)
}

/// A name written as a request value holds no `&`, so it cannot end the value early.
pub proof fn lemma_query_value_no_ampersand(s: Seq<char>)
    ensures
        !query_value(s).contains('&'),
{
    reveal_strlit("&");
    reveal_strlit("%26");
    assert("&"@ =~= seq!['&']);
    assert(!"%26"@.contains('&')) by {
        if "%26"@.contains('&') {
            let j = choose|j: int| 0 <= j < "%26"@.len() && "%26"@[j] == '&';
        }
    }
    crate::text::lemma_replace_removes(s, '&', "%26"@);
}

/// The API key taken from the key file holds no line feed.
pub proof fn lemma_api_key_single_line(token: Seq<char>)
    ensures
        !api_key(token).contains('\n'),
{
    reveal_strlit("\n");
    reveal_strlit("");
    assert("\n"@ =~= seq!['\n']);
    crate::text::lemma_replace_removes(token, '\n', ""@);
}

/// The link that asks Last.fm for the album data of `track`, from the text of the key
/// file `token`.
pub fn cover_search_link(token: &str, track: &Track) -> (r: String)
    ensures
        r@ == spec_cover_link(token@, *track),
{
    proof {
        reveal_strlit("\n");
        reveal_strlit("&");
    }
    let key = replace_str(token, "\n", "");
    let mut link = owned(ALBUM_INFO_LINK);
    link.append(key.as_str());
    link.append("&artist=");
    link.append(replace_str(track.artist.as_str(), "&", "%26").as_str());
    link.append("&album=");
    if str_eq(track.album.as_str(), SINGLE) {
        link.append(replace_str(track.title.as_str(), "&", "%26").as_str());
    } else {
        link.append(replace_str(track.album.as_str(), "&", "%26").as_str());
    }
    link
}

/// The link that asks Last.fm for the data of the artist `artist`, from the text of the
/// key file `token`.
pub fn artist_search_link(token: &str, artist: &str) -> (r: String)
    ensures
        r@ == spec_artist_link(token@, artist@),
{
    proof {
        reveal_strlit("\n");
        reveal_strlit("&");
    }
    let key = replace_str(token, "\n", "");
    let mut link = owned(ARTIST_INFO_LINK);
    link.append(key.as_str());
    link.append("&artist=");
    link.append(replace_str(artist, "&", "%26").as_str());
    link
}

/// Takes the cover found for `track`: an empty answer leaves the cover as it was.
pub fn covers(track: &mut Track, found: &str)
    ensures
        found@.len() > 0 ==> final(track).cover@ == found@,
        found@.len() == 0 ==> final(track).cover == old(track).cover,
        final(track).title == old(track).title,
        final(track).artist == old(track).artist,
        final(track).album == old(track).album,
        final(track).tracknum == old(track).tracknum,
        final(track).maxtracknum == old(track).maxtracknum,
{
    if found.unicode_len() != 0 {
        track.changeCover(found);
    }
}

/// The text of an HTML text with its character references decoded.
pub uninterp spec fn html_entities_decoded(s: Seq<char>) -> Seq<char>;

/// `html_escape::decode_html_entities`: decodes named and numeric character references.
///
/// Claims that the result is the decoding of `s`, and that a text without `&` comes back
/// as it is (the function returns its argument when it finds no reference).
#[verifier::external_body]
fn decode_html_entities(s: &str) -> (r: String)
    ensures
        r@ == html_entities_decoded(s@),
        !s@.contains('&') ==> r@ == s@,
{
    html_escape::decode_html_entities(s).into_owned()
}

/// What Last.fm tells of an artist: the large cover, the summary and the tags.
pub struct ArtistInfo {
    pub cover: String,
    pub description: String,
    pub tags: Vec<String>,
}

/// The artist `artist` with the data Last.fm gave: the summary has its character
/// references decoded, and the albums are three sample albums.
pub fn arts(artist: &str, info: ArtistInfo) -> (r: Artist)
    ensures
        r.name@ == artist@,
        r.cover == info.cover,
        r.description@ == html_entities_decoded(info.description@),
        r.tags == info.tags,
        r.albums@.len() == 3,
        forall|i: int| 0 <= i < 3 ==> crate::model::is_example_album(#[trigger] r.albums@[i]),
{
    let findesc = decode_html_entities(info.description.as_str());
    Artist::new(owned(artist), info.cover, findesc, info.tags, example_albums())
}

/// Declares `quick_xml::Reader`, the pull parser the answers are read with.
#[verifier::external_type_specification]
#[verifier::external_body]
#[verifier::reject_recursive_types(R)]
pub struct ExXmlReader<R>(quick_xml::Reader<R>);

/// Whether `part` occurs somewhere in `whole`.
pub open spec fn is_infix(part: Seq<char>, whole: Seq<char>) -> bool {
    exists|i: int| occurs_at(whole, part, i)
}

/// A read made on an XML reader: the next event, or the text of the element just
/// opened, up to its end tag of the given name.
pub enum XmlRead {
    Event,
    Text(Seq<char>),
}

/// An XML reader together with the text it was made from and the reads made on it so
/// far. Made only by [`xml_cursor`]; the reads are recorded by the functions that make
/// them.
pub struct XmlCursor<'a> {
    text: &'a str,
    reader: quick_xml::Reader<&'a [u8]>,
    reads: Ghost<Seq<XmlRead>>,
}

impl<'a> XmlCursor<'a> {
    /// The text the reader was made from.
    pub closed spec fn source(&self) -> Seq<char> {
        self.text@
    }

    /// The reads made on the reader so far, in order.
    pub closed spec fn reads(&self) -> Seq<XmlRead> {
        self.reads@
    }
}

/// An attribute of an XML start tag.
pub struct XmlAttribute {
    pub key: String,
    pub value: String,
}

/// The attributes as pairs of key and value.
pub open spec fn attr_views(attrs: Seq<XmlAttribute>) -> Seq<(Seq<char>, Seq<char>)> {
    attrs.map_values(|a: XmlAttribute| (a.key@, a.value@))
}

/// What the XML reader reads next.
pub enum XmlEvent {
    /// A start tag: its name, and its attributes with their values as written
    /// (`None` when one of them is malformed).
    Start { name: String, attributes: Option<Vec<XmlAttribute>> },
    /// The end of the text.
    Eof,
    /// Anything else: text, end tags, empty elements, comments, ...
    Other,
    /// Text that is not well-formed XML.
    Invalid,
}

/// The mathematical value of an [`XmlEvent`].
pub enum XmlEventView {
    Start { name: Seq<char>, attributes: Option<Seq<(Seq<char>, Seq<char>)>> },
    Eof,
    Other,
    Invalid,
}

impl View for XmlEvent {
    type V = XmlEventView;

    open spec fn view(&self) -> XmlEventView {
        match self {
            XmlEvent::Start { name, attributes } => XmlEventView::Start {
                name: name@,
                attributes: match attributes {
                    Some(a) => Some(attr_views(a@)),
                    None => None,
                },
            },
            XmlEvent::Eof => XmlEventView::Eof,
            XmlEvent::Other => XmlEventView::Other,
            XmlEvent::Invalid => XmlEventView::Invalid,
        }
    }
}

/// The event that `quick_xml::Reader::read_event` gives on a reader made by
/// `Reader::from_str(text)`, after the reads `reads` were made on it.
pub uninterp spec fn xml_event_after(text: Seq<char>, reads: Seq<XmlRead>) -> XmlEventView;

/// The text that `quick_xml::Reader::read_text` gives for the end name `name` on a
/// reader made by `Reader::from_str(text)`, after the reads `reads`; `None` for an error.
pub uninterp spec fn xml_text_after(text: Seq<char>, reads: Seq<XmlRead>, name: Seq<char>) -> Option<
    Seq<char>,
>;

/// The position that `quick_xml::Reader::buffer_position` gives on a reader made by
/// `Reader::from_str(text)`, after the reads `reads`.
pub uninterp spec fn xml_position_after(text: Seq<char>, reads: Seq<XmlRead>) -> u64;

/// `quick_xml::Reader::from_str`: a reader at the start of `text`, kept with `text` and
/// with no reads made yet.
#[verifier::external_body]
fn xml_cursor<'a>(text: &'a str) -> (r: XmlCursor<'a>)
    ensures
        r.source() == text@,
        r.reads() == Seq::<XmlRead>::empty(),
{
    XmlCursor { text, reader: quick_xml::Reader::from_str(text), reads: Ghost(Seq::empty()) }
}

/// `quick_xml::Reader::buffer_position`: how many bytes of the text the reader has
/// consumed. Claims that this is the position named for the reader's text and reads: a
/// reader made by `from_str` is deterministic.
#[verifier::external_body]
fn xml_position(c: &XmlCursor) -> (r: u64)
    ensures
        r == xml_position_after(c.source(), c.reads()),
{
    c.reader.buffer_position()
}

/// `quick_xml::Reader::read_event`: the next event, sorted into start tags, the end of
/// the text, errors and anything else.
///
/// Claims that the event is the one named for the reader's text and reads, and records
/// the read. Claims also that the name of a start tag is a piece of the text: a reader
/// made with `from_str` returns events that borrow from its input, and a start tag's name
/// is the beginning of the tag's content.
#[verifier::external_body]
fn next_event(c: &mut XmlCursor) -> (r: XmlEvent)
    ensures
        final(c).source() == old(c).source(),
        final(c).reads() == old(c).reads().push(XmlRead::Event),
        r@ == xml_event_after(old(c).source(), old(c).reads()),
        r matches XmlEvent::Start { name, .. } ==> is_infix(name@, old(c).source()),
{
    match c.reader.read_event() {
        Ok(quick_xml::events::Event::Start(e)) => XmlEvent::Start {
            name: e.name().into_inner().to_string(),
            attributes: e.attributes().map(
                |a| a.ok().map(|a| XmlAttribute { key: a.key.into_inner().to_string(), value: a.value.into_owned() }),
            ).collect(),
        },
        Ok(quick_xml::events::Event::Eof) => XmlEvent::Eof,
        Ok(_) => XmlEvent::Other,
        Err(_) => XmlEvent::Invalid,
    }
}

/// `quick_xml::Reader::read_text`: the raw text up to the end tag named `name` that
/// closes the element just opened, or `None` when there is none.
///
/// Claims that the text is the one named for the reader's text, reads and `name`, and
/// records the read. Claims also that the text is a piece of the reader's text that a
/// closing tag follows: the source takes it as the input from the reader's position up
/// to the `<` of that end tag.
#[verifier::external_body]
fn read_element_text(c: &mut XmlCursor, name: &str) -> (r: Option<String>)
    ensures
        final(c).source() == old(c).source(),
        final(c).reads() == old(c).reads().push(XmlRead::Text(name@)),
        opt_view(r) == xml_text_after(old(c).source(), old(c).reads(), name@),
        r matches Some(t) ==> is_infix(t@ + "</"@, old(c).source()),
{
    c.reader.read_text(quick_xml::name::QName(name)).ok().map(|t| t.into_inner().into_owned())
}

/// Why an answer of Last.fm could not be read.
#[derive(Debug)]
pub enum ResponseError {
    /// An `<image>` tag has a malformed attribute.
    MalformedAttribute,
    /// An element read for its text is not closed.
    UnclosedElement,
}

/// The value of the last `size` attribute.
pub open spec fn last_size(attrs: Seq<(Seq<char>, Seq<char>)>) -> Option<Seq<char>>
    decreases attrs.len(),
{
    if attrs.len() == 0 {
        None
    } else if attrs.last().0 == "size"@ {
        Some(attrs.last().1)
    } else {
        last_size(attrs.drop_last())
    }
}

/// The value of the last `size` attribute of a start tag.
pub fn size_attribute(attrs: &Vec<XmlAttribute>) -> (r: Option<String>)
    ensures
        opt_view(r) == last_size(attr_views(attrs@)),
{
    let mut r: Option<String> = None;
    let mut i: usize = 0;
    while i < attrs.len()
        invariant
            i <= attrs@.len(),
            opt_view(r) == last_size(attr_views(attrs@.take(i as int))),
        decreases attrs@.len() - i,
    {
        assert(attr_views(attrs@.take(i + 1)).drop_last() =~= attr_views(attrs@.take(i as int)));
        assert(attr_views(attrs@.take(i + 1)).last() == (attrs@[i as int].key@, attrs@[i as int].value@));
        if str_eq(attrs[i].key.as_str(), "size") {
            r = Some(attrs[i].value.clone());
        }
        i = i + 1;
    }
    assert(attrs@.take(attrs@.len() as int) =~= attrs@);
    r
}

/// The name in the text of a `<tag>` element: its first line without `<name>` and
/// `</name>`.
pub open spec fn spec_tag_text(text: Seq<char>) -> Seq<char> {
    replace_all(replace_all(text.take(newline_at(text) as int), "<name>"@, ""@), "</name>"@, ""@)
}

proof fn lemma_newline_bound(s: Seq<char>)
    ensures
        newline_at(s) <= s.len(),
        forall|j: int| 0 <= j < newline_at(s) ==> s[j] != '\n',
        newline_at(s) < s.len() ==> s[newline_at(s) as int] == '\n',
    decreases s.len(),
{
    if s.len() > 0 && s[0] != '\n' {
        lemma_newline_bound(s.drop_first());
        assert forall|j: int| 0 <= j < newline_at(s) implies s[j] != '\n' by {
            if j > 0 {
                assert(s[j] == s.drop_first()[j - 1]);
            }
        }
    }
}

/// The name in the text of a `<tag>` element (see [`spec_tag_text`]).
pub fn tag_text(text: &str) -> (r: String)
    ensures
        r@ == spec_tag_text(text@),
{
    proof {
        reveal_strlit("<name>");
        reveal_strlit("</name>");
        lemma_newline_bound(text@);
    }
    let v = to_chars(text);
    let mut end: usize = 0;
    while end < v.len() && v[end] != '\n'
        invariant
            v@ == text@,
            end <= v@.len(),
            end <= newline_at(text@),
            newline_at(text@) <= text@.len(),
            newline_at(text@) < text@.len() ==> text@[newline_at(text@) as int] == '\n',
            forall|j: int| 0 <= j < newline_at(text@) ==> text@[j] != '\n',
        decreases v@.len() - end,
    {
        end = end + 1;
    }
    assert(end == newline_at(text@));
    let first = string_from_range(&v, 0, end);
    assert(first@ =~= text@.take(end as int));
    let without_open = replace_str(first.as_str(), "<name>", "");
    replace_str(without_open.as_str(), "</name>", "")
}

/// Whether a `size` attribute asks for the large picture.
pub open spec fn is_large(size: Option<Seq<char>>) -> bool {
    size == Some("large"@)
}

/// Whether the `size` attribute is `large`.
fn large(size: &Option<String>) -> (r: bool)
    ensures
        r == is_large(opt_view(*size)),
{
    match size {
        Some(s) => str_eq(s.as_str(), "large"),
        None => false,
    }
}

/// The cover found so far in the answer about an album.
pub struct CoverScan {
    pub cover: Option<String>,
}

impl CoverScan {
    /// Nothing found yet.
    pub fn new() -> (r: CoverScan)
        ensures
            r.cover is None,
    {
        CoverScan { cover: None }
    }

    /// Takes an `<image>` element: a large picture becomes the cover, in place of any
    /// found before.
    pub fn take_image(&mut self, size: Option<String>, text: String)
        ensures
            is_large(opt_view(size)) ==> final(self).cover == Some(text),
            !is_large(opt_view(size)) ==> final(self).cover == old(self).cover,
    {
        if large(&size) {
            self.cover = Some(text);
        }
    }

    /// The cover found, or the empty string.
    pub fn finish(self) -> (r: String)
        ensures
            r@ == match self.cover {
                Some(c) => c@,
                None => Seq::empty(),
            },
    {
        match self.cover {
            Some(c) => c,
            None => String::new(),
        }
    }
}

/// What to read of an element of the answer about an artist.
pub enum ArtistField {
    /// A picture, while no large one has been found.
    Image,
    /// A tag.
    Tag,
    /// The summary, while none has been found.
    Summary,
    /// Nothing.
    Skip,
}

/// What to read of an element named `name`, given whether a cover and a summary have
/// been found.
pub open spec fn spec_artist_field(has_cover: bool, has_description: bool, name: Seq<char>) -> ArtistField {
    if name == "image"@ && !has_cover {
        ArtistField::Image
    } else if name == "tag"@ {
        ArtistField::Tag
    } else if name == "summary"@ && !has_description {
        ArtistField::Summary
    } else {
        ArtistField::Skip
    }
}

/// The data found so far in the answer about an artist.
pub struct ArtistScan {
    pub cover: Option<String>,
    pub description: Option<String>,
    pub tags: Vec<String>,
}

impl ArtistScan {
    /// Nothing found yet.
    pub fn new() -> (r: ArtistScan)
        ensures
            r.cover is None,
            r.description is None,
            r.tags@.len() == 0,
    {
        ArtistScan { cover: None, description: None, tags: Vec::new() }
    }

    /// What to read of an element named `name`.
    pub fn field(&self, name: &str) -> (r: ArtistField)
        ensures
            r == spec_artist_field(self.cover is Some, self.description is Some, name@),
    {
        if str_eq(name, "image") && self.cover.is_none() {
            ArtistField::Image
        } else if str_eq(name, "tag") {
            ArtistField::Tag
        } else if str_eq(name, "summary") && self.description.is_none() {
            ArtistField::Summary
        } else {
            ArtistField::Skip
        }
    }

    /// Takes an `<image>` element: a large picture becomes the cover.
    pub fn take_image(&mut self, size: Option<String>, text: String)
        ensures
            is_large(opt_view(size)) ==> final(self).cover == Some(text),
            !is_large(opt_view(size)) ==> final(self).cover == old(self).cover,
            final(self).description == old(self).description,
            final(self).tags == old(self).tags,
    {
        if large(&size) {
            self.cover = Some(text);
        }
    }

    /// Takes a `<tag>` element: the name in its text is added to the tags.
    pub fn take_tag(&mut self, text: &str)
        ensures
            final(self).tags@.len() == old(self).tags@.len() + 1,
            final(self).tags@.drop_last() == old(self).tags@,
            final(self).tags@.last()@ == spec_tag_text(text@),
            final(self).cover == old(self).cover,
            final(self).description == old(self).description,
    {
        let ghost before = self.tags@;
        self.tags.push(tag_text(text));
        assert(self.tags@.drop_last() =~= before);
    }

    /// Takes the `<summary>` element.
    pub fn take_summary(&mut self, text: String)
        ensures
            final(self).description == Some(text),
            final(self).cover == old(self).cover,
            final(self).tags == old(self).tags,
    {
        self.description = Some(text);
    }

    /// The data found: the cover or the empty string, the summary or `Lorem ipsum`,
    /// and the tags.
    pub fn finish(self) -> (r: ArtistInfo)
        ensures
            r.cover@ == match self.cover {
                Some(c) => c@,
                None => Seq::empty(),
            },
            r.description@ == match self.description {
                Some(d) => d@,
                None => NO_DESCRIPTION@,
            },
            r.tags == self.tags,
    {
        let cover = match self.cover {
            Some(c) => c,
            None => String::new(),
        };
        let description = match self.description {
            Some(d) => d,
            None => owned(NO_DESCRIPTION),
        };
        ArtistInfo { cover, description, tags: self.tags }
    }
}

/// The name read from a `<tag>` element is a single line.
pub proof fn lemma_tag_text_is_line(text: Seq<char>)
    ensures
        !spec_tag_text(text).contains('\n'),
{
    reveal_strlit("");
    lemma_newline_bound(text);
    let first = text.take(newline_at(text) as int);
    assert(!first.contains('\n')) by {
        if first.contains('\n') {
            let j = choose|j: int| 0 <= j < first.len() && first[j] == '\n';
            assert(text[j] == '\n');
        }
    }
    crate::text::lemma_replace_keeps_out(first, "<name>"@, ""@, '\n');
    crate::text::lemma_replace_keeps_out(replace_all(first, "<name>"@, ""@), "</name>"@, ""@, '\n');
}

/// Whether every tag is a single line.
pub open spec fn tags_are_lines(tags: Seq<String>) -> bool {
    forall|i: int| 0 <= i < tags.len() ==> !(#[trigger] tags[i]@).contains('\n')
}

/// Whether `s` is the text of an element of `xml`: a piece of it that a closing tag
/// follows.
pub open spec fn element_text_of(s: Seq<char>, xml: Seq<char>) -> bool {
    is_infix(s + "</"@, xml)
}

/// Whether `tag` is the name read from the text of an element of `xml`.
pub open spec fn tag_of(tag: Seq<char>, xml: Seq<char>) -> bool {
    exists|t: Seq<char>| #[trigger] element_text_of(t, xml) && tag == spec_tag_text(t)
}

/// Whether `xml` names any of the elements read about an artist.
pub open spec fn names_artist_fields(xml: Seq<char>) -> bool {
    is_infix("image"@, xml) || is_infix("tag"@, xml) || is_infix("summary"@, xml)
}

/// The text of an optional string, or the empty text.
pub open spec fn or_empty(o: Option<Seq<char>>) -> Seq<char> {
    match o {
        Some(s) => s,
        None => Seq::empty(),
    }
}

/// An `<image>` element read: the value of its `size` attribute, and its text.
pub type ImageRead = (Option<Seq<char>>, Seq<char>);

/// The text of the last image whose `size` is `large`.
pub open spec fn last_large(images: Seq<ImageRead>) -> Option<Seq<char>>
    decreases images.len(),
{
    if images.len() == 0 {
        None
    } else if is_large(images.last().0) {
        Some(images.last().1)
    } else {
        last_large(images.drop_last())
    }
}

/// Reading an answer about an album from the reads `reads` on, having read the images
/// `seen`: each event is read in turn; the text of each `<image>` element is read with
/// its `size`. Reading stops at the end of the text, or where the position no longer
/// moves forward, and gives all the images read; an `<image>` tag with a malformed
/// attribute or not closed stops it with an error.
pub open spec fn album_images(
    text: Seq<char>,
    reads: Seq<XmlRead>,
    floor: int,
    seen: Seq<ImageRead>,
) -> Result<Seq<ImageRead>, ResponseError>
    decreases u64::MAX + 1 - floor,
{
    let pos = xml_position_after(text, reads);
    if pos < floor || pos == u64::MAX {
        Ok(seen)
    } else {
        let next = reads.push(XmlRead::Event);
        match xml_event_after(text, reads) {
            XmlEventView::Start { name, attributes } => {
                if name == "image"@ {
                    match attributes {
                        None => Err(ResponseError::MalformedAttribute),
                        Some(a) => match xml_text_after(text, next, name) {
                            None => Err(ResponseError::UnclosedElement),
                            Some(t) => album_images(
                                text,
                                next.push(XmlRead::Text(name)),
                                pos + 1,
                                seen.push((last_size(a), t)),
                            ),
                        },
                    }
                } else {
                    album_images(text, next, pos + 1, seen)
                }
            },
            XmlEventView::Eof => Ok(seen),
            _ => album_images(text, next, pos + 1, seen),
        }
    }
}

/// The cover in the answer `xml` about an album: the text of the last `<image>` whose
/// `size` is `large`, or the empty text; or the error met while reading.
pub open spec fn spec_req(xml: Seq<char>) -> Result<Seq<char>, ResponseError> {
    match album_images(xml, Seq::empty(), 0, Seq::empty()) {
        Ok(images) => Ok(or_empty(last_large(images))),
        Err(e) => Err(e),
    }
}

/// Reads the answer of Last.fm about an album: the text of the last `<image>` element
/// whose `size` is `large`, or the empty string when there is none (see [`spec_req`]).
///
/// Fails when an `<image>` tag has a malformed attribute or is not closed. Reading stops
/// at the end of the text, or where the reader no longer moves forward. The cover found
/// is the text of an element of the answer; an answer that does not even contain the
/// word `image` gives the empty string.
pub fn req(xml: &str) -> (r: Result<String, ResponseError>)
    ensures
        match r {
            Ok(s) => spec_req(xml@) == Ok::<Seq<char>, ResponseError>(s@),
            Err(e) => spec_req(xml@) == Err::<Seq<char>, ResponseError>(e),
        },
        r matches Ok(s) ==> s@.len() == 0 || element_text_of(s@, xml@),
        !is_infix("image"@, xml@) ==> (r matches Ok(s) && s@.len() == 0),
{
    let mut reader = xml_cursor(xml);
    let mut scan = CoverScan::new();
    let mut floor: u64 = 0;
    let ghost mut seen: Seq<ImageRead> = Seq::empty();
    loop
        invariant
            reader.source() == xml@,
            album_images(xml@, reader.reads(), floor as int, seen) == album_images(
                xml@,
                Seq::empty(),
                0,
                Seq::empty(),
            ),
            opt_view(scan.cover) == last_large(seen),
            scan.cover matches Some(c) ==> element_text_of(c@, xml@),
            !is_infix("image"@, xml@) ==> scan.cover is None,
        decreases u64::MAX + 1 - floor,
    {
        let pos = xml_position(&reader);
        if pos < floor || pos == u64::MAX {
            return Ok(scan.finish());
        }
        floor = pos + 1;
        let ev = next_event(&mut reader);
        match ev {
            XmlEvent::Start { name, attributes } => {
                if str_eq(name.as_str(), "image") {
                    let size = match attributes {
                        Some(attrs) => size_attribute(&attrs),
                        None => {
                            return Err(ResponseError::MalformedAttribute);
                        },
                    };
                    let text = match read_element_text(&mut reader, name.as_str()) {
                        Some(t) => t,
                        None => {
                            return Err(ResponseError::UnclosedElement);
                        },
                    };
                    proof {
                        let old_seen = seen;
                        seen = seen.push((opt_view(size), text@));
                        assert(seen.drop_last() =~= old_seen);
                    }
                    scan.take_image(size, text);
                }
            },
            XmlEvent::Eof => {
                return Ok(scan.finish());
            },
            _ => {},
        }
    }
}

/// An element read from an answer about an artist.
pub enum ArtistItem {
    /// An `<image>`: the value of its `size` attribute, and its text.
    Image(Option<Seq<char>>, Seq<char>),
    /// The text of a `<tag>`.
    Tag(Seq<char>),
    /// The text of a `<summary>`.
    Summary(Seq<char>),
}

/// The text of the first image whose `size` is `large`.
pub open spec fn first_large(items: Seq<ArtistItem>) -> Option<Seq<char>>
    decreases items.len(),
{
    if items.len() == 0 {
        None
    } else {
        match first_large(items.drop_last()) {
            Some(t) => Some(t),
            None => match items.last() {
                ArtistItem::Image(size, t) => if is_large(size) {
                    Some(t)
                } else {
                    None
                },
                _ => None,
            },
        }
    }
}

/// The text of the first summary.
pub open spec fn first_summary(items: Seq<ArtistItem>) -> Option<Seq<char>>
    decreases items.len(),
{
    if items.len() == 0 {
        None
    } else {
        match first_summary(items.drop_last()) {
            Some(t) => Some(t),
            None => match items.last() {
                ArtistItem::Summary(t) => Some(t),
                _ => None,
            },
        }
    }
}

/// The name read from each tag, in order.
pub open spec fn tag_names(items: Seq<ArtistItem>) -> Seq<Seq<char>>
    decreases items.len(),
{
    if items.len() == 0 {
        Seq::empty()
    } else {
        match items.last() {
            ArtistItem::Tag(t) => tag_names(items.drop_last()).push(spec_tag_text(t)),
            _ => tag_names(items.drop_last()),
        }
    }
}

/// The cover of an album answer is the text of its last large image: when image `i` is
/// large and no later one is, the cover is image `i`'s text, whatever images come
/// before it.
pub proof fn lemma_last_large_is(images: Seq<ImageRead>, i: int)
    requires
        0 <= i < images.len(),
        is_large(images[i].0),
        forall|j: int| i < j < images.len() ==> !is_large(#[trigger] images[j].0),
    ensures
        last_large(images) == Some(images[i].1),
    decreases images.len(),
{
    if i < images.len() - 1 {
        assert(!is_large(images[images.len() - 1].0));
        assert(images.drop_last()[i] == images[i]);
        assert forall|j: int| i < j < images.drop_last().len() implies !is_large(
            #[trigger] images.drop_last()[j].0,
        ) by {
            assert(images.drop_last()[j] == images[j]);
        }
        lemma_last_large_is(images.drop_last(), i);
    }
}

/// An album answer without a large image has no cover.
pub proof fn lemma_no_large_image(images: Seq<ImageRead>)
    requires
        forall|j: int| 0 <= j < images.len() ==> !is_large(#[trigger] images[j].0),
    ensures
        last_large(images) is None,
    decreases images.len(),
{
    if images.len() > 0 {
        assert(!is_large(images[images.len() - 1].0));
        assert forall|j: int| 0 <= j < images.drop_last().len() implies !is_large(
            #[trigger] images.drop_last()[j].0,
        ) by {
            assert(images.drop_last()[j] == images[j]);
        }
        lemma_no_large_image(images.drop_last());
    }
}

/// Reading an answer about an artist from the reads `reads` on, having read the elements
/// `seen`: each event is read in turn. The text of an `<image>` is read, with its
/// `size`, while no large image has been read; the text of each `<tag>`; the text of a
/// `<summary>` while none has been read. Reading stops at the end of the text, or where
/// the position no longer moves forward, and gives all the elements read; an `<image>`
/// tag read with a malformed attribute, or an element read that is not closed, stops it
/// with an error.
pub open spec fn artist_items(
    text: Seq<char>,
    reads: Seq<XmlRead>,
    floor: int,
    seen: Seq<ArtistItem>,
) -> Result<Seq<ArtistItem>, ResponseError>
    decreases u64::MAX + 1 - floor,
{
    let pos = xml_position_after(text, reads);
    if pos < floor || pos == u64::MAX {
        Ok(seen)
    } else {
        let next = reads.push(XmlRead::Event);
        match xml_event_after(text, reads) {
            XmlEventView::Start { name, attributes } => match spec_artist_field(
                first_large(seen) is Some,
                first_summary(seen) is Some,
                name,
            ) {
                ArtistField::Image => match attributes {
                    None => Err(ResponseError::MalformedAttribute),
                    Some(a) => match xml_text_after(text, next, name) {
                        None => Err(ResponseError::UnclosedElement),
                        Some(t) => artist_items(
                            text,
                            next.push(XmlRead::Text(name)),
                            pos + 1,
                            seen.push(ArtistItem::Image(last_size(a), t)),
                        ),
                    },
                },
                ArtistField::Tag => match xml_text_after(text, next, name) {
                    None => Err(ResponseError::UnclosedElement),
                    Some(t) => artist_items(
                        text,
                        next.push(XmlRead::Text(name)),
                        pos + 1,
                        seen.push(ArtistItem::Tag(t)),
                    ),
                },
                ArtistField::Summary => match xml_text_after(text, next, name) {
                    None => Err(ResponseError::UnclosedElement),
                    Some(t) => artist_items(
                        text,
                        next.push(XmlRead::Text(name)),
                        pos + 1,
                        seen.push(ArtistItem::Summary(t)),
                    ),
                },
                ArtistField::Skip => artist_items(text, next, pos + 1, seen),
            },
            XmlEventView::Eof => Ok(seen),
            _ => artist_items(text, next, pos + 1, seen),
        }
    }
}

/// Whether an element read is an image whose `size` is `large`.
pub open spec fn is_large_image(item: ArtistItem) -> bool {
    item matches ArtistItem::Image(size, _) && is_large(size)
}

/// The cover of an artist answer is the text of its first large image: when element
/// `i` is a large image and no earlier one is, the cover is its text, whatever comes
/// after.
pub proof fn lemma_first_large_is(items: Seq<ArtistItem>, i: int)
    requires
        0 <= i < items.len(),
        is_large_image(items[i]),
        forall|j: int| 0 <= j < i ==> !is_large_image(#[trigger] items[j]),
    ensures
        first_large(items) == Some(items[i]->Image_1),
    decreases items.len(),
{
    if i < items.len() - 1 {
        assert(items.drop_last()[i] == items[i]);
        assert forall|j: int| 0 <= j < i implies !is_large_image(#[trigger] items.drop_last()[j]) by {
            assert(items.drop_last()[j] == items[j]);
        }
        lemma_first_large_is(items.drop_last(), i);
    } else {
        lemma_no_first_large(items.drop_last());
    }
}

/// An artist answer without a large image read has no cover.
pub proof fn lemma_no_first_large(items: Seq<ArtistItem>)
    requires
        forall|j: int| 0 <= j < items.len() ==> !is_large_image(#[trigger] items[j]),
    ensures
        first_large(items) is None,
    decreases items.len(),
{
    if items.len() > 0 {
        assert(!is_large_image(items[items.len() - 1]));
        assert forall|j: int| 0 <= j < items.drop_last().len() implies !is_large_image(
            #[trigger] items.drop_last()[j],
        ) by {
            assert(items.drop_last()[j] == items[j]);
        }
        lemma_no_first_large(items.drop_last());
    }
}

/// The summary of an artist answer is the text of its first summary: when element `i`
/// is a summary and no earlier one is, the summary is its text.
pub proof fn lemma_first_summary_is(items: Seq<ArtistItem>, i: int)
    requires
        0 <= i < items.len(),
        items[i] is Summary,
        forall|j: int| 0 <= j < i ==> !(#[trigger] items[j] is Summary),
    ensures
        first_summary(items) == Some(items[i]->Summary_0),
    decreases items.len(),
{
    if i < items.len() - 1 {
        assert(items.drop_last()[i] == items[i]);
        assert forall|j: int| 0 <= j < i implies !(#[trigger] items.drop_last()[j] is Summary) by {
            assert(items.drop_last()[j] == items[j]);
        }
        lemma_first_summary_is(items.drop_last(), i);
    } else {
        lemma_no_first_summary(items.drop_last());
    }
}

/// An artist answer without a summary read has no summary.
pub proof fn lemma_no_first_summary(items: Seq<ArtistItem>)
    requires
        forall|j: int| 0 <= j < items.len() ==> !(#[trigger] items[j] is Summary),
    ensures
        first_summary(items) is None,
    decreases items.len(),
{
    if items.len() > 0 {
        assert(!(items[items.len() - 1] is Summary));
        assert forall|j: int| 0 <= j < items.drop_last().len() implies !(
        #[trigger] items.drop_last()[j] is Summary) by {
            assert(items.drop_last()[j] == items[j]);
        }
        lemma_no_first_summary(items.drop_last());
    }
}

/// The name read from a tag element, or nothing for any other element.
pub open spec fn tag_name_of(item: ArtistItem) -> Option<Seq<char>> {
    match item {
        ArtistItem::Tag(t) => Some(spec_tag_text(t)),
        _ => None,
    }
}

/// Every tag element read gives one tag, in order, and nothing else does: the tags are
/// the names read from the tag elements, one for each.
pub proof fn lemma_tag_names(items: Seq<ArtistItem>)
    ensures
        tag_names(items) == items.filter_map(|x: ArtistItem| tag_name_of(x)),
    decreases items.len(),
{
    if items.len() > 0 {
        lemma_tag_names(items.drop_last());
        match items.last() {
            ArtistItem::Tag(t) => {
                assert(tag_names(items.drop_last()).push(spec_tag_text(t)) =~= tag_names(
                    items.drop_last(),
                ) + seq![spec_tag_text(t)]);
            },
            _ => {},
        }
    }
}

/// What the answer `xml` about an artist gives: the text of the first `<image>` whose
/// `size` is `large` (or the empty text), the text of the first `<summary>` (or
/// `Lorem ipsum`), and the name in each `<tag>`, in order; or the error met while
/// reading.
pub open spec fn spec_req_art(xml: Seq<char>) -> Result<
    (Seq<char>, Seq<char>, Seq<Seq<char>>),
    ResponseError,
> {
    match artist_items(xml, Seq::empty(), 0, Seq::empty()) {
        Ok(items) => Ok(
            (
                or_empty(first_large(items)),
                match first_summary(items) {
                    Some(d) => d,
                    None => NO_DESCRIPTION@,
                },
                tag_names(items),
            ),
        ),
        Err(e) => Err(e),
    }
}

/// Reads the answer of Last.fm about an artist: the text of the first `<image>` element
/// whose `size` is `large` (or the empty string), the text of the first `<summary>`
/// element (or `Lorem ipsum`), and the name in each `<tag>` element, in order (see
/// [`spec_req_art`]).
///
/// Fails when an `<image>` tag read has a malformed attribute, or an element read is
/// not closed. Reading stops at the end of the text, or where the reader no longer moves
/// forward. The cover, the summary and the text of each tag are texts of elements of the
/// answer; an answer that contains none of the words `image`, `tag` and `summary` gives
/// no cover, the default summary and no tags.
pub fn req_art(xml: &str) -> (r: Result<ArtistInfo, ResponseError>)
    ensures
        match r {
            Ok(info) => spec_req_art(xml@) == Ok::<(Seq<char>, Seq<char>, Seq<Seq<char>>), ResponseError>(
                (info.cover@, info.description@, crate::text::views(info.tags@)),
            ),
            Err(e) => spec_req_art(xml@) == Err::<(Seq<char>, Seq<char>, Seq<Seq<char>>), ResponseError>(e),
        },
        r matches Ok(info) ==> {
            &&& tags_are_lines(info.tags@)
            &&& info.cover@.len() == 0 || element_text_of(info.cover@, xml@)
            &&& info.description@ == NO_DESCRIPTION@ || element_text_of(info.description@, xml@)
            &&& forall|i: int| 0 <= i < info.tags@.len() ==> tag_of(#[trigger] info.tags@[i]@, xml@)
        },
        !names_artist_fields(xml@) ==> (r matches Ok(info) && info.cover@.len() == 0
            && info.description@ == NO_DESCRIPTION@ && info.tags@.len() == 0),
{
    proof {
        reveal_strlit("<name>");
        reveal_strlit("</name>");
    }
    let mut reader = xml_cursor(xml);
    let mut scan = ArtistScan::new();
    let mut floor: u64 = 0;
    let ghost mut seen: Seq<ArtistItem> = Seq::empty();
    loop
        invariant
            reader.source() == xml@,
            artist_items(xml@, reader.reads(), floor as int, seen) == artist_items(
                xml@,
                Seq::empty(),
                0,
                Seq::empty(),
            ),
            opt_view(scan.cover) == first_large(seen),
            opt_view(scan.description) == first_summary(seen),
            crate::text::views(scan.tags@) == tag_names(seen),
            tags_are_lines(scan.tags@),
            scan.cover matches Some(c) ==> element_text_of(c@, xml@),
            scan.description matches Some(d) ==> element_text_of(d@, xml@),
            forall|i: int| 0 <= i < scan.tags@.len() ==> tag_of(#[trigger] scan.tags@[i]@, xml@),
            !names_artist_fields(xml@) ==> (scan.cover is None && scan.description is None
                && scan.tags@.len() == 0),
        decreases u64::MAX + 1 - floor,
    {
        let pos = xml_position(&reader);
        if pos < floor || pos == u64::MAX {
            return Ok(scan.finish());
        }
        floor = pos + 1;
        let ev = next_event(&mut reader);
        match ev {
            XmlEvent::Start { name, attributes } => {
                match scan.field(name.as_str()) {
                    ArtistField::Image => {
                        let size = match attributes {
                            Some(attrs) => size_attribute(&attrs),
                            None => {
                                return Err(ResponseError::MalformedAttribute);
                            },
                        };
                        let text = match read_element_text(&mut reader, name.as_str()) {
                            Some(t) => t,
                            None => {
                                return Err(ResponseError::UnclosedElement);
                            },
                        };
                        proof {
                            let old_seen = seen;
                            seen = seen.push(ArtistItem::Image(opt_view(size), text@));
                            assert(seen.drop_last() =~= old_seen);
                        }
                        scan.take_image(size, text);
                    },
                    ArtistField::Tag => {
                        let text = match read_element_text(&mut reader, name.as_str()) {
                            Some(t) => t,
                            None => {
                                return Err(ResponseError::UnclosedElement);
                            },
                        };
                        let ghost before = scan.tags@;
                        proof {
                            let old_seen = seen;
                            seen = seen.push(ArtistItem::Tag(text@));
                            assert(seen.drop_last() =~= old_seen);
                        }
                        scan.take_tag(text.as_str());
                        proof {
                            lemma_tag_text_is_line(text@);
                            assert(element_text_of(text@, xml@));
                            assert(tag_of(scan.tags@.last()@, xml@));
                            assert forall|i: int| 0 <= i < scan.tags@.len() implies !(
                            #[trigger] scan.tags@[i]@).contains('\n') && tag_of(scan.tags@[i]@, xml@) by {
                                if i < before.len() {
                                    assert(scan.tags@[i] == before[i]);
                                }
                            }
                            assert(crate::text::views(scan.tags@) =~= crate::text::views(before).push(
                                spec_tag_text(text@),
                            ));
                        }
                    },
                    ArtistField::Summary => {
                        let text = match read_element_text(&mut reader, name.as_str()) {
                            Some(t) => t,
                            None => {
                                return Err(ResponseError::UnclosedElement);
                            },
                        };
                        proof {
                            let old_seen = seen;
                            seen = seen.push(ArtistItem::Summary(text@));
                            assert(seen.drop_last() =~= old_seen);
                        }
                        scan.take_summary(text);
                    },
                    ArtistField::Skip => {},
                }
            },
            XmlEvent::Eof => {
                return Ok(scan.finish());
            },
            _ => {},
        }
    }
}

} // verus!
