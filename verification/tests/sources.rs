use m3utohtml::database::{dbtype, vlc_playlist_names, vlc_query, MediaRow, FAVORITES_QUERY};
use m3utohtml::lastfm::{
    artist_search_link, arts, cover_search_link, covers, req, req_art, size_attribute, tag_text,
    ArtistInfo, ResponseError, XmlAttribute,
};
use m3utohtml::model::{Track, DEFAULT_COVER};
use m3utohtml::playlist::{playlist_entries, progress_line};
use m3utohtml::text::{decimal_string, lines_of, replace_str};

fn track(artist: &str, title: &str, album: &str) -> Track {
    Track {
        title: title.to_string(),
        artist: artist.to_string(),
        album: album.to_string(),
        tracknum: String::new(),
        maxtracknum: String::new(),
        cover: DEFAULT_COVER.to_string(),
    }
}

#[test]
fn cover_links() {
    let t = track("Simon & Garfunkel", "The Boxer", "Bridge & Water");
    assert_eq!(
        cover_search_link("KEY\n", &t),
        "http://ws.audioscrobbler.com/2.0/?method=album.getinfo&api_key=KEY&artist=Simon %26 Garfunkel&album=Bridge %26 Water"
    );
    let single = track("A", "Hit & Run", "Single");
    assert_eq!(
        cover_search_link("K", &single),
        "http://ws.audioscrobbler.com/2.0/?method=album.getinfo&api_key=K&artist=A&album=Hit %26 Run"
    );
    assert_eq!(
        artist_search_link("a\nb\n", "Me & You"),
        "http://ws.audioscrobbler.com/2.0/?method=artist.getinfo&api_key=ab&artist=Me %26 You"
    );
}

#[test]
fn cover_taken_only_when_found() {
    let mut t = track("A", "B", "C");
    covers(&mut t, "");
    assert_eq!(t.cover, DEFAULT_COVER);
    covers(&mut t, "http://img/large.png");
    assert_eq!(t.cover, "http://img/large.png");
    assert_eq!(t.title, "B");
}

#[test]
fn artist_from_info() {
    let info = ArtistInfo {
        cover: "c.png".to_string(),
        description: "Rock &amp; roll &lt;3".to_string(),
        tags: vec!["rock".to_string()],
    };
    let a = arts("Band", info);
    assert_eq!(a.name, "Band");
    assert_eq!(a.cover, "c.png");
    assert_eq!(a.description, "Rock & roll <3");
    assert_eq!(a.tags, vec!["rock"]);
    assert_eq!(a.albums.len(), 3);
    let plain = arts("X", ArtistInfo { cover: String::new(), description: "plain".to_string(), tags: vec![] });
    assert_eq!(plain.description, "plain");
}

const ALBUM_XML: &str = r#"<?xml version="1.0" encoding="utf-8"?>
<lfm status="ok"><album><name>Record</name>
<image size="small">http://s.png</image>
<image size="large">http://l1.png</image>
<image size="extralarge">http://xl.png</image>
<image size="large">http://l2.png</image>
</album></lfm>"#;

#[test]
fn album_answer() {
    assert_eq!(req(ALBUM_XML).unwrap(), "http://l2.png");
    assert_eq!(req("<lfm><album></album></lfm>").unwrap(), "");
    assert_eq!(req("").unwrap(), "");
    assert!(matches!(req("<lfm><image size=\"large\">x</lfm>"), Err(ResponseError::UnclosedElement)));
}

const ARTIST_XML: &str = r#"<lfm status="ok"><artist><name>Band</name>
<image size="small">http://s.png</image>
<image size="large">http://first.png</image>
<similar><artist><name>Other</name><image size="large">http://other.png</image></artist></similar>
<tags><tag><name>rock</name>
<url>http://tag/rock</url></tag><tag><name>indie</name><url>u</url></tag></tags>
<bio><summary>Great &amp; loud</summary><summary>second</summary></bio>
</artist></lfm>"#;

#[test]
fn artist_answer() {
    let info = req_art(ARTIST_XML).unwrap();
    assert_eq!(info.cover, "http://first.png");
    assert_eq!(info.description, "Great &amp; loud");
    assert_eq!(info.tags, vec!["rock", "indie<url>u</url>"]);
    let empty = req_art("<lfm/>").unwrap();
    assert_eq!(empty.cover, "");
    assert_eq!(empty.description, "Lorem ipsum");
    assert!(empty.tags.is_empty());
}

#[test]
fn answers_without_the_elements() {
    assert_eq!(req("Service unavailable <b>try later</b>").unwrap(), "");
    assert_eq!(req("<lfm status=\"failed\"><error code=\"6\">Album not found</error></lfm>").unwrap(), "");
    let info = req_art("<lfm status=\"failed\"><error code=\"6\">not found</error></lfm>").unwrap();
    assert_eq!(info.cover, "");
    assert_eq!(info.description, "Lorem ipsum");
    assert!(info.tags.is_empty());
}

#[test]
fn answers_give_element_texts() {
    let cover = req(ALBUM_XML).unwrap();
    assert!(ALBUM_XML.contains(&(cover + "</")));
    let info = req_art(ARTIST_XML).unwrap();
    assert!(ARTIST_XML.contains(&(info.cover + "</")));
    assert!(ARTIST_XML.contains(&(info.description + "</")));
}

#[test]
fn attributes_and_tags() {
    let attrs = vec![
        XmlAttribute { key: "size".to_string(), value: "small".to_string() },
        XmlAttribute { key: "x".to_string(), value: "y".to_string() },
        XmlAttribute { key: "size".to_string(), value: "large".to_string() },
    ];
    assert_eq!(size_attribute(&attrs), Some("large".to_string()));
    assert_eq!(size_attribute(&vec![]), None);
    assert_eq!(tag_text("<name>jazz</name>\n<url>u</url>"), "jazz");
    assert_eq!(tag_text("plain"), "plain");
}

#[test]
fn database_queries() {
    assert_eq!(vlc_query("favorite"), FAVORITES_QUERY);
    let q = vlc_query("Road trip");
    assert!(q.contains("WHERE playlist.name = \"Road trip\";"));
    assert!(!q.contains("DUPA"));
    assert_eq!(vlc_playlist_names(vec!["a".to_string()]), vec!["a", "favorite"]);
    assert_eq!(vlc_playlist_names(vec![]), vec!["favorite"]);
    assert!(dbtype::Vlc.serves_tracks());
    assert!(!dbtype::Spotify.serves_tracks());
    assert!(dbtype::Vlc_playlists.serves_playlists());
    assert!(!dbtype::Vlc.serves_playlists());
}

#[test]
fn rows_as_tracks() {
    let t = MediaRow { title: Some("T".into()), artist: Some("A".into()), album: None, number: 4 }.toTrack();
    assert_eq!((t.title.as_str(), t.artist.as_str(), t.album.as_str()), ("T", "A", "Single"));
    assert_eq!(t.tracknum, "4");
    assert_eq!(t.maxtracknum, "");
    assert_eq!(t.cover, DEFAULT_COVER);
    let u = MediaRow { title: None, artist: None, album: Some("LP".into()), number: 0 }.toTrack();
    assert_eq!((u.title.as_str(), u.artist.as_str(), u.album.as_str()), ("Unknown Title", "Unknown Artist", "LP"));
    assert_eq!(u.tracknum, "");
}

#[test]
fn playlist_file_entries() {
    assert_eq!(playlist_entries("#EXTM3U\n/a.mp3\n\n/b.flac\n"), vec!["#EXTM3U", "/a.mp3", "/b.flac"]);
    assert_eq!(playlist_entries("one\r\ntwo"), vec!["one\r", "two"]);
    assert!(playlist_entries("").is_empty());
    assert!(playlist_entries("\n\n").is_empty());
}

#[test]
fn progress_lines() {
    assert_eq!(progress_line(0, 12), "1/12");
    assert_eq!(progress_line(9, 12), "\x1B[1A10/12");
}

#[test]
fn text_helpers() {
    assert_eq!(decimal_string(0), "0");
    assert_eq!(decimal_string(1000), "1000");
    assert_eq!(decimal_string(u64::MAX), u64::MAX.to_string());
    assert_eq!(replace_str("aaa", "aa", "b"), "ba");
    assert_eq!(replace_str("x&y&", "&", "%26"), "x%26y%26");
    assert_eq!(lines_of("a\nb\r\n\nc\r"), vec!["a", "b", "", "c\r"]);
    assert_eq!(lines_of("a\n"), vec!["a"]);
    assert!(lines_of("").is_empty());
    assert_eq!(lines_of("x\r\n"), "x\r\n".lines().collect::<Vec<_>>());
}
