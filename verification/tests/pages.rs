use m3utohtml::config::{
    app_css_file, cli_action, css_file, file_in, get_Arguments, html_dir, run_mode, set_Arguments,
    ArgumentStore, Args, CliAction, RunMode, PREVIEW_PLAYLIST, style_sheet, template_folder,
    window_style_sheet,
};
use m3utohtml::error::ConfigError;
use m3utohtml::lists::{get_ArtistList, get_TrackList, set_ArtistList, set_TrackList, PageLists};
use m3utohtml::logic::{generate, output_file};
use m3utohtml::model::{Album, Artist, Track, DEFAULT_COVER, LOREM};
use m3utohtml::parser::Templates;

fn args() -> Args {
    Args {
        preview: false,
        vlc: None,
        vlcplaylist: false,
        cover: false,
        input: None,
        html_path: None,
        css_path: None,
        output: None,
    }
}

fn templates() -> Templates {
    Templates {
        track: "<li>{$track}</li>".to_string(),
        artist: "<h2>{@name}</h2>".to_string(),
        album: "{^name}".to_string(),
        playlist: "<h1>{!playlist}</h1>\n<div>".to_string(),
        header: "<html><title>{!playlist}</title>\n{$oops}".to_string(),
        tail: "</html>".to_string(),
        css: String::new(),
    }
}

#[test]
fn whole_page() {
    let t = templates();
    let tracks = vec![Track::example(), Track::example()];
    let artists = vec![Artist::new("A".to_string(), String::new(), String::new(), vec![], vec![])];
    let page = generate("Mix", &tracks, artists, None, &t);
    assert_eq!(
        page.html,
        "<html><title>Mix</title>\n<h1>Mix</h1>\n<div>\n<li>{$title}</li>\n<li>{$title}</li>\n</div><h2>A</h2>\n</html>"
    );
    assert_eq!(page.output, "Mix_playlist.html");
    assert_eq!(page.errors.len(), 1);
    assert_eq!(page.errors[0].line, 2);
}

#[test]
fn page_reports_card_errors() {
    let mut t = templates();
    t.header = "<html>".to_string();
    t.track = "<li>{$track}</li>\n{@name}".to_string();
    t.artist = "{$track}\n<h2>{@name}</h2>".to_string();
    let tracks = vec![Track::example(), Track::example()];
    let artists = vec![Artist::new("A".to_string(), String::new(), String::new(), vec![], vec![])];
    let page = generate("Mix", &tracks, artists, None, &t);
    assert_eq!(
        page.html,
        "<html>\n<h1>Mix</h1>\n<div>\n<li>{$title}</li>\n<li>{$title}</li>\n</div><h2>A</h2>\n</html>"
    );
    let lines: Vec<usize> = page.errors.iter().map(|e| e.line).collect();
    assert_eq!(lines, vec![2, 2, 1]);
    assert!(matches!(&page.errors[0].error, ConfigError::UnknownVariable(v) if v == "@name"));
    assert!(matches!(&page.errors[2].error, ConfigError::UnknownVariable(v) if v == "$track"));
}

#[test]
fn page_without_tracks() {
    let t = templates();
    let page = generate("P", &vec![], vec![], Some("out.html".to_string()), &t);
    assert!(page.html.ends_with("</div></html>"));
    assert_eq!(page.output, "out.html");
}

#[test]
fn output_file_names() {
    assert_eq!(output_file("Chill", None), "Chill_playlist.html");
    assert_eq!(output_file("Chill", Some("x/y.html".to_string())), "x/y.html");
    assert_eq!(output_file(PREVIEW_PLAYLIST, None), "{$playlistname}_playlist.html");
}

#[test]
fn examples() {
    let t = Track::example();
    assert_eq!(t.title, "{$title}");
    assert_eq!(t.artist, "{$artist}");
    assert_eq!(t.album, "{$album}");
    assert_eq!(t.tracknum, "{$tracknumber}");
    assert_eq!(t.maxtracknum, "");
    assert_eq!(t.cover, DEFAULT_COVER);
    let a = Artist::example();
    assert_eq!(a.name, "Example");
    assert_eq!(a.description, LOREM);
    assert_eq!(a.tags, vec!["Pop", "Rock", "Electro"]);
    assert_eq!(a.albums, vec![Album::example(), Album::example(), Album::example()]);
    assert_eq!(Album::example().name, "Example");
    assert_eq!(Album::example().cover, DEFAULT_COVER);
}

#[test]
fn setters() {
    let mut a = Artist::example();
    a.set_name("New".to_string());
    assert_eq!(a.name, "New");
    assert_eq!(a.tags.len(), 3);
    let mut t = Track::example();
    t.changeCover("pic.png");
    assert_eq!(t.cover, "pic.png");
    assert_eq!(t.title, "{$title}");
    let b = Album::new("N".to_string(), "C".to_string());
    assert_eq!((b.name.as_str(), b.cover.as_str()), ("N", "C"));
}

#[test]
fn from_tags() {
    let t = Track::from_tags(Some("Band".into()), Some("Song".into()), None, Some(7), None).unwrap();
    assert_eq!(t.artist, "Band");
    assert_eq!(t.title, "Song");
    assert_eq!(t.album, "Single");
    assert_eq!(t.tracknum, "7");
    assert_eq!(t.maxtracknum, "");
    assert_eq!(t.cover, DEFAULT_COVER);
    let u = Track::from_tags(Some("B".into()), Some("S".into()), Some("LP".into()), Some(10), Some(120)).unwrap();
    assert_eq!((u.album.as_str(), u.tracknum.as_str(), u.maxtracknum.as_str()), ("LP", "10", "120"));
    assert!(Track::from_tags(None, Some("Song".into()), None, None, None).is_none());
    assert!(Track::from_tags(Some("Band".into()), None, None, None, None).is_none());
    assert!(Track::from_tags(Some("Unknown Artist".into()), Some("Song".into()), None, None, None).is_none());
    assert!(Track::from_tags(None, None, None, None, None).is_none());
}

#[test]
fn argument_store_gives_back_last_set() {
    let mut store = ArgumentStore::new();
    assert!(!store.is_set());
    let mut a = args();
    a.vlc = Some("first".to_string());
    set_Arguments(&mut store, a);
    let mut b = args();
    b.output = Some("o.html".to_string());
    set_Arguments(&mut store, b);
    assert!(store.is_set());
    let got = get_Arguments(&store);
    assert_eq!(got.vlc, None);
    assert_eq!(got.output, Some("o.html".to_string()));
}

#[test]
fn folders() {
    let mut a = args();
    assert_eq!(html_dir(&a, Some("/home/u/.config".to_string())), "/home/u/.config/m3utohtml/html");
    assert_eq!(html_dir(&a, None), "./html");
    assert_eq!(css_file(&a, Some("/c".to_string())), "/c/m3utohtml/css/main.css");
    assert_eq!(css_file(&a, None), "./css/main.css");
    a.html_path = Some("/t".to_string());
    a.css_path = Some("/s.css".to_string());
    assert_eq!(html_dir(&a, Some("/c".to_string())), "/t");
    assert_eq!(css_file(&a, None), "/s.css");
    assert_eq!(app_css_file(Some("/c".to_string())), "/c/m3utohtml/css/app.css");
    assert_eq!(app_css_file(None), "./css/app.css");
    assert_eq!(file_in("/t", "track"), "/t/track");
}

#[test]
fn folders_of_the_user() {
    let mut a = args();
    let t = template_folder(&a);
    assert!(t == "./html" || t.ends_with("/m3utohtml/html"));
    let c = style_sheet(&a);
    assert!(c == "./css/main.css" || c.ends_with("/m3utohtml/css/main.css"));
    let w = window_style_sheet();
    assert!(w == "./css/app.css" || w.ends_with("/m3utohtml/css/app.css"));
    a.html_path = Some("/t".to_string());
    a.css_path = Some("/s.css".to_string());
    assert_eq!(template_folder(&a), "/t");
    assert_eq!(style_sheet(&a), "/s.css");
}

#[test]
fn run_modes() {
    let mut a = args();
    assert!(matches!(run_mode(&a), RunMode::Window));
    a.input = Some("list.m3u".to_string());
    assert!(matches!(run_mode(&a), RunMode::File(f) if f == "list.m3u"));
    a.preview = true;
    assert!(matches!(run_mode(&a), RunMode::Preview));
}

#[test]
fn cli_actions() {
    let mut a = args();
    a.cover = true;
    assert!(matches!(cli_action(&a), CliAction::File { covers: true }));
    a.vlc = Some("favorite".to_string());
    assert!(matches!(cli_action(&a), CliAction::Database { playlist, covers: true } if playlist == "favorite"));
    a.vlcplaylist = true;
    assert!(matches!(cli_action(&a), CliAction::ListPlaylists));
}

#[test]
fn page_lists_keep_what_was_set() {
    let mut lists = PageLists::new();
    assert!(get_TrackList(&lists).is_empty());
    assert!(get_ArtistList(&lists).is_empty());
    set_TrackList(&mut lists, vec![Track::example()]);
    set_ArtistList(&mut lists, vec![Artist::example()]);
    assert_eq!(get_TrackList(&lists), vec![Track::example()]);
    set_TrackList(&mut lists, vec![]);
    assert!(get_TrackList(&lists).is_empty());
    assert_eq!(get_ArtistList(&lists), vec![Artist::example()]);
    assert_eq!(Artist::example().duplicate(), Artist::example());
}
