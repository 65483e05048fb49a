use m3utohtml::error::ConfigError;
use m3utohtml::model::{Album, Artist, Track};
use m3utohtml::parser::{parse_line, render, Templates};

fn templates() -> Templates {
    Templates {
        track: "<li>{$track} by {$artist}</li>\n<span>{$tracknumber}</span>".to_string(),
        artist: "<h2>{@name}</h2>\n{@tags}\n{@albums}".to_string(),
        album: "<b>{^name}</b>".to_string(),
        playlist: "<h1>{!playlist}</h1>".to_string(),
        header: "<style>{%css}</style>".to_string(),
        tail: "</body>".to_string(),
        css: "body{}".to_string(),
    }
}

fn track() -> Track {
    Track {
        title: "Song".to_string(),
        artist: "Band".to_string(),
        album: "Record".to_string(),
        tracknum: "3".to_string(),
        maxtracknum: "12".to_string(),
        cover: "c.jpg".to_string(),
    }
}

#[test]
fn literal_line_is_copied() {
    let t = templates();
    let r = parse_line("<p>plain \\ text</p>", None, None, None, None, &t).unwrap();
    assert_eq!(r, "<p>plain \\ text</p>\n");
}

#[test]
fn empty_line_gives_line_feed() {
    let t = templates();
    assert_eq!(parse_line("", None, None, None, None, &t).unwrap(), "\n");
}

#[test]
fn track_variables() {
    let t = templates();
    let tr = track();
    assert_eq!(parse_line("{$track}", Some(tr.clone()), None, None, None, &t).unwrap(), "Song\n");
    assert_eq!(parse_line("{$album}", Some(tr.clone()), None, None, None, &t).unwrap(), "Record\n");
    assert_eq!(parse_line("{$artist}", Some(tr.clone()), None, None, None, &t).unwrap(), "Band\n");
    assert_eq!(parse_line("{$cover}", Some(tr.clone()), None, None, None, &t).unwrap(), "c.jpg\n");
    assert_eq!(
        parse_line("#{$tracknumber}#", Some(tr.clone()), None, None, None, &t).unwrap(),
        "#tracknumber: 3 / 12#\n"
    );
}

#[test]
fn track_number_without_total() {
    let t = templates();
    let mut tr = track();
    tr.maxtracknum = String::new();
    assert_eq!(
        parse_line("{$tracknumber}", Some(tr), None, None, None, &t).unwrap(),
        "tracknumber: 3\n"
    );
}

#[test]
fn track_number_unknown() {
    let t = templates();
    let mut tr = track();
    tr.tracknum = String::new();
    assert_eq!(parse_line("[{$tracknumber}]", Some(tr), None, None, None, &t).unwrap(), "[]\n");
}

#[test]
fn playlist_and_css_variables() {
    let t = templates();
    assert_eq!(
        parse_line("<h1>{!playlist}</h1>", None, None, Some("Mix".to_string()), None, &t).unwrap(),
        "<h1>Mix</h1>\n"
    );
    assert_eq!(parse_line("{%css}", None, None, None, None, &t).unwrap(), "body{}\n");
}

#[test]
fn album_variables() {
    let t = templates();
    let a = Album::new("LP".to_string(), "lp.png".to_string());
    assert_eq!(parse_line("{^name}:{^cover}", None, None, None, Some(a), &t).unwrap(), "LP:lp.png\n");
}

#[test]
fn artist_variables() {
    let t = templates();
    let a = Artist::new(
        "Band".to_string(),
        "b.png".to_string(),
        "About".to_string(),
        vec!["Pop".to_string(), "Rock".to_string()],
        vec![Album::new("One".to_string(), "1".to_string()), Album::new("Two".to_string(), "2".to_string())],
    );
    assert_eq!(parse_line("{@name}", None, Some(a.clone()), None, None, &t).unwrap(), "Band\n");
    assert_eq!(parse_line("{@cover}", None, Some(a.clone()), None, None, &t).unwrap(), "b.png\n");
    assert_eq!(parse_line("{@description}", None, Some(a.clone()), None, None, &t).unwrap(), "About\n");
    assert_eq!(
        parse_line("{@tags}", None, Some(a.clone()), None, None, &t).unwrap(),
        "<p>Pop</p>\n<p>Rock</p>\n"
    );
    assert_eq!(
        parse_line("{@albums}", None, Some(a), None, None, &t).unwrap(),
        "<b>One</b>\n<b>Two</b>\n\n"
    );
}

#[test]
fn artist_without_tags() {
    let t = templates();
    let a = Artist::new("A".to_string(), String::new(), String::new(), vec![], vec![]);
    assert_eq!(parse_line("[{@tags}][{@albums}]", None, Some(a), None, None, &t).unwrap(), "[][]\n");
}

#[test]
fn escapes_inside_braces() {
    let mut t = templates();
    t.css = "x".to_string();
    // `\%` is not an escape: the backslash stays and the variable is unknown.
    match parse_line("{\\%css}", None, None, None, None, &t) {
        Err(ConfigError::UnknownVariable(v)) => assert_eq!(v, "\\%css"),
        _ => panic!("expected an unknown variable"),
    }
    // `\}` is kept in the name.
    match parse_line("{%c\\}}", None, None, None, None, &t) {
        Err(ConfigError::UnknownVariable(v)) => assert_eq!(v, "c}"),
        _ => panic!("expected an unknown variable"),
    }
}

#[test]
fn unexpected_braces() {
    let t = templates();
    assert!(matches!(parse_line("a}b", None, None, None, None, &t), Err(ConfigError::UnexpectedCurlyBrace)));
    assert!(matches!(parse_line("a{b", None, None, None, None, &t), Err(ConfigError::UnexpectedCurlyBrace)));
    assert!(matches!(parse_line("{a{b}}", None, None, None, None, &t), Err(ConfigError::UnexpectedCurlyBrace)));
    assert!(matches!(parse_line("{a\\", None, None, None, None, &t), Err(ConfigError::UnexpectedCurlyBrace)));
}

#[test]
fn unknown_variables() {
    let t = templates();
    match parse_line("{$title}", Some(track()), None, None, None, &t) {
        Err(ConfigError::UnknownVariable(v)) => assert_eq!(v, "title"),
        _ => panic!("expected an unknown variable"),
    }
    // A track variable without a track names the whole variable.
    match parse_line("{$track}", None, None, None, None, &t) {
        Err(ConfigError::UnknownVariable(v)) => assert_eq!(v, "$track"),
        _ => panic!("expected an unknown variable"),
    }
    match parse_line("{}", None, None, None, None, &t) {
        Err(ConfigError::UnknownVariable(v)) => assert_eq!(v, ""),
        _ => panic!("expected an unknown variable"),
    }
    match parse_line("{!name}", None, None, Some("p".to_string()), None, &t) {
        Err(ConfigError::UnknownVariable(v)) => assert_eq!(v, "name"),
        _ => panic!("expected an unknown variable"),
    }
    match parse_line("{%style}", None, None, None, None, &t) {
        Err(ConfigError::UnknownVariable(v)) => assert_eq!(v, "style"),
        _ => panic!("expected an unknown variable"),
    }
}

#[test]
fn render_keeps_good_lines_and_reports_bad_ones() {
    let t = templates();
    let r = render("a\r\n{bad}\nb {!playlist}\n", None, None, Some("P".to_string()), None, &t);
    assert_eq!(r.html, "a\nb P\n");
    assert_eq!(r.errors.len(), 1);
    assert_eq!(r.errors[0].line, 2);
    assert!(matches!(r.errors[0].error, ConfigError::UnknownVariable(_)));
}

#[test]
fn track_card() {
    let t = templates();
    let r = track().getHTML(&t);
    assert_eq!(r.html, "<li>Song by Band</li>\n<span>tracknumber: 3 / 12</span>\n");
    assert!(r.errors.is_empty());
}

#[test]
fn artist_card() {
    let t = templates();
    let r = Artist::example().getHTML(&t);
    assert_eq!(
        r.html,
        "<h2>Example</h2>\n<p>Pop</p>\n<p>Rock</p>\n<p>Electro</p>\n<b>Example</b>\n<b>Example</b>\n<b>Example</b>\n\n"
    );
}

#[test]
fn error_messages() {
    assert_eq!(ConfigError::UnexpectedCurlyBrace.message(), "Unexpected curly brace found.");
    assert_eq!(ConfigError::UnknownVariable("x".to_string()).message(), "Unknown variable: x");
    assert_eq!(ConfigError::UnknownRgb("y".to_string()).message(), "Unknown RGB Value: y");
    let io = std::io::Error::new(std::io::ErrorKind::NotFound, "gone");
    assert_eq!(ConfigError::FileRead(io).message(), "Failed to read file: gone");
}

#[test]
fn joined_lines_fill_as_both() {
    let t = templates();
    let p = Some("Mix".to_string());
    let a = "<h1>{!playlist}</h1>";
    let b = "<p>{\\}}{!playlist}</p>";
    let x = parse_line(a, None, None, p.clone(), None, &t).unwrap();
    let y = parse_line(b, None, None, p.clone(), None, &t);
    assert_eq!(x, "<h1>Mix</h1>\n");
    assert!(y.is_err());
    let b = "<p>{!playlist}</p>";
    let y = parse_line(b, None, None, p.clone(), None, &t).unwrap();
    let ab = format!("{}{}", a, b);
    let joined = parse_line(&ab, None, None, p, None, &t).unwrap();
    assert_eq!(joined, format!("{}{}", x.trim_end_matches('\n'), y));
    assert_eq!(joined, "<h1>Mix</h1><p>Mix</p>\n");
}
