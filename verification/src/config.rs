//! The command line: its arguments, where they are kept, where the template files are
//! looked for, and what a run does.
use vstd::prelude::*;

use crate::parser::opt_view;
use crate::text::owned;

verus! {

/// The arguments of a run.
pub struct Args {
    /// Write a preview page of the templates.
    pub preview: bool,
    /// Read the playlist of this name from VLC's database.
    pub vlc: Option<String>,
    /// List the playlists of VLC's database.
    pub vlcplaylist: bool,
    /// Look up covers.
    pub cover: bool,
    /// The playlist file, or VLC's database.
    pub input: Option<String>,
    /// The folder of the templates.
    pub html_path: Option<String>,
    /// The style sheet.
    pub css_path: Option<String>,
    /// The page to write.
    pub output: Option<String>,
}

fn copy_opt(o: &Option<String>) -> (r: Option<String>)
    ensures
        r == *o,
{
    match o {
        Some(s) => Some(s.clone()),
        None => None,
    }
}

impl Args {
    /// A copy of the arguments.
    pub fn duplicate(&self) -> (r: Args)
        ensures
            r == *self,
    {
        Args {
            preview: self.preview,
            vlc: copy_opt(&self.vlc),
            vlcplaylist: self.vlcplaylist,
            cover: self.cover,
            input: copy_opt(&self.input),
            html_path: copy_opt(&self.html_path),
            css_path: copy_opt(&self.css_path),
            output: copy_opt(&self.output),
        }
    }
}

/// Where the arguments of the run are kept for the parts of the program that need them.
pub struct ArgumentStore {
    entries: Vec<Args>,
}

impl View for ArgumentStore {
    type V = Seq<Args>;

    closed spec fn view(&self) -> Seq<Args> {
        self.entries@
    }
}

/// What the store holds after arguments were set.
pub open spec fn spec_set(args: Args) -> Seq<Args> {
    seq![args]
}

/// What is read from a store that holds something.
pub open spec fn spec_get(held: Seq<Args>) -> Args {
    held[0]
}

impl ArgumentStore {
    /// An empty store.
    pub fn new() -> (r: ArgumentStore)
        ensures
            r@ == Seq::<Args>::empty(),
    {
        ArgumentStore { entries: Vec::new() }
    }

    /// Whether arguments have been set.
    pub fn is_set(&self) -> (r: bool)
        ensures
            r == (self@.len() > 0),
    {
        self.entries.len() > 0
    }
}

/// Keeps `args` in place of whatever was kept.
#[allow(non_snake_case)]
pub fn set_Arguments(store: &mut ArgumentStore, args: Args)
    ensures
        final(store)@ == spec_set(args),
{
    store.entries = Vec::new();
    store.entries.push(args);
    assert(store.entries@ =~= seq![args]);
}

/// The arguments kept.
#[allow(non_snake_case)]
pub fn get_Arguments(store: &ArgumentStore) -> (r: Args)
    requires
        store@.len() > 0,
    ensures
        r == spec_get(store@),
{
    store.entries[0].duplicate()
}

/// Reading the store gives back the arguments last set; what [`set_Arguments`] leaves in
/// the store does not depend on what it held before.
pub proof fn lemma_get_after_set(args: Args)
    ensures
        spec_set(args).len() > 0,
        spec_get(spec_set(args)) == args,
{
}

/// The folder of the templates: the one given, else `m3utohtml/html` in the
/// configuration folder, else `./html`.
pub open spec fn spec_html_dir(html_path: Option<Seq<char>>, config_dir: Option<Seq<char>>) -> Seq<char> {
    match html_path {
        Some(p) => p,
        None => match config_dir {
            Some(c) => c + "/m3utohtml/html"@,
            None => "./html"@,
        },
    }
}

/// The style sheet of the pages: the one given, else `m3utohtml/css/main.css` in the
/// configuration folder, else `./css/main.css`.
pub open spec fn spec_css_file(css_path: Option<Seq<char>>, config_dir: Option<Seq<char>>) -> Seq<char> {
    match css_path {
        Some(p) => p,
        None => match config_dir {
            Some(c) => c + "/m3utohtml/css/main.css"@,
            None => "./css/main.css"@,
        },
    }
}

/// The style sheet of the window: `m3utohtml/css/app.css` in the configuration folder,
/// else `./css/app.css`.
pub open spec fn spec_app_css_file(config_dir: Option<Seq<char>>) -> Seq<char> {
    match config_dir {
        Some(c) => c + "/m3utohtml/css/app.css"@,
        None => "./css/app.css"@,
    }
}

/// The folder of the templates (see [`spec_html_dir`]), given the user's configuration
/// folder when there is one.
pub fn html_dir(args: &Args, config_dir: Option<String>) -> (r: String)
    ensures
        r@ == spec_html_dir(opt_view(args.html_path), opt_view(config_dir)),
{
    match &args.html_path {
        Some(p) => p.clone(),
        None => match config_dir {
            Some(c) => {
                let mut r = c;
                r.append("/m3utohtml/html");
                r
            },
            None => owned("./html"),
        },
    }
}

/// The style sheet of the pages (see [`spec_css_file`]).
pub fn css_file(args: &Args, config_dir: Option<String>) -> (r: String)
    ensures
        r@ == spec_css_file(opt_view(args.css_path), opt_view(config_dir)),
{
    match &args.css_path {
        Some(p) => p.clone(),
        None => match config_dir {
            Some(c) => {
                let mut r = c;
                r.append("/m3utohtml/css/main.css");
                r
            },
            None => owned("./css/main.css"),
        },
    }
}

/// The style sheet of the window (see [`spec_app_css_file`]).
pub fn app_css_file(config_dir: Option<String>) -> (r: String)
    ensures
        r@ == spec_app_css_file(opt_view(config_dir)),
{
    match config_dir {
        Some(c) => {
            let mut r = c;
            r.append("/m3utohtml/css/app.css");
            r
        },
        None => owned("./css/app.css"),
    }
}

/// `dirs::config_dir`: the user's configuration folder, when one is known, as text.
///
/// Nothing is claimed of the result: it comes from the environment of the process.
#[verifier::external_body]
fn user_config_dir() -> Option<String> {
    dirs::config_dir().map(|d| d.display().to_string())
}

/// The folder of the templates of a run with the arguments `args`: the one given, else
/// the one in the user's configuration folder (see [`spec_html_dir`]).
pub fn template_folder(args: &Args) -> (r: String)
    ensures
        exists|c: Option<Seq<char>>| r@ == spec_html_dir(opt_view(args.html_path), c),
        args.html_path is Some ==> r@ == args.html_path->0@,
{
    let c = user_config_dir();
    let r = html_dir(args, c);
    assert(r@ == spec_html_dir(opt_view(args.html_path), opt_view(c)));
    r
}

/// The style sheet of the pages of a run with the arguments `args`: the one given, else
/// the one in the user's configuration folder (see [`spec_css_file`]).
pub fn style_sheet(args: &Args) -> (r: String)
    ensures
        exists|c: Option<Seq<char>>| r@ == spec_css_file(opt_view(args.css_path), c),
        args.css_path is Some ==> r@ == args.css_path->0@,
{
    let c = user_config_dir();
    let r = css_file(args, c);
    assert(r@ == spec_css_file(opt_view(args.css_path), opt_view(c)));
    r
}

/// The style sheet of the window, in the user's configuration folder (see
/// [`spec_app_css_file`]).
pub fn window_style_sheet() -> (r: String)
    ensures
        exists|c: Option<Seq<char>>| r@ == spec_app_css_file(c),
{
    let c = user_config_dir();
    let r = app_css_file(c);
    assert(r@ == spec_app_css_file(opt_view(c)));
    r
}

/// The file `name` in the folder `dir`.
pub fn file_in(dir: &str, name: &str) -> (r: String)
    ensures
        r@ == dir@ + "/"@ + name@,
{
    let mut r = owned(dir);
    r.append("/");
    r.append(name);
    r
}

/// What a run does.
pub enum RunMode {
    /// Writes a preview page of the templates.
    Preview,
    /// Works on the given file from the command line.
    File(String),
    /// Opens the window.
    Window,
}

/// What a run does: a preview when asked, else the command line on the input file when
/// one is given, else the window.
pub fn run_mode(args: &Args) -> (r: RunMode)
    ensures
        args.preview ==> r is Preview,
        !args.preview && args.input is Some ==> r == (RunMode::File(args.input->0)),
        !args.preview && args.input is None ==> r is Window,
{
    if args.preview {
        RunMode::Preview
    } else {
        match &args.input {
            Some(f) => RunMode::File(f.clone()),
            None => RunMode::Window,
        }
    }
}

/// What the command line does with its input file.
pub enum CliAction {
    /// Lists the playlists of the database.
    ListPlaylists,
    /// Makes the page of a playlist of the database.
    Database { playlist: String, covers: bool },
    /// Makes the page of a playlist file.
    File { covers: bool },
}

/// What the command line does: lists the playlists when asked, else reads the named
/// playlist from the database when one is named, else reads a playlist file; covers are
/// looked up when asked.
pub fn cli_action(args: &Args) -> (r: CliAction)
    ensures
        args.vlcplaylist ==> r is ListPlaylists,
        !args.vlcplaylist && args.vlc is Some ==> r == (CliAction::Database { playlist: args.vlc->0, covers: args.cover }),
        !args.vlcplaylist && args.vlc is None ==> r == (CliAction::File { covers: args.cover }),
{
    if args.vlcplaylist {
        CliAction::ListPlaylists
    } else {
        match &args.vlc {
            Some(name) => CliAction::Database { playlist: name.clone(), covers: args.cover },
            None => CliAction::File { covers: args.cover },
        }
    }
}

/// The playlist name a preview page is made with: a template variable, so that the page
/// shows where the name goes.
pub const PREVIEW_PLAYLIST: &'static str = "{$playlistname}";

} // verus!
