//! The settings in `~/.tune/config.yml`, and where tune keeps its files.

use vstd::prelude::*;
use crate::path::{join_path, joined};
use crate::text::{trim, trimmed};

verus! {

/// tune's own version.
pub const VERSION: &'static str = "0.3.0";

#[derive(Debug, Clone)]
pub struct Config {
    /// Spotify Developer client ID (PKCE, no secret needed).
    pub client_id: String,
    /// Polling cadence for now-playing state, seconds.
    pub poll_s: u64,
    /// Preferred device to fall back to when nothing is playing. Empty =
    /// whatever Spotify Connect picks.
    pub default_device: String,
    /// Whether tune registers itself as a Spotify Connect device on launch.
    pub local_player: bool,
    /// Device name shown in everyone's Spotify Connect picker.
    pub device_name: String,
    /// Where the music files are. Empty = `~/Music`, or the home folder.
    pub music_dir: String,
}

pub fn default_poll_s() -> (r: u64)
    ensures
        r == 2,
{
    2
}

pub fn default_true() -> (r: bool)
    ensures
        r,
{
    true
}

pub fn default_device_name() -> (r: String)
    ensures
        r@ == "tune"@,
{
    "tune".to_owned()
}

impl Default for Config {
    /// The settings of a file that sets nothing.
    fn default() -> (r: Config)
        ensures
            r.client_id@.len() == 0,
            r.poll_s == 2,
            r.default_device@.len() == 0,
            r.local_player,
            r.device_name@ == "tune"@,
            r.music_dir@.len() == 0,
    {
        Config {
            client_id: String::new(),
            poll_s: default_poll_s(),
            default_device: String::new(),
            local_player: default_true(),
            device_name: default_device_name(),
            music_dir: String::new(),
        }
    }
}

/// The home folder, where `home` is what `HOME` holds; `/tmp` without one.
pub open spec fn home_folder(home: Option<Seq<char>>) -> Seq<char> {
    match home {
        Some(h) => h,
        None => "/tmp"@,
    }
}

/// The folder tune keeps its files in, for a home folder.
pub open spec fn tune_folder(home: Option<Seq<char>>) -> Seq<char> {
    joined(home_folder(home), ".tune"@)
}

/// The text of a string that may be absent.
pub open spec fn opt_text(s: Option<String>) -> Option<Seq<char>> {
    match s {
        Some(t) => Some(t@),
        None => None,
    }
}

/// `~/.tune`, where `home` is what `HOME` holds; `/tmp/.tune` without one.
pub fn tune_dir(home: &Option<String>) -> (r: String)
    ensures
        r@ == tune_folder(opt_text(*home)),
{
    match home {
        Some(h) => join_path(h, ".tune"),
        None => join_path("/tmp", ".tune"),
    }
}

/// The settings file.
pub fn config_path(home: &Option<String>) -> (r: String)
    ensures
        r@ == joined(tune_folder(opt_text(*home)), "config.yml"@),
{
    join_path(&tune_dir(home), "config.yml")
}

/// The file that the log of a run goes to.
pub fn log_path(home: &Option<String>) -> (r: String)
    ensures
        r@ == joined(tune_folder(opt_text(*home)), "tune.log"@),
{
    join_path(&tune_dir(home), "tune.log")
}

/// Where music is looked for without a setting: `~/Music`.
pub fn music_folder(home: &Option<String>) -> (r: String)
    ensures
        r@ == joined(home_folder(opt_text(*home)), "Music"@),
{
    match home {
        Some(h) => join_path(h, "Music"),
        None => join_path("/tmp", "Music"),
    }
}

impl Config {
    /// The folder that browsing starts in: the setting; without one `~/Music`
    /// if there is such a folder, which `has_music` says, else the home folder.
    pub fn music_root(&self, home: &Option<String>, has_music: bool) -> (r: String)
        ensures
            r@ == (if self.music_dir@.len() > 0 {
                self.music_dir@
            } else if has_music {
                joined(home_folder(opt_text(*home)), "Music"@)
            } else {
                home_folder(opt_text(*home))
            }),
    {
        if !self.music_dir.as_str().is_empty() {
            return self.music_dir.clone();
        }
        if has_music {
            return music_folder(home);
        }
        match home {
            Some(h) => h.clone(),
            None => "/tmp".to_owned(),
        }
    }

    /// Whether the settings name no client: only blanks, or nothing.
    pub fn needs_client_id(&self) -> (r: bool)
        ensures
            r == (trimmed(self.client_id@).len() == 0),
    {
        trim(&self.client_id).as_str().is_empty()
    }

    /// Takes over a client id as it was typed, without blanks around it.
    /// False, and nothing changed, where nothing was typed.
    pub fn enter_client_id(&mut self, typed: &str) -> (r: bool)
        ensures
            r == (trimmed(typed@).len() > 0),
            r ==> final(self).client_id@ == trimmed(typed@),
            *final(self) == (Config { client_id: final(self).client_id, ..*old(self) }),
            !r ==> *final(self) == *old(self),
    {
        let id = trim(typed);
        if id.as_str().is_empty() {
            return false;
        }
        self.client_id = id;
        true
    }
}

/// What the command line asks for.
#[derive(Debug, Clone, Copy, PartialEq, Eq, Structural)]
pub enum Launch {
    Version,
    Help,
    Screen,
}

pub open spec fn arg_meaning(arg: Seq<char>) -> Launch {
    if arg == "--version"@ || arg == "-V"@ || arg == "-v"@ {
        Launch::Version
    } else if arg == "--help"@ || arg == "-h"@ {
        Launch::Help
    } else {
        Launch::Screen
    }
}

/// The first argument that means something decides.
pub open spec fn launch(args: Seq<Seq<char>>) -> Launch
    decreases args.len(),
{
    if args.len() == 0 {
        Launch::Screen
    } else if arg_meaning(args[0]) != Launch::Screen {
        arg_meaning(args[0])
    } else {
        launch(args.drop_first())
    }
}

pub fn launch_mode(args: &Vec<String>) -> (r: Launch)
    ensures
        r == launch(crate::text::texts(args@)),
{
    let ghost all = crate::text::texts(args@);
    let mut i: usize = 0;
    assert(all.skip(0) =~= all);
    while i < args.len()
        invariant
            all == crate::text::texts(args@),
            i <= args@.len(),
            launch(all) == launch(all.skip(i as int)),
        decreases args.len() - i,
    {
        let arg: &str = args[i].as_str();
        assert(all.skip(i as int)[0] == arg@);
        if *arg == *"--version" || *arg == *"-V" || *arg == *"-v" {
            return Launch::Version;
        }
        if *arg == *"--help" || *arg == *"-h" {
            return Launch::Help;
        }
        assert(all.skip(i as int).drop_first() =~= all.skip(i as int + 1));
        i = i + 1;
    }
    Launch::Screen
}

// ---- Laws of the settings -------------------------------------------

/// tune keeps its files in a folder of the home folder, or of `/tmp` without
/// one.
pub proof fn law_where_files_are_kept(h: Seq<char>, s: String)
    ensures
        tune_folder(Some(h)) == joined(h, ".tune"@),
        tune_folder(None) == joined("/tmp"@, ".tune"@),
        home_folder(Some(h)) == h,
        home_folder(None) == "/tmp"@,
        opt_text(Some(s)) == Some(s@),
        opt_text(None) is None,
{
}

/// Of the arguments the first that means something decides, and without one
/// the screen starts.
pub proof fn law_the_first_argument_decides(before: Seq<Seq<char>>, arg: Seq<char>, after: Seq<Seq<char>>)
    requires
        forall|i: int| 0 <= i < before.len() ==> arg_meaning(#[trigger] before[i]) is Screen,
    ensures
        !(arg_meaning(arg) is Screen) ==> launch(before + seq![arg] + after) == arg_meaning(arg),
        launch(before) is Screen,
    decreases before.len(),
{
    let all = before + seq![arg] + after;
    if before.len() > 0 {
        let t = before.drop_first();
        assert forall|i: int| 0 <= i < t.len() implies arg_meaning(#[trigger] t[i]) is Screen by {
            assert(t[i] == before[i + 1]);
        }
        law_the_first_argument_decides(t, arg, after);
        assert(all.drop_first() =~= t + seq![arg] + after);
        assert(all[0] == before[0]);
    } else {
        assert(all[0] == arg);
    }
}

/// The arguments that mean something.
pub proof fn law_what_arguments_mean(arg: Seq<char>)
    ensures
        arg == "--version"@ || arg == "-V"@ || arg == "-v"@ ==> arg_meaning(arg) is Version,
        arg == "--help"@ || arg == "-h"@ ==> arg_meaning(arg) is Help,
        arg != "--version"@ && arg != "-V"@ && arg != "-v"@ && arg != "--help"@ && arg != "-h"@ ==> arg_meaning(arg) is Screen,
{
    reveal_strlit("--version");
    reveal_strlit("-V");
    reveal_strlit("-v");
    reveal_strlit("--help");
    reveal_strlit("-h");
    assert("--version"@.len() == 9 && "--help"@.len() == 6 && "-h"@.len() == 2 && "-V"@.len() == 2 && "-v"@.len() == 2);
    assert("-h"@[1] == 'h' && "-V"@[1] == 'V' && "-v"@[1] == 'v');
}

}
