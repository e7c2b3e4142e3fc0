//! What each key does.

use vstd::prelude::*;
use crate::app::{in_range, law_pages_down, law_pages_up, lemma_list_len_fits, App, Screen, PAGE};
use crate::local::LocalKey;

verus! {

/// What is left to do after a key, besides drawing the screen again.
#[derive(Debug, Clone, Copy, PartialEq, Eq, Structural)]
pub enum Step {
    Quit,
    Stay,
    /// Asks for something to search for.
    Prompt,
    LoadPlaylists,
    LoadSaved,
    LoadQueue,
    LoadDevices,
    /// [`App::list_activate`].
    Activate,
    /// [`App::queue_current`].
    Enqueue,
    /// [`App::toggle_play`].
    Toggle,
    /// [`App::skip_next`].
    Next,
    /// [`App::skip_prev`].
    Previous,
    /// [`App::bump_volume`].
    Volume(i32),
    /// [`App::seek_relative`].
    Seek(i64),
    /// [`App::toggle_shuffle`].
    Shuffle,
    /// [`App::cycle_repeat`].
    Repeat,
    /// What plays is asked for at once.
    Poll,
    /// The first folder is opened. See [`crate::config::Config::music_root`].
    OpenMusic,
    /// The folder around the one that is shown is opened.
    FolderUp,
    /// [`App::append_file`].
    Append,
    /// Asks for stations to search for.
    PromptStations,
    /// Asks for a country.
    PromptCountry,
    /// [`App::keep_station`].
    Keep,
    /// [`App::remove_station`].
    Remove,
    /// mpv is ended.
    StopMpv,
    /// [`App::press_local`].
    Local(LocalKey),
}

/// The keys that do something on some screen.
pub open spec fn keys() -> Seq<Seq<char>> {
    seq![
        "q"@, "Q"@, "?"@, "/"@, "P"@, "L"@, "d"@, "h"@, "l"@, "j"@, "DOWN"@, "k"@, "UP"@, "g"@, "HOME"@, "G"@, "END"@,
        "PgDOWN"@, "PgUP"@, "ENTER"@, "a"@, " "@, "SPACE"@, "n"@, "b"@, "+"@, "-"@, "]"@, "["@, "s"@, "r"@, "R"@,
        "f"@, "t"@, "x"@, "c"@, "D"@,
    ]
}

impl App {
    /// With another screen, from its first line.
    pub open spec fn shown(self, screen: Screen) -> App {
        App { screen, scroll: 0, ..self }
    }

    /// What a playback key comes to: it goes to mpv while there is one, and
    /// else to Spotify.
    pub open spec fn playback_step(self, local: LocalKey, spotify: Step) -> Step {
        if self.mpv is Some {
            Step::Local(local)
        } else {
            spotify
        }
    }

    /// The message goes with the next key.
    pub open spec fn quiet(self) -> App {
        App { status: None, ..self }
    }

    /// What a key does: the state after it, and what is left to do.
    pub open spec fn step(self, key: Seq<char>) -> (App, Step) {
        let a = self.quiet();
        if (key == "q"@ || key == "Q"@) && a.screen == Screen::Help {
            (App { screen: Screen::Search, ..a }, Step::Stay)
        } else if key == "q"@ {
            (a, Step::Quit)
        } else if key == "?"@ {
            (a.shown(Screen::Help), Step::Stay)
        } else if key == "/"@ && a.screen == Screen::Radio {
            (a, Step::PromptStations)
        } else if key == "/"@ {
            (a.shown(Screen::Search), Step::Prompt)
        } else if key == "P"@ {
            (
                a.shown(Screen::Playlists),
                if a.playlists@.len() == 0 {
                    Step::LoadPlaylists
                } else {
                    Step::Stay
                },
            )
        } else if key == "L"@ {
            (
                a.shown(Screen::Saved),
                if a.saved_tracks@.len() == 0 {
                    Step::LoadSaved
                } else {
                    Step::Stay
                },
            )
        } else if key == "Q"@ {
            (a.shown(Screen::Queue), Step::LoadQueue)
        } else if key == "d"@ {
            (a.shown(Screen::Devices), Step::LoadDevices)
        } else if key == "f"@ {
            (
                a.shown(Screen::Files),
                if a.folder is None {
                    Step::OpenMusic
                } else {
                    Step::Stay
                },
            )
        } else if key == "t"@ && a.screen == Screen::Radio && a.found_stations is Some {
            (App { found_stations: None, radio_idx: 0, ..a.shown(Screen::Radio) }, Step::Stay)
        } else if key == "t"@ {
            (a.shown(Screen::Radio), Step::Stay)
        } else if key == "x"@ && a.mpv is Some {
            (App { mpv: None, ..a }, Step::StopMpv)
        } else if key == "c"@ && a.screen == Screen::Radio {
            (a, Step::PromptCountry)
        } else if key == "D"@ && a.screen == Screen::Radio {
            (a, Step::Remove)
        } else if key == "h"@ && a.screen == Screen::PlaylistTracks {
            (a.shown(Screen::Playlists), Step::Stay)
        } else if key == "h"@ && a.screen == Screen::Files {
            (a, Step::FolderUp)
        } else if (key == "h"@ || key == "l"@) && a.shows_releases() {
            (a.looking(key == "l"@), Step::Stay)
        } else if key == "j"@ || key == "DOWN"@ {
            (a.down(), Step::Stay)
        } else if key == "k"@ || key == "UP"@ {
            (a.up(), Step::Stay)
        } else if key == "g"@ || key == "HOME"@ {
            (a.top(), Step::Stay)
        } else if key == "G"@ || key == "END"@ {
            (a.bottom(), Step::Stay)
        } else if key == "PgDOWN"@ {
            (a.down_by(PAGE as nat), Step::Stay)
        } else if key == "PgUP"@ {
            (a.up_by(PAGE as nat), Step::Stay)
        } else if key == "ENTER"@ {
            (a, Step::Activate)
        } else if key == "a"@ {
            (
                a,
                match a.screen {
                    Screen::Files => Step::Append,
                    Screen::Radio => Step::Keep,
                    _ => Step::Enqueue,
                },
            )
        } else if key == " "@ || key == "SPACE"@ {
            (a, a.playback_step(LocalKey::Pause, Step::Toggle))
        } else if key == "n"@ {
            (a, a.playback_step(LocalKey::Next, Step::Next))
        } else if key == "b"@ {
            (a, a.playback_step(LocalKey::Previous, Step::Previous))
        } else if key == "+"@ {
            (a, a.playback_step(LocalKey::Volume(5), Step::Volume(5)))
        } else if key == "-"@ {
            (a, a.playback_step(LocalKey::Volume((-5) as i64), Step::Volume((-5) as i32)))
        } else if key == "]"@ {
            (a, a.playback_step(LocalKey::Seek(5), Step::Seek(5_000)))
        } else if key == "["@ {
            (a, a.playback_step(LocalKey::Seek((-5) as i64), Step::Seek((-5_000) as i64)))
        } else if key == "s"@ {
            (a, a.playback_step(LocalKey::Shuffle, Step::Shuffle))
        } else if key == "r"@ {
            (a, a.playback_step(LocalKey::Repeat, Step::Repeat))
        } else if key == "R"@ {
            (a, Step::Poll)
        } else {
            (a, Step::Stay)
        }
    }

    fn show(&mut self, screen: Screen)
        ensures
            *final(self) == old(self).shown(screen),
    {
        self.screen = screen;
        self.scroll = 0;
    }

    fn playback_key(&self, local: LocalKey, spotify: Step) -> (r: Step)
        ensures
            r == self.playback_step(local, spotify),
    {
        if self.mpv.is_some() {
            Step::Local(local)
        } else {
            spotify
        }
    }

    /// Takes one key.
    pub fn handle(&mut self, key: &str) -> (r: Step)
        ensures
            (*final(self), r) == old(self).step(key@),
            old(self).wf() ==> final(self).wf(),
    {
        proof {
            if old(self).wf() {
                law_keys_keep_the_state_sound(*old(self), key@);
            }
        }
        self.clear_status();
        if (*key == *"q" || *key == *"Q") && self.screen == Screen::Help {
            self.screen = Screen::Search;
            Step::Stay
        } else if *key == *"q" {
            Step::Quit
        } else if *key == *"?" {
            self.show(Screen::Help);
            Step::Stay
        } else if *key == *"/" && self.screen == Screen::Radio {
            Step::PromptStations
        } else if *key == *"/" {
            self.show(Screen::Search);
            Step::Prompt
        } else if *key == *"P" {
            self.show(Screen::Playlists);
            if self.playlists.len() == 0 {
                Step::LoadPlaylists
            } else {
                Step::Stay
            }
        } else if *key == *"L" {
            self.show(Screen::Saved);
            if self.saved_tracks.len() == 0 {
                Step::LoadSaved
            } else {
                Step::Stay
            }
        } else if *key == *"Q" {
            self.show(Screen::Queue);
            Step::LoadQueue
        } else if *key == *"d" {
            self.show(Screen::Devices);
            Step::LoadDevices
        } else if *key == *"f" {
            self.show(Screen::Files);
            if self.folder.is_none() {
                Step::OpenMusic
            } else {
                Step::Stay
            }
        } else if *key == *"t" && self.screen == Screen::Radio && self.found_stations.is_some() {
            self.show(Screen::Radio);
            self.found_stations = None;
            self.radio_idx = 0;
            Step::Stay
        } else if *key == *"t" {
            self.show(Screen::Radio);
            Step::Stay
        } else if *key == *"x" && self.mpv.is_some() {
            self.mpv = None;
            Step::StopMpv
        } else if *key == *"c" && self.screen == Screen::Radio {
            Step::PromptCountry
        } else if *key == *"D" && self.screen == Screen::Radio {
            Step::Remove
        } else if *key == *"h" && self.screen == Screen::PlaylistTracks {
            self.show(Screen::Playlists);
            Step::Stay
        } else if *key == *"h" && self.screen == Screen::Files {
            Step::FolderUp
        } else if (*key == *"h" || *key == *"l") && self.screen == Screen::Search && self.releases.is_some() {
            self.look(*key == *"l");
            Step::Stay
        } else if *key == *"j" || *key == *"DOWN" {
            self.list_down();
            Step::Stay
        } else if *key == *"k" || *key == *"UP" {
            self.list_up();
            Step::Stay
        } else if *key == *"g" || *key == *"HOME" {
            self.list_top();
            Step::Stay
        } else if *key == *"G" || *key == *"END" {
            self.list_bottom();
            Step::Stay
        } else if *key == *"PgDOWN" {
            self.page_down();
            Step::Stay
        } else if *key == *"PgUP" {
            self.page_up();
            Step::Stay
        } else if *key == *"ENTER" {
            Step::Activate
        } else if *key == *"a" {
            match self.screen {
                Screen::Files => Step::Append,
                Screen::Radio => Step::Keep,
                _ => Step::Enqueue,
            }
        } else if *key == *" " || *key == *"SPACE" {
            self.playback_key(LocalKey::Pause, Step::Toggle)
        } else if *key == *"n" {
            self.playback_key(LocalKey::Next, Step::Next)
        } else if *key == *"b" {
            self.playback_key(LocalKey::Previous, Step::Previous)
        } else if *key == *"+" {
            self.playback_key(LocalKey::Volume(5), Step::Volume(5))
        } else if *key == *"-" {
            self.playback_key(LocalKey::Volume(-5), Step::Volume(-5))
        } else if *key == *"]" {
            self.playback_key(LocalKey::Seek(5), Step::Seek(5_000))
        } else if *key == *"[" {
            self.playback_key(LocalKey::Seek(-5), Step::Seek(-5_000))
        } else if *key == *"s" {
            self.playback_key(LocalKey::Shuffle, Step::Shuffle)
        } else if *key == *"r" {
            self.playback_key(LocalKey::Repeat, Step::Repeat)
        } else if *key == *"R" {
            Step::Poll
        } else {
            Step::Stay
        }
    }
}

proof fn lemma_cursor_keeps_sound(a: App, i: usize)
    requires
        a.wf(),
        match a.list_len() {
            Some(n) => in_range(i, n) || i == a.idx(),
            None => true,
        },
    ensures
        a.with_idx(i).wf(),
{
}

proof fn lemma_moves_keep_sound(a: App)
    requires
        a.wf(),
    ensures
        a.down().wf(),
        a.up().wf(),
        a.top().wf(),
        a.bottom().wf(),
        a.down_by(PAGE as nat).wf(),
        a.up_by(PAGE as nat).wf(),
{
    let i = a.idx();
    lemma_list_len_fits(a);
    lemma_cursor_keeps_sound(a, 0);
    if a.list_len() is Some {
        let n = a.list_len()->0;
        law_pages_down(a, PAGE as nat);
        if i + 1 < n {
            lemma_cursor_keeps_sound(a, (i + 1) as usize);
        }
        if n > 0 {
            lemma_cursor_keeps_sound(a, (n - 1) as usize);
        }
        if i + PAGE < n {
            lemma_cursor_keeps_sound(a, (i + PAGE) as usize);
        }
    } else {
        lemma_no_list_no_move(a, PAGE as nat);
    }
    law_pages_up(a, PAGE as nat);
    if i > 0 {
        lemma_up_keeps_sound(a, 1);
    }
    if i >= PAGE {
        lemma_up_keeps_sound(a, PAGE);
    }
}

proof fn lemma_up_keeps_sound(a: App, k: usize)
    requires
        a.wf(),
        k <= a.idx(),
    ensures
        a.with_idx((a.idx() - k) as usize).wf(),
{
}

/// Whatever the key, the cursors stay on their lists.
pub proof fn law_keys_keep_the_state_sound(a: App, key: Seq<char>)
    requires
        a.wf(),
    ensures
        a.step(key).0.wf(),
{
    lemma_moves_keep_sound(a.quiet());
}

/// The state after these keys, one after the other, with nothing loaded in
/// between.
pub open spec fn after(a: App, typed: Seq<Seq<char>>) -> App
    decreases typed.len(),
{
    if typed.len() == 0 {
        a
    } else {
        after(a, typed.drop_last()).step(typed.last()).0
    }
}

/// However many keys come, the cursors stay on their lists.
pub proof fn law_any_keys_keep_the_state_sound(a: App, typed: Seq<Seq<char>>)
    requires
        a.wf(),
    ensures
        after(a, typed).wf(),
    decreases typed.len(),
{
    if typed.len() > 0 {
        law_any_keys_keep_the_state_sound(a, typed.drop_last());
        law_keys_keep_the_state_sound(after(a, typed.drop_last()), typed.last());
    }
}

proof fn lemma_no_list_no_move(a: App, n: nat)
    requires
        a.list_len() is None,
    ensures
        a.down_by(n) == a,
    decreases n,
{
    if n > 0 {
        lemma_no_list_no_move(a, (n - 1) as nat);
    }
}

/// `q` quits everywhere but in the help, and no other key does.
pub proof fn law_only_q_quits(a: App, key: Seq<char>)
    ensures
        a.step(key).1 == Step::Quit <==> key == "q"@ && a.screen != Screen::Help,
{
}

/// In the help `q` leads back to the search, and so does `Q`.
pub proof fn law_q_leaves_the_help(a: App, key: Seq<char>)
    requires
        a.screen == Screen::Help,
        key == "q"@ || key == "Q"@,
    ensures
        a.step(key) == (App { screen: Screen::Search, ..a.quiet() }, Step::Stay),
{
}

/// A key that means nothing only takes the message away.
pub proof fn law_other_keys_do_nothing(a: App, key: Seq<char>)
    requires
        !keys().contains(key),
    ensures
        a.step(key) == (a.quiet(), Step::Stay),
{
    assert forall|i: int| 0 <= i < keys().len() implies #[trigger] keys()[i] != key by {
        assert(keys().contains(keys()[i]));
    }
    let k = keys();
    assert(k[0] != key && k[1] != key && k[2] != key && k[3] != key && k[4] != key && k[5] != key);
    assert(k[6] != key && k[7] != key && k[8] != key && k[9] != key && k[10] != key && k[11] != key);
    assert(k[12] != key && k[13] != key && k[14] != key && k[15] != key && k[16] != key && k[17] != key);
    assert(k[18] != key && k[19] != key && k[20] != key && k[21] != key && k[22] != key && k[23] != key);
    assert(k[24] != key && k[25] != key && k[26] != key && k[27] != key && k[28] != key && k[29] != key);
    assert(k[30] != key && k[31] != key && k[32] != key && k[33] != key && k[34] != key && k[35] != key);
    assert(k[36] != key);
}

/// Whether two states have the same loaded and the same playing, but for the
/// stations that were found and for mpv.
pub open spec fn same_loaded(a: App, b: App) -> bool {
    &&& b.playback == a.playback
    &&& b.search_results == a.search_results
    &&& b.playlists == a.playlists
    &&& b.open_playlist == a.open_playlist
    &&& b.playlist_tracks == a.playlist_tracks
    &&& b.playlist_places == a.playlist_places
    &&& b.saved_tracks == a.saved_tracks
    &&& b.queue == a.queue
    &&& b.devices == a.devices
    &&& b.cover_track_id == a.cover_track_id
    &&& b.default_device == a.default_device
    &&& b.folder == a.folder
    &&& b.files == a.files
    &&& b.kept == a.kept
    &&& b.own_device == a.own_device
    &&& match (a.releases, b.releases) {
        (Some(l), Some(m)) => m.artist == l.artist && m.rows == l.rows,
        (None, None) => true,
        _ => false,
    }
}

/// Whether two states have all of that the same.
spec fn same_all(a: App, b: App) -> bool {
    same_loaded(a, b) && b.found_stations == a.found_stations && b.mpv == a.mpv
}

proof fn lemma_letters()
    ensures
        "f"@ != "q"@ && "f"@ != "Q"@ && "f"@ != "?"@ && "f"@ != "/"@ && "f"@ != "P"@ && "f"@ != "L"@ && "f"@ != "d"@,
        "t"@ != "q"@ && "t"@ != "Q"@ && "t"@ != "?"@ && "t"@ != "/"@ && "t"@ != "P"@ && "t"@ != "L"@ && "t"@ != "d"@,
        "x"@ != "q"@ && "x"@ != "Q"@ && "x"@ != "?"@ && "x"@ != "/"@ && "x"@ != "P"@ && "x"@ != "L"@ && "x"@ != "d"@,
        "t"@ != "f"@ && "x"@ != "f"@ && "x"@ != "t"@,
{
    reveal_strlit("f");
    reveal_strlit("t");
    reveal_strlit("x");
    reveal_strlit("q");
    reveal_strlit("Q");
    reveal_strlit("?");
    reveal_strlit("/");
    reveal_strlit("P");
    reveal_strlit("L");
    reveal_strlit("d");
    assert("f"@[0] == 'f' && "t"@[0] == 't' && "x"@[0] == 'x' && "q"@[0] == 'q' && "Q"@[0] == 'Q' && "?"@[0] == '?');
    assert("/"@[0] == '/' && "P"@[0] == 'P' && "L"@[0] == 'L' && "d"@[0] == 'd');
}

proof fn lemma_cursor_loads_nothing(a: App, i: usize)
    ensures
        same_all(a, a.with_idx(i)),
{
}

proof fn lemma_moves_load_nothing(a: App)
    ensures
        same_all(a, a.down()),
        same_all(a, a.up()),
        same_all(a, a.top()),
        same_all(a, a.bottom()),
        same_all(a, a.down_by(PAGE as nat)),
        same_all(a, a.up_by(PAGE as nat)),
{
    assert forall|i: usize| same_all(a, #[trigger] a.with_idx(i)) by {
        lemma_cursor_loads_nothing(a, i);
    }
    law_pages_up(a, PAGE as nat);
    if a.list_len() is Some {
        law_pages_down(a, PAGE as nat);
    } else {
        lemma_no_list_no_move(a, PAGE as nat);
    }
}

/// No key touches what was loaded or what plays, but that `t` leaves the
/// stations that were found, and `x` ends mpv.
pub proof fn law_keys_load_nothing(a: App, key: Seq<char>)
    ensures
        same_loaded(a, a.step(key).0),
        key != "t"@ || a.screen != Screen::Radio ==> a.step(key).0.found_stations == a.found_stations,
        key != "x"@ ==> a.step(key).0.mpv == a.mpv,
{
    lemma_moves_load_nothing(a.quiet());
}

/// While mpv is there the playback keys go to it, and without it they go to
/// Spotify.
pub proof fn law_playback_keys_go_to_what_plays(a: App, key: Seq<char>)
    ensures
        match a.step(key).1 {
            Step::Local(_) | Step::StopMpv => a.mpv is Some,
            Step::Toggle | Step::Next | Step::Previous | Step::Volume(_) | Step::Seek(_) | Step::Shuffle | Step::Repeat => a.mpv is None,
            _ => true,
        },
{
}

/// `f` shows the files and `t` the stations, from every screen; pressed once
/// more, `t` shows the stations that are kept.
pub proof fn law_f_and_t_show_their_lists(a: App)
    ensures
        a.step("f"@).0 == a.quiet().shown(Screen::Files),
        a.screen != Screen::Radio ==> a.step("t"@).0 == a.quiet().shown(Screen::Radio),
        a.step("t"@).0.step("t"@).0.screen == Screen::Radio,
        a.step("t"@).0.step("t"@).0.stations() == a.kept@,
{
    lemma_letters();
}

/// `x` ends mpv, whatever the screen shows, and changes nothing else then.
pub proof fn law_x_ends_mpv(a: App)
    ensures
        a.mpv is Some ==> a.step("x"@) == (App { mpv: None, ..a.quiet() }, Step::StopMpv),
        a.step("x"@).0.mpv is None,
{
    lemma_letters();
    lemma_moves_load_nothing(a.quiet());
}

// ---- Laws of each key -----------------------------------------------

/// How each key is called: the length of the name and its first letter.
proof fn lemma_key_names()
    ensures
        "q"@.len() == 1 && "q"@[0] == 'q',
        "Q"@.len() == 1 && "Q"@[0] == 'Q',
        "?"@.len() == 1 && "?"@[0] == '?',
        "/"@.len() == 1 && "/"@[0] == '/',
        "P"@.len() == 1 && "P"@[0] == 'P',
        "L"@.len() == 1 && "L"@[0] == 'L',
        "d"@.len() == 1 && "d"@[0] == 'd',
        "h"@.len() == 1 && "h"@[0] == 'h',
        "l"@.len() == 1 && "l"@[0] == 'l',
        "j"@.len() == 1 && "j"@[0] == 'j',
        "DOWN"@.len() == 4 && "DOWN"@[0] == 'D',
        "k"@.len() == 1 && "k"@[0] == 'k',
        "UP"@.len() == 2 && "UP"@[0] == 'U',
        "g"@.len() == 1 && "g"@[0] == 'g',
        "HOME"@.len() == 4 && "HOME"@[0] == 'H',
        "G"@.len() == 1 && "G"@[0] == 'G',
        "END"@.len() == 3 && "END"@[0] == 'E',
        "PgDOWN"@.len() == 6 && "PgDOWN"@[0] == 'P',
        "PgUP"@.len() == 4 && "PgUP"@[0] == 'P',
        "ENTER"@.len() == 5 && "ENTER"@[0] == 'E',
        "a"@.len() == 1 && "a"@[0] == 'a',
        " "@.len() == 1 && " "@[0] == ' ',
        "SPACE"@.len() == 5 && "SPACE"@[0] == 'S',
        "n"@.len() == 1 && "n"@[0] == 'n',
        "b"@.len() == 1 && "b"@[0] == 'b',
        "+"@.len() == 1 && "+"@[0] == '+',
        "-"@.len() == 1 && "-"@[0] == '-',
        "]"@.len() == 1 && "]"@[0] == ']',
        "["@.len() == 1 && "["@[0] == '[',
        "s"@.len() == 1 && "s"@[0] == 's',
        "r"@.len() == 1 && "r"@[0] == 'r',
        "R"@.len() == 1 && "R"@[0] == 'R',
        "f"@.len() == 1 && "f"@[0] == 'f',
        "t"@.len() == 1 && "t"@[0] == 't',
        "x"@.len() == 1 && "x"@[0] == 'x',
        "c"@.len() == 1 && "c"@[0] == 'c',
        "D"@.len() == 1 && "D"@[0] == 'D',
{
    reveal_strlit("q");
    reveal_strlit("Q");
    reveal_strlit("?");
    reveal_strlit("/");
    reveal_strlit("P");
    reveal_strlit("L");
    reveal_strlit("d");
    reveal_strlit("h");
    reveal_strlit("l");
    reveal_strlit("j");
    reveal_strlit("DOWN");
    reveal_strlit("k");
    reveal_strlit("UP");
    reveal_strlit("g");
    reveal_strlit("HOME");
    reveal_strlit("G");
    reveal_strlit("END");
    reveal_strlit("PgDOWN");
    reveal_strlit("PgUP");
    reveal_strlit("ENTER");
    reveal_strlit("a");
    reveal_strlit(" ");
    reveal_strlit("SPACE");
    reveal_strlit("n");
    reveal_strlit("b");
    reveal_strlit("+");
    reveal_strlit("-");
    reveal_strlit("]");
    reveal_strlit("[");
    reveal_strlit("s");
    reveal_strlit("r");
    reveal_strlit("R");
    reveal_strlit("f");
    reveal_strlit("t");
    reveal_strlit("x");
    reveal_strlit("c");
    reveal_strlit("D");
}

/// The keys that show a list show it from its first line, and ask for what is
/// not there yet.
pub proof fn law_keys_that_show_a_list(a: App)
    ensures
        a.step("?"@) == (App { status: None, screen: Screen::Help, scroll: 0, ..a }, Step::Stay),
        a.screen != Screen::Radio ==> a.step("/"@) == (
            App { status: None, screen: Screen::Search, scroll: 0, ..a },
            Step::Prompt,
        ),
        a.screen == Screen::Radio ==> a.step("/"@) == (App { status: None, ..a }, Step::PromptStations),
        a.step("P"@).0 == (App { status: None, screen: Screen::Playlists, scroll: 0, ..a }),
        a.playlists@.len() == 0 ==> a.step("P"@).1 == Step::LoadPlaylists,
        a.playlists@.len() > 0 ==> a.step("P"@).1 == Step::Stay,
        a.step("L"@).0 == (App { status: None, screen: Screen::Saved, scroll: 0, ..a }),
        a.saved_tracks@.len() == 0 ==> a.step("L"@).1 == Step::LoadSaved,
        a.saved_tracks@.len() > 0 ==> a.step("L"@).1 == Step::Stay,
        a.screen != Screen::Help ==> a.step("Q"@) == (
            App { status: None, screen: Screen::Queue, scroll: 0, ..a },
            Step::LoadQueue,
        ),
        a.step("d"@) == (App { status: None, screen: Screen::Devices, scroll: 0, ..a }, Step::LoadDevices),
        a.step("f"@).0 == (App { status: None, screen: Screen::Files, scroll: 0, ..a }),
        a.folder is None ==> a.step("f"@).1 == Step::OpenMusic,
        a.folder is Some ==> a.step("f"@).1 == Step::Stay,
        !(a.screen == Screen::Radio && a.found_stations is Some) ==> a.step("t"@) == (
            App { status: None, screen: Screen::Radio, scroll: 0, ..a },
            Step::Stay,
        ),
        a.screen == Screen::Radio && a.found_stations is Some ==> a.step("t"@) == (
            App { status: None, scroll: 0, found_stations: None, radio_idx: 0, ..a },
            Step::Stay,
        ),
{
    lemma_key_names();
}

/// `h` leads from a playlist back to the playlists, in the files up a folder,
/// and in the search from the releases to the results; `l` goes to the
/// releases.
pub proof fn law_keys_that_go_to_the_side(a: App)
    ensures
        a.screen == Screen::PlaylistTracks ==> a.step("h"@) == (
            App { status: None, screen: Screen::Playlists, scroll: 0, ..a },
            Step::Stay,
        ),
        a.screen == Screen::Files ==> a.step("h"@) == (App { status: None, ..a }, Step::FolderUp),
        a.screen == Screen::Search && a.releases is Some ==> {
            let l = a.releases->0;
            &&& a.step("h"@) == (
                App { status: None, releases: Some(crate::releases::Releases { focus: false, ..l }), ..a },
                Step::Stay,
            )
            &&& a.step("l"@) == (
                App { status: None, releases: Some(crate::releases::Releases { focus: true, ..l }), ..a },
                Step::Stay,
            )
        },
        a.screen != Screen::PlaylistTracks && a.screen != Screen::Files && !(a.screen == Screen::Search && a.releases is Some)
            ==> a.step("h"@) == (
            App { status: None, ..a },
            Step::Stay,
        ),
        !(a.screen == Screen::Search && a.releases is Some) ==> a.step("l"@) == (App { status: None, ..a }, Step::Stay),
{
    lemma_key_names();
}

/// The keys that move the cursor, each under two names where it has two.
pub proof fn law_keys_that_move_the_cursor(a: App)
    ensures
        ({
            let b = App { status: None, ..a };
            &&& a.step("j"@) == (b.down(), Step::Stay)
            &&& a.step("DOWN"@) == (b.down(), Step::Stay)
            &&& a.step("k"@) == (b.up(), Step::Stay)
            &&& a.step("UP"@) == (b.up(), Step::Stay)
            &&& a.step("g"@) == (b.top(), Step::Stay)
            &&& a.step("HOME"@) == (b.top(), Step::Stay)
            &&& a.step("G"@) == (b.bottom(), Step::Stay)
            &&& a.step("END"@) == (b.bottom(), Step::Stay)
            &&& a.step("PgDOWN"@) == (b.down_by(10), Step::Stay)
            &&& a.step("PgUP"@) == (b.up_by(10), Step::Stay)
        }),
{
    lemma_key_names();
}

/// The keys that work on the row of the cursor.
pub proof fn law_keys_that_work_on_a_row(a: App)
    ensures
        a.step("ENTER"@) == (App { status: None, ..a }, Step::Activate),
        a.step("a"@).0 == (App { status: None, ..a }),
        a.screen == Screen::Files ==> a.step("a"@).1 == Step::Append,
        a.screen == Screen::Radio ==> a.step("a"@).1 == Step::Keep,
        a.screen != Screen::Files && a.screen != Screen::Radio ==> a.step("a"@).1 == Step::Enqueue,
        a.screen == Screen::Radio ==> a.step("D"@) == (App { status: None, ..a }, Step::Remove),
        a.screen != Screen::Radio ==> a.step("D"@) == (App { status: None, ..a }, Step::Stay),
        a.screen == Screen::Radio ==> a.step("c"@) == (App { status: None, ..a }, Step::PromptCountry),
        a.screen != Screen::Radio ==> a.step("c"@) == (App { status: None, ..a }, Step::Stay),
        a.step("R"@) == (App { status: None, ..a }, Step::Poll),
        a.screen != Screen::Help ==> a.step("q"@) == (App { status: None, ..a }, Step::Quit),
        a.mpv is None ==> a.step("x"@) == (App { status: None, ..a }, Step::Stay),
        a.mpv is Some ==> a.step("x"@) == (App { status: None, mpv: None, ..a }, Step::StopMpv),
{
    lemma_key_names();
}

/// The playback keys, while there is no mpv.
pub proof fn law_keys_that_drive_spotify(a: App)
    requires
        a.mpv is None,
    ensures
        ({
            let b = App { status: None, ..a };
            &&& a.step(" "@) == (b, Step::Toggle)
            &&& a.step("SPACE"@) == (b, Step::Toggle)
            &&& a.step("n"@) == (b, Step::Next)
            &&& a.step("b"@) == (b, Step::Previous)
            &&& a.step("+"@) == (b, Step::Volume(5))
            &&& a.step("-"@) == (b, Step::Volume((-5) as i32))
            &&& a.step("]"@) == (b, Step::Seek(5_000))
            &&& a.step("["@) == (b, Step::Seek((-5_000) as i64))
            &&& a.step("s"@) == (b, Step::Shuffle)
            &&& a.step("r"@) == (b, Step::Repeat)
        }),
{
    lemma_key_names();
}

/// The playback keys, while mpv is there: the same, told to mpv.
pub proof fn law_keys_that_drive_mpv(a: App)
    requires
        a.mpv is Some,
    ensures
        ({
            let b = App { status: None, ..a };
            &&& a.step(" "@) == (b, Step::Local(LocalKey::Pause))
            &&& a.step("SPACE"@) == (b, Step::Local(LocalKey::Pause))
            &&& a.step("n"@) == (b, Step::Local(LocalKey::Next))
            &&& a.step("b"@) == (b, Step::Local(LocalKey::Previous))
            &&& a.step("+"@) == (b, Step::Local(LocalKey::Volume(5)))
            &&& a.step("-"@) == (b, Step::Local(LocalKey::Volume((-5) as i64)))
            &&& a.step("]"@) == (b, Step::Local(LocalKey::Seek(5)))
            &&& a.step("["@) == (b, Step::Local(LocalKey::Seek((-5) as i64)))
            &&& a.step("s"@) == (b, Step::Local(LocalKey::Shuffle))
            &&& a.step("r"@) == (b, Step::Local(LocalKey::Repeat))
        }),
{
    lemma_key_names();
}

/// In the help `q` and `Q` lead back to the search.
pub proof fn law_keys_that_leave_the_help(a: App)
    requires
        a.screen == Screen::Help,
    ensures
        a.step("q"@) == (App { status: None, screen: Screen::Search, ..a }, Step::Stay),
        a.step("Q"@) == (App { status: None, screen: Screen::Search, ..a }, Step::Stay),
{
}

/// A key that is none of these only takes the message away.
pub proof fn law_no_other_key_does_anything(a: App, key: Seq<char>)
    requires
        key != "q"@ && key != "Q"@ && key != "?"@ && key != "/"@ && key != "P"@ && key != "L"@ && key != "d"@,
        key != "h"@ && key != "l"@ && key != "j"@ && key != "DOWN"@ && key != "k"@ && key != "UP"@ && key != "g"@,
        key != "HOME"@ && key != "G"@ && key != "END"@ && key != "PgDOWN"@ && key != "PgUP"@ && key != "ENTER"@,
        key != "a"@ && key != " "@ && key != "SPACE"@ && key != "n"@ && key != "b"@ && key != "+"@ && key != "-"@,
        key != "]"@ && key != "["@ && key != "s"@ && key != "r"@ && key != "R"@ && key != "f"@ && key != "t"@,
        key != "x"@ && key != "c"@ && key != "D"@,
    ensures
        a.step(key) == (App { status: None, ..a }, Step::Stay),
{
}

}
