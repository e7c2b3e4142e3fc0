//! The state of the screen, and the list on it.
//!
//! Whatever needs the network or the terminal comes out of a key as a value: a
//! [`crate::keys::Step`] or a [`crate::command::Command`]. The program carries it
//! out and hands the outcome back.

use vstd::prelude::*;
use crate::local::{Entry, Mpv};
use crate::playback::{Artist, Device, Playback, Playlist, Track};
use crate::radio::Station;
use crate::releases::Releases;
use crate::text::concat;

verus! {

#[derive(Debug, Clone, Copy, PartialEq, Eq, Structural)]
pub enum Screen {
    Search,
    Playlists,
    PlaylistTracks,
    Saved,
    Queue,
    Devices,
    /// Folders and music files on this computer.
    Files,
    /// The stations that are kept, or those that were found.
    Radio,
    Help,
}

/// One row of the search results. Artists and tracks stand in one list,
/// artists first.
#[derive(Debug, Clone)]
pub enum SearchRow {
    Artist(Artist),
    Track(Track),
}

pub struct App {
    pub user: String,
    pub playback: Option<Playback>,
    pub cols: u16,
    pub rows: u16,
    pub screen: Screen,
    /// The first line of the list that is on the screen.
    pub scroll: usize,
    /// The message in the footer and its color.
    pub status: Option<(String, u8)>,
    pub search_query: String,
    pub search_results: Vec<SearchRow>,
    pub search_idx: usize,
    /// An artist's releases, beside the search results.
    pub releases: Option<Releases>,
    /// The first line of the releases that is on the screen.
    pub side_scroll: usize,
    pub playlists: Vec<Playlist>,
    pub playlists_idx: usize,
    pub playlist_tracks: Vec<Track>,
    /// The place of each of these tracks in the playlist, which may hold other
    /// items too.
    pub playlist_places: Vec<usize>,
    pub playlist_tracks_idx: usize,
    pub open_playlist: Option<Playlist>,
    pub saved_tracks: Vec<Track>,
    pub saved_idx: usize,
    pub queue: Vec<Track>,
    pub queue_idx: usize,
    pub devices: Vec<Device>,
    pub devices_idx: usize,
    /// The preferred device, by name or id. Empty = no preference.
    pub default_device: String,
    /// The item whose cover is on the screen.
    pub cover_track_id: Option<String>,
    /// The name of the folder in Files. Absent until Files is first shown.
    pub folder: Option<String>,
    pub files: Vec<Entry>,
    pub files_idx: usize,
    /// The stations that are kept.
    pub kept: Vec<Station>,
    /// The stations that were last searched for.
    pub found_stations: Option<Vec<Station>>,
    pub radio_idx: usize,
    /// What plays local files or a station.
    pub mpv: Option<Mpv>,
    /// The id of tune's own device. Empty = tune is none.
    pub own_device: String,
}

/// Whether a cursor stands on a row of a list of `n`, or at the start.
pub open spec fn in_range(i: usize, n: nat) -> bool {
    i == 0 || i < n
}

impl App {
    /// The stations in the list: those found, or else those kept.
    pub open spec fn stations(self) -> Seq<Station> {
        match self.found_stations {
            Some(v) => v@,
            None => self.kept@,
        }
    }

    /// What every step keeps: the cursors of the lists that are not replaced
    /// under them stand on a row, and what plays tells a time that there is.
    pub open spec fn wf(self) -> bool {
        &&& in_range(self.search_idx, self.search_results@.len())
        &&& in_range(self.playlists_idx, self.playlists@.len())
        &&& in_range(self.playlist_tracks_idx, self.playlist_tracks@.len())
        &&& self.playlist_places@.len() == self.playlist_tracks@.len()
        &&& in_range(self.saved_idx, self.saved_tracks@.len())
        &&& in_range(self.files_idx, self.files@.len())
        &&& in_range(self.radio_idx, self.stations().len())
        &&& match self.mpv {
            Some(m) => m.wf(),
            None => true,
        }
        &&& match self.releases {
            Some(l) => l.wf(),
            None => true,
        }
        &&& match self.playback {
            Some(p) => p.wf(),
            None => true,
        }
    }

    /// tune as it starts: the search, with nothing loaded.
    pub fn new(user: String, cols: u16, rows: u16, default_device: String) -> (r: App)
        ensures
            r.wf(),
            r.user == user,
            r.cols == cols,
            r.rows == rows,
            r.default_device == default_device,
            r.playback is None,
            r.screen == Screen::Search,
            r.scroll == 0,
            r.status is None,
            r.search_query@.len() == 0,
            r.search_results@.len() == 0,
            r.search_idx == 0,
            r.releases is None,
            r.side_scroll == 0,
            r.playlists@.len() == 0,
            r.playlists_idx == 0,
            r.playlist_tracks@.len() == 0,
            r.playlist_places@.len() == 0,
            r.playlist_tracks_idx == 0,
            r.open_playlist is None,
            r.saved_tracks@.len() == 0,
            r.saved_idx == 0,
            r.queue@.len() == 0,
            r.queue_idx == 0,
            r.devices@.len() == 0,
            r.devices_idx == 0,
            r.cover_track_id is None,
            r.folder is None,
            r.files@.len() == 0,
            r.files_idx == 0,
            r.kept@.len() == 0,
            r.found_stations is None,
            r.radio_idx == 0,
            r.mpv is None,
            r.own_device@.len() == 0,
    {
        App {
            user,
            playback: None,
            cols,
            rows,
            screen: Screen::Search,
            scroll: 0,
            status: None,
            search_query: String::new(),
            search_results: Vec::new(),
            search_idx: 0,
            releases: None,
            side_scroll: 0,
            playlists: Vec::new(),
            playlists_idx: 0,
            playlist_tracks: Vec::new(),
            playlist_places: Vec::new(),
            playlist_tracks_idx: 0,
            open_playlist: None,
            saved_tracks: Vec::new(),
            saved_idx: 0,
            queue: Vec::new(),
            queue_idx: 0,
            devices: Vec::new(),
            devices_idx: 0,
            default_device,
            cover_track_id: None,
            folder: None,
            files: Vec::new(),
            files_idx: 0,
            kept: Vec::new(),
            found_stations: None,
            radio_idx: 0,
            mpv: None,
            own_device: String::new(),
        }
    }

    // ---- The list on the screen -------------------------------------

    /// Whether the cursor is in the releases beside the search results.
    pub open spec fn beside(self) -> bool {
        self.screen == Screen::Search && match self.releases {
            Some(l) => l.focus,
            None => false,
        }
    }

    /// Where the cursor stands in the list of the screen itself.
    pub open spec fn main_idx(self) -> usize {
        match self.screen {
            Screen::Search => self.search_idx,
            Screen::Playlists => self.playlists_idx,
            Screen::PlaylistTracks => self.playlist_tracks_idx,
            Screen::Saved => self.saved_idx,
            Screen::Queue => self.queue_idx,
            Screen::Devices => self.devices_idx,
            Screen::Files => self.files_idx,
            Screen::Radio => self.radio_idx,
            Screen::Help => 0,
        }
    }

    /// How many rows the list of the screen itself has; the help has none.
    pub open spec fn main_len(self) -> Option<nat> {
        match self.screen {
            Screen::Search => Some(self.search_results@.len()),
            Screen::Playlists => Some(self.playlists@.len()),
            Screen::PlaylistTracks => Some(self.playlist_tracks@.len()),
            Screen::Saved => Some(self.saved_tracks@.len()),
            Screen::Queue => Some(self.queue@.len()),
            Screen::Devices => Some(self.devices@.len()),
            Screen::Files => Some(self.files@.len()),
            Screen::Radio => Some(self.stations().len()),
            Screen::Help => None,
        }
    }

    /// Where the cursor stands in the list it is in.
    pub open spec fn idx(self) -> usize {
        if self.beside() {
            (self.releases->0).idx
        } else {
            self.main_idx()
        }
    }

    /// How many rows the list has that the cursor is in.
    pub open spec fn list_len(self) -> Option<nat> {
        if self.beside() {
            Some((self.releases->0).rows@.len())
        } else {
            self.main_len()
        }
    }

    /// With the cursor at `i` of the list it is in.
    pub open spec fn with_idx(self, i: usize) -> App {
        if self.beside() {
            App { releases: Some(Releases { idx: i, ..self.releases->0 }), ..self }
        } else {
            match self.screen {
                Screen::Search => App { search_idx: i, ..self },
                Screen::Playlists => App { playlists_idx: i, ..self },
                Screen::PlaylistTracks => App { playlist_tracks_idx: i, ..self },
                Screen::Saved => App { saved_idx: i, ..self },
                Screen::Queue => App { queue_idx: i, ..self },
                Screen::Devices => App { devices_idx: i, ..self },
                Screen::Files => App { files_idx: i, ..self },
                Screen::Radio => App { radio_idx: i, ..self },
                Screen::Help => self,
            }
        }
    }

    pub(crate) fn is_beside(&self) -> (r: bool)
        ensures
            r == self.beside(),
    {
        match &self.releases {
            Some(l) => self.screen == Screen::Search && l.focus,
            None => false,
        }
    }

    fn station_count(&self) -> (r: usize)
        ensures
            r == self.stations().len(),
    {
        match &self.found_stations {
            Some(v) => v.len(),
            None => self.kept.len(),
        }
    }

    /// The cursor and the rows of the list of the screen itself.
    pub fn main_indices(&self) -> (r: (usize, Option<usize>))
        ensures
            r.0 == self.main_idx(),
            match r.1 {
                Some(n) => self.main_len() == Some(n as nat),
                None => self.main_len() is None,
            },
    {
        match self.screen {
            Screen::Search => (self.search_idx, Some(self.search_results.len())),
            Screen::Playlists => (self.playlists_idx, Some(self.playlists.len())),
            Screen::PlaylistTracks => (self.playlist_tracks_idx, Some(self.playlist_tracks.len())),
            Screen::Saved => (self.saved_idx, Some(self.saved_tracks.len())),
            Screen::Queue => (self.queue_idx, Some(self.queue.len())),
            Screen::Devices => (self.devices_idx, Some(self.devices.len())),
            Screen::Files => (self.files_idx, Some(self.files.len())),
            Screen::Radio => (self.radio_idx, Some(self.station_count())),
            Screen::Help => (0, None),
        }
    }

    pub fn current_list_indices(&self) -> (r: (usize, Option<usize>))
        ensures
            r.0 == self.idx(),
            match r.1 {
                Some(n) => self.list_len() == Some(n as nat),
                None => self.list_len() is None,
            },
    {
        if let Some(l) = &self.releases {
            if self.screen == Screen::Search && l.focus {
                return (l.idx, Some(l.rows.len()));
            }
        }
        self.main_indices()
    }

    pub fn set_list_idx(&mut self, i: usize)
        ensures
            *final(self) == old(self).with_idx(i),
    {
        if self.is_beside() {
            if let Some(l) = &mut self.releases {
                l.idx = i;
            }
            return;
        }
        match self.screen {
            Screen::Search => {
                self.search_idx = i;
            },
            Screen::Playlists => {
                self.playlists_idx = i;
            },
            Screen::PlaylistTracks => {
                self.playlist_tracks_idx = i;
            },
            Screen::Saved => {
                self.saved_idx = i;
            },
            Screen::Queue => {
                self.queue_idx = i;
            },
            Screen::Devices => {
                self.devices_idx = i;
            },
            Screen::Files => {
                self.files_idx = i;
            },
            Screen::Radio => {
                self.radio_idx = i;
            },
            Screen::Help => {},
        }
    }

    /// One row down, where there is one.
    pub open spec fn down(self) -> App {
        match self.list_len() {
            Some(n) => if self.idx() + 1 < n {
                self.with_idx((self.idx() + 1) as usize)
            } else {
                self
            },
            None => self,
        }
    }

    /// One row up, where there is one.
    pub open spec fn up(self) -> App {
        if self.idx() > 0 {
            self.with_idx((self.idx() - 1) as usize)
        } else {
            self
        }
    }

    /// The first row.
    pub open spec fn top(self) -> App {
        self.with_idx(0)
    }

    /// The last row, where there is one.
    pub open spec fn bottom(self) -> App {
        match self.list_len() {
            Some(n) => if n > 0 {
                self.with_idx((n - 1) as usize)
            } else {
                self
            },
            None => self,
        }
    }

    /// `n` times one row down.
    pub open spec fn down_by(self, n: nat) -> App
        decreases n,
    {
        if n == 0 {
            self
        } else {
            self.down_by((n - 1) as nat).down()
        }
    }

    /// `n` times one row up.
    pub open spec fn up_by(self, n: nat) -> App
        decreases n,
    {
        if n == 0 {
            self
        } else {
            self.up_by((n - 1) as nat).up()
        }
    }

    pub fn list_down(&mut self)
        ensures
            *final(self) == old(self).down(),
    {
        let (idx, len) = self.current_list_indices();
        if let Some(n) = len {
            if n > 0 && idx < n - 1 {
                self.set_list_idx(idx + 1);
            }
        }
    }

    pub fn list_up(&mut self)
        ensures
            *final(self) == old(self).up(),
    {
        let (idx, _) = self.current_list_indices();
        if idx > 0 {
            self.set_list_idx(idx - 1);
        }
    }

    pub fn list_top(&mut self)
        ensures
            *final(self) == old(self).top(),
    {
        self.set_list_idx(0);
    }

    pub fn list_bottom(&mut self)
        ensures
            *final(self) == old(self).bottom(),
    {
        let (_, len) = self.current_list_indices();
        if let Some(n) = len {
            if n > 0 {
                self.set_list_idx(n - 1);
            }
        }
    }

    pub(crate) fn page_down(&mut self)
        ensures
            *final(self) == old(self).down_by(PAGE as nat),
    {
        let mut i: usize = 0;
        while i < PAGE
            invariant
                i <= PAGE,
                *self == old(self).down_by(i as nat),
            decreases PAGE - i,
        {
            self.list_down();
            i = i + 1;
        }
    }

    pub(crate) fn page_up(&mut self)
        ensures
            *final(self) == old(self).up_by(PAGE as nat),
    {
        let mut i: usize = 0;
        while i < PAGE
            invariant
                i <= PAGE,
                *self == old(self).up_by(i as nat),
            decreases PAGE - i,
        {
            self.list_up();
            i = i + 1;
        }
    }
}

/// How many rows a page is.
pub const PAGE: usize = 10;

pub proof fn lemma_list_len_fits(a: App)
    ensures
        match a.list_len() {
            Some(n) => n <= usize::MAX,
            None => true,
        },
{
    assert((a.releases->0).rows@.len() == (a.releases->0).rows.len());
    assert(a.search_results@.len() == a.search_results.len());
    assert(a.playlists@.len() == a.playlists.len());
    assert(a.playlist_tracks@.len() == a.playlist_tracks.len());
    assert(a.saved_tracks@.len() == a.saved_tracks.len());
    assert(a.queue@.len() == a.queue.len());
    assert(a.devices@.len() == a.devices.len());
    assert(a.files@.len() == a.files.len());
    assert(a.kept@.len() == a.kept.len());
    assert((a.found_stations->0)@.len() == (a.found_stations->0).len());
}

/// A page down moves the cursor that far, or to the last row; a cursor that
/// stands on no row stays.
pub proof fn law_pages_down(a: App, n: nat)
    requires
        a.list_len() is Some,
    ensures
        a.down_by(n) == (if a.idx() >= a.list_len()->0 {
            a
        } else if a.idx() + n < a.list_len()->0 {
            a.with_idx((a.idx() + n) as usize)
        } else {
            a.with_idx((a.list_len()->0 - 1) as usize)
        }),
        a.down_by(n).list_len() == a.list_len(),
    decreases n,
{
    lemma_list_len_fits(a);
    if n > 0 {
        law_pages_down(a, (n - 1) as nat);
    }
}

/// A page up moves the cursor that far, or to the first row.
pub proof fn law_pages_up(a: App, n: nat)
    ensures
        a.up_by(n) == (if a.idx() >= n {
            a.with_idx((a.idx() - n) as usize)
        } else {
            a.with_idx(0)
        }),
    decreases n,
{
    if n > 0 {
        law_pages_up(a, (n - 1) as nat);
    }
}

/// From any row but the last, a row down and a row up again leads back.
pub proof fn law_down_then_up_leads_back(a: App)
    requires
        a.down() != a,
    ensures
        a.down().up() == a,
{
    lemma_list_len_fits(a);
}

// ---- Status ---------------------------------------------------------

/// Whether the footer shows `msg` in `color`.
pub open spec fn shows(status: Option<(String, u8)>, msg: Seq<char>, color: u8) -> bool {
    match status {
        Some((m, c)) => m@ == " "@ + msg && c == color,
        None => false,
    }
}

impl App {
    pub fn set_status(&mut self, msg: &str, color: u8)
        ensures
            shows(final(self).status, msg@, color),
            *final(self) == (App { status: final(self).status, ..*old(self) }),
            old(self).wf() ==> final(self).wf(),
    {
        self.status = Some((concat(" ", msg), color));
    }

    pub fn clear_status(&mut self)
        ensures
            *final(self) == (App { status: None, ..*old(self) }),
            old(self).wf() ==> final(self).wf(),
    {
        self.status = None;
    }
}

// ---- Size -----------------------------------------------------------

impl App {
    /// Takes the size of the terminal, and says whether it changed. Lists
    /// start from their first line then, and the cover is drawn again.
    pub fn handle_resize_if_needed(&mut self, cols: u16, rows: u16) -> (r: bool)
        ensures
            r == (cols != old(self).cols || rows != old(self).rows),
            !r ==> *final(self) == *old(self),
            r ==> *final(self) == (App {
                cols,
                rows,
                scroll: 0,
                side_scroll: 0,
                cover_track_id: None,
                ..*old(self)
            }),
            old(self).wf() ==> final(self).wf(),
    {
        if cols == self.cols && rows == self.rows {
            return false;
        }
        self.cols = cols;
        self.rows = rows;
        self.scroll = 0;
        self.side_scroll = 0;
        self.cover_track_id = None;
        true
    }
}

// ---- Laws of the lists ----------------------------------------------

/// Each screen has a list and a cursor of its own.
pub proof fn law_each_screen_has_its_list(a: App)
    ensures
        a.screen == Screen::Search ==> a.main_idx() == a.search_idx && a.main_len() == Some(a.search_results@.len()),
        a.screen == Screen::Playlists ==> a.main_idx() == a.playlists_idx && a.main_len() == Some(a.playlists@.len()),
        a.screen == Screen::PlaylistTracks ==> a.main_idx() == a.playlist_tracks_idx && a.main_len() == Some(
            a.playlist_tracks@.len(),
        ),
        a.screen == Screen::Saved ==> a.main_idx() == a.saved_idx && a.main_len() == Some(a.saved_tracks@.len()),
        a.screen == Screen::Queue ==> a.main_idx() == a.queue_idx && a.main_len() == Some(a.queue@.len()),
        a.screen == Screen::Devices ==> a.main_idx() == a.devices_idx && a.main_len() == Some(a.devices@.len()),
        a.screen == Screen::Files ==> a.main_idx() == a.files_idx && a.main_len() == Some(a.files@.len()),
        a.screen == Screen::Radio && a.found_stations is None ==> a.main_idx() == a.radio_idx && a.main_len() == Some(
            a.kept@.len(),
        ),
        a.screen == Screen::Radio && a.found_stations is Some ==> a.main_idx() == a.radio_idx && a.main_len() == Some(
            (a.found_stations->0)@.len(),
        ),
        a.screen == Screen::Help ==> a.main_len() is None,
        a.found_stations is None ==> a.stations() == a.kept@,
        a.found_stations is Some ==> a.stations() == (a.found_stations->0)@,
{
}

/// The keys work on the releases while these stand beside the search results
/// and the cursor was moved there, and else on the list of the screen.
pub proof fn law_the_cursor_is_in_one_list(a: App)
    ensures
        a.beside() <==> a.screen == Screen::Search && a.releases is Some && (a.releases->0).focus,
        a.beside() ==> a.idx() == (a.releases->0).idx && a.list_len() == Some((a.releases->0).rows@.len()),
        !a.beside() ==> a.idx() == a.main_idx() && a.list_len() == a.main_len(),
{
}

/// The cursor is put where it is asked to go, in the list that it is in, and
/// nothing else changes.
pub proof fn law_the_cursor_goes_where_it_is_put(a: App, i: usize)
    ensures
        a.list_len() is Some ==> a.with_idx(i).idx() == i,
        a.with_idx(i).list_len() == a.list_len(),
        a.list_len() is None ==> a.with_idx(i) == a,
        a.beside() ==> a.with_idx(i) == (App { releases: Some(Releases { idx: i, ..a.releases->0 }), ..a }),
        !a.beside() ==> match a.screen {
            Screen::Search => a.with_idx(i) == (App { search_idx: i, ..a }),
            Screen::Playlists => a.with_idx(i) == (App { playlists_idx: i, ..a }),
            Screen::PlaylistTracks => a.with_idx(i) == (App { playlist_tracks_idx: i, ..a }),
            Screen::Saved => a.with_idx(i) == (App { saved_idx: i, ..a }),
            Screen::Queue => a.with_idx(i) == (App { queue_idx: i, ..a }),
            Screen::Devices => a.with_idx(i) == (App { devices_idx: i, ..a }),
            Screen::Files => a.with_idx(i) == (App { files_idx: i, ..a }),
            Screen::Radio => a.with_idx(i) == (App { radio_idx: i, ..a }),
            Screen::Help => a.with_idx(i) == a,
        },
{
}

/// Down and up move by one row and stop at the ends; the top is the first row
/// and the bottom the last.
pub proof fn law_moves_by_one_row(a: App)
    requires
        a.list_len() is Some,
    ensures
        a.idx() + 1 < a.list_len()->0 ==> a.down().idx() == a.idx() + 1,
        a.idx() + 1 >= a.list_len()->0 ==> a.down() == a,
        a.idx() > 0 ==> a.up().idx() == a.idx() - 1,
        a.idx() == 0 ==> a.up() == a,
        a.top().idx() == 0,
        a.list_len()->0 > 0 ==> a.bottom().idx() == a.list_len()->0 - 1,
        a.list_len()->0 == 0 ==> a.bottom() == a,
        a.down() == a.with_idx(a.down().idx()),
        a.up() == a.with_idx(a.up().idx()),
        a.bottom() == a.with_idx(a.bottom().idx()),
        PAGE == 10,
{
    lemma_list_len_fits(a);
}

/// A sound state has every cursor on a row of its list, or at its start.
pub proof fn law_sound_cursors(a: App)
    requires
        a.wf(),
    ensures
        a.search_results@.len() > 0 ==> a.search_idx < a.search_results@.len(),
        a.playlists@.len() > 0 ==> a.playlists_idx < a.playlists@.len(),
        a.playlist_tracks@.len() > 0 ==> a.playlist_tracks_idx < a.playlist_tracks@.len(),
        a.saved_tracks@.len() > 0 ==> a.saved_idx < a.saved_tracks@.len(),
        a.files@.len() > 0 ==> a.files_idx < a.files@.len(),
        a.stations().len() > 0 ==> a.radio_idx < a.stations().len(),
        a.playlist_places@.len() == a.playlist_tracks@.len(),
        a.releases is Some ==> (a.releases->0).idx < (a.releases->0).rows@.len(),
        a.mpv is Some ==> 0 <= (a.mpv->0).volume <= 100,
        a.playback is Some && (a.playback->0).progress_ns is Some ==> -9_223_372_036_854_775_807 * 1_000_000 <= (
        a.playback->0).progress_ns->0 <= 9_223_372_036_854_775_807 * 1_000_000,
{
}

/// A message stands in the footer behind a blank, in its color.
pub proof fn law_messages_are_shown_as_they_are(status: Option<(String, u8)>, msg: Seq<char>, color: u8)
    ensures
        shows(status, msg, color) <==> status is Some && (status->0).0@ == seq![' '] + msg && (status->0).1 == color,
{
    reveal_strlit(" ");
    assert(" "@ =~= seq![' ']);
}

}
