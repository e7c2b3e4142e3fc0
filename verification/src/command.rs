//! What Spotify is asked to do: by ENTER, and by the playback keys.

use vstd::prelude::*;
use crate::app::{shows, App, Screen, SearchRow};
use crate::device::{copy_id, playing_on};
use crate::load::{placed, Loaded};
use crate::local::clamped;
use crate::playback::{
    signed_total_ms, signed_total_ms_of, whole_ms, whole_ms_of, Artist, Device, Item, Playback, Playlist, RepeatState,
    Track,
};
use crate::radio::Station;
use crate::releases::{newest_first, release_rows, Release, ReleaseRow, Releases};
use crate::text::{concat, decimal, decimal_of};
use crate::theme::{AMBER, ERR, OK};

verus! {

// ---- Commands -------------------------------------------------------

/// Something that Spotify is asked to do. A device that is absent is left to
/// Spotify.
#[derive(Debug)]
pub enum Command {
    Pause { device: String },
    Resume { device: String },
    /// Starts playback on a device when nothing is active.
    Wake { device: String },
    Transfer { device: String, name: String },
    PlayTrack { track: String, device: String },
    PlayPlaylist { playlist: String, index: usize, device: String },
    /// Plays the artist's radio.
    PlayArtist { artist: String, name: String, device: String },
    PlayAlbum { album: String, name: String, device: String },
    Enqueue { track: String, device: Option<String> },
    Next { device: Option<String> },
    Previous { device: Option<String> },
    Volume { percent: u8, device: Option<String> },
    Seek { ms: i64, device: Option<String> },
    Shuffle { on: bool, device: Option<String> },
    Repeat { mode: RepeatState, device: Option<String> },
}

/// What is said after a command that went well; nothing for most.
pub open spec fn said_done(c: Command) -> Option<Seq<char>> {
    match c {
        Command::PlayTrack { .. } => Some("Playing"@),
        Command::PlayPlaylist { index, .. } => Some("Playing from #"@ + decimal((index + 1) as nat)),
        Command::PlayArtist { name, .. } => Some("Playing "@ + name@),
        Command::PlayAlbum { name, .. } => Some("Playing "@ + name@),
        Command::Transfer { name, .. } => Some("Transferred to "@ + name@),
        Command::Enqueue { .. } => Some("Added to queue"@),
        _ => None,
    }
}

/// What is said after a command that failed, before Spotify's own message;
/// nothing for most.
pub open spec fn said_failed(c: Command) -> Option<Seq<char>> {
    match c {
        Command::PlayTrack { .. } => Some("Play failed: "@),
        Command::PlayPlaylist { .. } => Some("Play failed: "@),
        Command::PlayArtist { .. } => Some("Play failed: "@),
        Command::PlayAlbum { .. } => Some("Play failed: "@),
        Command::Transfer { .. } => Some("Transfer failed: "@),
        Command::Enqueue { .. } => Some("Queue failed: "@),
        Command::Pause { .. } => Some("Toggle failed: "@),
        Command::Resume { .. } => Some("Toggle failed: "@),
        Command::Wake { .. } => Some("Toggle failed: "@),
        _ => None,
    }
}

/// Whether a status is what a command that ended like this leaves.
pub open spec fn reported(
    before: Option<(String, u8)>,
    after: Option<(String, u8)>,
    c: Command,
    failure: Option<String>,
) -> bool {
    match failure {
        None => match said_done(c) {
            Some(m) => shows(after, m, OK),
            None => after == before,
        },
        Some(e) => match said_failed(c) {
            Some(m) => shows(after, m + e@, ERR),
            None => after == before,
        },
    }
}

impl App {
    /// Says how a command ended: well, or with Spotify's message.
    pub fn report(&mut self, c: &Command, failure: &Option<String>)
        requires
            match c {
                Command::PlayPlaylist { index, .. } => *index < usize::MAX,
                _ => true,
            },
        ensures
            reported(old(self).status, final(self).status, *c, *failure),
            *final(self) == (App { status: final(self).status, ..*old(self) }),
            old(self).wf() ==> final(self).wf(),
    {
        match failure {
            None => match c {
                Command::PlayTrack { .. } => {
                    self.set_status("Playing", OK);
                },
                Command::PlayPlaylist { index, .. } => {
                    self.set_status(&concat("Playing from #", &decimal_of((*index + 1) as u64)), OK);
                },
                Command::PlayArtist { name, .. } | Command::PlayAlbum { name, .. } => {
                    self.set_status(&concat("Playing ", name), OK);
                },
                Command::Transfer { name, .. } => {
                    self.set_status(&concat("Transferred to ", name), OK);
                },
                Command::Enqueue { .. } => {
                    self.set_status("Added to queue", OK);
                },
                _ => {},
            },
            Some(e) => match c {
                Command::PlayTrack { .. }
                | Command::PlayPlaylist { .. }
                | Command::PlayArtist { .. }
                | Command::PlayAlbum { .. } => {
                    self.set_status(&concat("Play failed: ", e), ERR);
                },
                Command::Transfer { .. } => {
                    self.set_status(&concat("Transfer failed: ", e), ERR);
                },
                Command::Enqueue { .. } => {
                    self.set_status(&concat("Queue failed: ", e), ERR);
                },
                Command::Pause { .. } | Command::Resume { .. } | Command::Wake { .. } => {
                    self.set_status(&concat("Toggle failed: ", e), ERR);
                },
                _ => {},
            },
        }
    }
}

// ---- What is under the cursor ---------------------------------------

impl App {
    /// The track under the cursor.
    pub open spec fn track_here(self) -> Option<Track> {
        let i = self.idx() as int;
        match self.screen {
            Screen::Search => if !self.beside() && i < self.search_results@.len() {
                match self.search_results@[i] {
                    SearchRow::Track(t) => Some(t),
                    SearchRow::Artist(_) => None,
                }
            } else {
                None
            },
            Screen::PlaylistTracks => if i < self.playlist_tracks@.len() {
                Some(self.playlist_tracks@[i])
            } else {
                None
            },
            Screen::Saved => if i < self.saved_tracks@.len() {
                Some(self.saved_tracks@[i])
            } else {
                None
            },
            Screen::Queue => if i < self.queue@.len() {
                Some(self.queue@[i])
            } else {
                None
            },
            _ => None,
        }
    }

    /// The id of the track under the cursor.
    pub open spec fn track_id_here(self) -> Option<String> {
        match self.track_here() {
            Some(t) => t.id,
            None => None,
        }
    }

    pub fn current_track_uri(&self) -> (r: Option<String>)
        ensures
            r == self.track_id_here(),
    {
        match self.screen {
            Screen::Search => if !self.is_beside() && self.search_idx < self.search_results.len() {
                match &self.search_results[self.search_idx] {
                    SearchRow::Track(t) => copy_id(&t.id),
                    SearchRow::Artist(_) => None,
                }
            } else {
                None
            },
            Screen::PlaylistTracks => if self.playlist_tracks_idx < self.playlist_tracks.len() {
                copy_id(&self.playlist_tracks[self.playlist_tracks_idx].id)
            } else {
                None
            },
            Screen::Saved => if self.saved_idx < self.saved_tracks.len() {
                copy_id(&self.saved_tracks[self.saved_idx].id)
            } else {
                None
            },
            Screen::Queue => if self.queue_idx < self.queue.len() {
                copy_id(&self.queue[self.queue_idx].id)
            } else {
                None
            },
            _ => None,
        }
    }
}

/// What is said when there is no device to play on.
pub open spec fn no_devices() -> Seq<char> {
    "No Spotify Connect devices online — open Spotify on a phone or desktop first."@
}

// ---- ENTER ----------------------------------------------------------

/// What ENTER comes to.
#[derive(Debug)]
pub enum Activation {
    /// Nothing to send. What plays is asked for again.
    Nothing,
    /// The tracks of this playlist are loaded. What plays is asked for again.
    Open(Playlist),
    /// The releases of this artist are loaded, and nothing is sent. What plays
    /// is asked for again.
    Releases(Artist),
    /// The command is sent and reported. What plays is asked for again.
    Send(Command),
    /// This row of the files is a folder, and it is opened. What plays is
    /// asked for again.
    Folder(usize),
    /// This row of the files is played, and the rest of its folder after it:
    /// [`App::files_from`]. What plays is asked for again.
    File(usize),
    /// The station is played. What plays is asked for again.
    Station(Station),
    /// There is no device to play on, and that was said.
    Stop,
}

/// Whether what plays is asked for again right after a command: it is not
/// after one that only changes the volume or the queue.
pub fn polls_after(c: &Command) -> (r: bool)
    ensures
        r == !(c is Volume || c is Enqueue),
{
    match c {
        Command::Volume { .. } | Command::Enqueue { .. } => false,
        _ => true,
    }
}

impl Activation {
    /// Whether what plays is asked for again right after ENTER: it is not
    /// where there was no device to play on.
    pub fn polls(&self) -> (r: bool)
        ensures
            r == !(self is Stop),
    {
        match self {
            Activation::Stop => false,
            _ => true,
        }
    }
}

fn activate_release(l: &Releases, device: String) -> (r: Activation)
    ensures
        forall|a: App| #![trigger a.release_activation(device)] a.releases == Some(*l) ==> r == a.release_activation(device),
{
    if l.idx < l.rows.len() {
        match &l.rows[l.idx] {
            ReleaseRow::Radio => Activation::Send(
                Command::PlayArtist { artist: l.artist.id.clone(), name: l.artist.name.clone(), device },
            ),
            ReleaseRow::Release(x) => match &x.id {
                Some(id) => Activation::Send(Command::PlayAlbum { album: id.clone(), name: x.name.clone(), device }),
                None => Activation::Nothing,
            },
        }
    } else {
        Activation::Nothing
    }
}

impl App {
    /// Whether ENTER looks for a device to play on.
    pub open spec fn enter_needs_device(self) -> bool {
        match self.screen {
            Screen::PlaylistTracks => self.open_playlist is Some,
            Screen::Search => true,
            Screen::Saved => self.track_id_here() is Some,
            Screen::Queue => self.track_id_here() is Some,
            _ => false,
        }
    }

    /// Where in its playlist the track under the cursor stands; the start while
    /// no track is loaded.
    pub open spec fn place_here(self) -> usize {
        let i = self.playlist_tracks_idx;
        if i < self.playlist_places@.len() {
            self.playlist_places@[i as int]
        } else {
            i
        }
    }

    /// What ENTER comes to: it opens a playlist, lists an artist's releases,
    /// plays what is under the cursor, or hands playback to a device.
    pub open spec fn activation(self) -> Activation {
        let i = self.idx() as int;
        match self.screen {
            Screen::Playlists => if i < self.playlists@.len() {
                Activation::Open(self.playlists@[i])
            } else {
                Activation::Nothing
            },
            Screen::PlaylistTracks => match self.open_playlist {
                Some(p) => match self.target() {
                    Some(device) => Activation::Send(
                        Command::PlayPlaylist { playlist: p.id, index: self.place_here(), device },
                    ),
                    None => Activation::Stop,
                },
                None => Activation::Nothing,
            },
            Screen::Devices => if i < self.devices@.len() {
                match self.devices@[i].id {
                    Some(device) => Activation::Send(
                        Command::Transfer { device, name: self.devices@[i].name },
                    ),
                    None => Activation::Nothing,
                }
            } else {
                Activation::Nothing
            },
            Screen::Search => match self.target() {
                None => Activation::Stop,
                Some(device) => if self.beside() {
                    self.release_activation(device)
                } else if i < self.search_results@.len() {
                    match self.search_results@[i] {
                        SearchRow::Track(t) => match t.id {
                            Some(track) => Activation::Send(Command::PlayTrack { track, device }),
                            None => Activation::Nothing,
                        },
                        SearchRow::Artist(a) => Activation::Releases(a),
                    }
                } else {
                    Activation::Nothing
                },
            },
            Screen::Saved | Screen::Queue => match self.track_id_here() {
                Some(track) => match self.target() {
                    Some(device) => Activation::Send(Command::PlayTrack { track, device }),
                    None => Activation::Stop,
                },
                None => Activation::Nothing,
            },
            Screen::Files => if i < self.files@.len() {
                if self.files@[i].is_dir {
                    Activation::Folder(self.files_idx)
                } else {
                    Activation::File(self.files_idx)
                }
            } else {
                Activation::Nothing
            },
            Screen::Radio => match self.station_here() {
                Some(s) => Activation::Station(s),
                None => Activation::Nothing,
            },
            Screen::Help => Activation::Nothing,
        }
    }

    /// What ENTER on an artist's releases comes to: the top row plays the
    /// artist's radio, any other row its release.
    pub open spec fn release_activation(self, device: String) -> Activation {
        let l = self.releases->0;
        if l.idx < l.rows@.len() {
            match l.rows@[l.idx as int] {
                ReleaseRow::Radio => Activation::Send(
                    Command::PlayArtist { artist: l.artist.id, name: l.artist.name, device },
                ),
                ReleaseRow::Release(r) => match r.id {
                    Some(album) => Activation::Send(Command::PlayAlbum { album, name: r.name, device }),
                    None => Activation::Nothing,
                },
            }
        } else {
            Activation::Nothing
        }
    }

    pub fn activate_needs_device(&self) -> (r: bool)
        ensures
            r == self.enter_needs_device(),
    {
        match self.screen {
            Screen::PlaylistTracks => self.open_playlist.is_some(),
            Screen::Search => true,
            Screen::Saved | Screen::Queue => self.current_track_uri().is_some(),
            _ => false,
        }
    }

    /// ENTER. Playing anything from Spotify ends mpv. Devices are loaded before
    /// where [`App::activate_needs_device`] and [`App::wants_devices`] say so.
    pub fn list_activate(&mut self) -> (r: Activation)
        ensures
            r == old(self).activation(),
            match r {
                Activation::Open(_) => *final(self) == (App { screen: Screen::PlaylistTracks, ..*old(self) }),
                Activation::Stop => {
                    &&& shows(final(self).status, no_devices(), AMBER)
                    &&& *final(self) == (App { status: final(self).status, ..*old(self) })
                },
                Activation::Send(_) => *final(self) == (App { mpv: None, ..*old(self) }),
                _ => *final(self) == *old(self),
            },
            old(self).wf() ==> final(self).wf(),
    {
        let r = self.pick();
        if let Activation::Send(_) = &r {
            self.mpv = None;
        }
        r
    }

    /// What ENTER comes to, but that mpv still goes on.
    fn pick(&mut self) -> (r: Activation)
        ensures
            r == old(self).activation(),
            match r {
                Activation::Open(_) => *final(self) == (App { screen: Screen::PlaylistTracks, ..*old(self) }),
                Activation::Stop => {
                    &&& shows(final(self).status, no_devices(), AMBER)
                    &&& *final(self) == (App { status: final(self).status, ..*old(self) })
                },
                _ => *final(self) == *old(self),
            },
    {
        match self.screen {
            Screen::Playlists => {
                if self.playlists_idx < self.playlists.len() {
                    let p = self.playlists[self.playlists_idx].copy();
                    self.screen = Screen::PlaylistTracks;
                    Activation::Open(p)
                } else {
                    Activation::Nothing
                }
            },
            Screen::PlaylistTracks => {
                let playlist: String = match &self.open_playlist {
                    Some(p) => p.id.clone(),
                    None => {
                        return Activation::Nothing;
                    },
                };
                let i: usize = self.playlist_tracks_idx;
                let index: usize = if i < self.playlist_places.len() {
                    self.playlist_places[i]
                } else {
                    i
                };
                match self.resolve_device_id() {
                    Some(device) => Activation::Send(Command::PlayPlaylist { playlist, index, device }),
                    None => self.no_device(),
                }
            },
            Screen::Devices => {
                if self.devices_idx < self.devices.len() {
                    let d = &self.devices[self.devices_idx];
                    match &d.id {
                        Some(id) => Activation::Send(
                            Command::Transfer { device: id.clone(), name: d.name.clone() },
                        ),
                        None => Activation::Nothing,
                    }
                } else {
                    Activation::Nothing
                }
            },
            Screen::Search => {
                let device: String = match self.resolve_device_id() {
                    Some(d) => d,
                    None => {
                        return self.no_device();
                    },
                };
                if let Some(l) = &self.releases {
                    if l.focus {
                        return activate_release(l, device);
                    }
                }
                if self.search_idx < self.search_results.len() {
                    match &self.search_results[self.search_idx] {
                        SearchRow::Track(t) => match &t.id {
                            Some(id) => Activation::Send(Command::PlayTrack { track: id.clone(), device }),
                            None => Activation::Nothing,
                        },
                        SearchRow::Artist(a) => Activation::Releases(a.copy()),
                    }
                } else {
                    Activation::Nothing
                }
            },
            Screen::Saved | Screen::Queue => {
                match self.current_track_uri() {
                    Some(track) => match self.resolve_device_id() {
                        Some(device) => Activation::Send(Command::PlayTrack { track, device }),
                        None => self.no_device(),
                    },
                    None => Activation::Nothing,
                }
            },
            Screen::Files => {
                if self.files_idx < self.files.len() {
                    if self.files[self.files_idx].is_dir {
                        Activation::Folder(self.files_idx)
                    } else {
                        Activation::File(self.files_idx)
                    }
                } else {
                    Activation::Nothing
                }
            },
            Screen::Radio => match self.current_station() {
                Some(s) => Activation::Station(s),
                None => Activation::Nothing,
            },
            Screen::Help => Activation::Nothing,
        }
    }

    fn no_device(&mut self) -> (r: Activation)
        ensures
            r == Activation::Stop,
            shows(final(self).status, no_devices(), AMBER),
            *final(self) == (App { status: final(self).status, ..*old(self) }),
    {
        self.set_status(
            "No Spotify Connect devices online — open Spotify on a phone or desktop first.",
            AMBER,
        );
        Activation::Stop
    }

    /// The loaded tracks of a playlist come on the screen, from the first.
    /// `places` holds the place of each of them in the playlist.
    pub fn load_playlist_tracks(&mut self, playlist: Playlist, tracks: Vec<Track>, places: Vec<usize>)
        requires
            places@.len() == tracks@.len(),
        ensures
            *final(self) == (App {
                open_playlist: Some(playlist),
                playlist_tracks: tracks,
                playlist_places: places,
                playlist_tracks_idx: 0,
                ..*old(self)
            }),
            old(self).wf() ==> final(self).wf(),
    {
        self.playlist_tracks = tracks;
        self.playlist_places = places;
        self.playlist_tracks_idx = 0;
        self.open_playlist = Some(playlist);
    }

    // ---- Playback keys ----------------------------------------------

    /// Whether something plays.
    pub open spec fn is_playing(self) -> bool {
        match self.playback {
            Some(p) => p.is_playing,
            None => false,
        }
    }

    /// What play / pause sends: pause what plays, resume where a device is
    /// active, or start playback on a device.
    pub open spec fn toggle(self) -> Option<Command> {
        match self.target() {
            Some(device) => Some(
                if self.is_playing() {
                    Command::Pause { device }
                } else if playing_on(self.playback) is Some {
                    Command::Resume { device }
                } else {
                    Command::Wake { device }
                },
            ),
            None => None,
        }
    }

    /// Play / pause. Without a device that is said, and nothing is sent.
    pub fn toggle_play(&mut self) -> (r: Option<Command>)
        ensures
            r == old(self).toggle(),
            r is Some ==> *final(self) == *old(self),
            r is None ==> shows(final(self).status, no_devices(), AMBER),
            *final(self) == (App { status: final(self).status, ..*old(self) }),
            old(self).wf() ==> final(self).wf(),
    {
        let device: String = match self.resolve_device_id() {
            Some(d) => d,
            None => {
                self.no_device();
                return None;
            },
        };
        let (playing, somewhere) = match &self.playback {
            Some(p) => (p.is_playing, p.device.id.is_some()),
            None => (false, false),
        };
        if playing {
            Some(Command::Pause { device })
        } else if somewhere {
            Some(Command::Resume { device })
        } else {
            Some(Command::Wake { device })
        }
    }

    /// Adds the track under the cursor to the queue.
    pub fn queue_current(&self) -> (r: Option<Command>)
        ensures
            r == (match self.track_id_here() {
                Some(track) => Some(Command::Enqueue { track, device: self.target() }),
                None => None,
            }),
    {
        match self.current_track_uri() {
            Some(track) => Some(Command::Enqueue { track, device: self.resolve_device_id() }),
            None => None,
        }
    }

    pub fn skip_next(&self) -> (r: Command)
        ensures
            r == (Command::Next { device: self.target() }),
    {
        Command::Next { device: self.resolve_device_id() }
    }

    pub fn skip_prev(&self) -> (r: Command)
        ensures
            r == (Command::Previous { device: self.target() }),
    {
        Command::Previous { device: self.resolve_device_id() }
    }

    /// The volume of the device that plays, as a signed number of the same 32
    /// bits; 50 where it is not known.
    pub open spec fn volume(self) -> int {
        match self.playback {
            Some(p) => match p.device.volume_percent {
                Some(v) => if v > i32::MAX {
                    v - 0x1_0000_0000
                } else {
                    v as int
                },
                None => 50,
            },
            None => 50,
        }
    }

    /// Changes the volume, which stays from 0 to 100. What plays shows the
    /// new volume at once.
    pub fn bump_volume(&mut self, delta: i32) -> (r: Command)
        requires
            i32::MIN <= old(self).volume() + delta <= i32::MAX,
        ensures
            r == (Command::Volume {
                percent: clamped(old(self).volume() + delta) as u8,
                device: old(self).target(),
            }),
            shows(
                final(self).status,
                "Volume: "@ + decimal(clamped(old(self).volume() + delta) as nat) + "%"@,
                OK,
            ),
            final(self).playback == (match old(self).playback {
                Some(p) => Some(
                    Playback {
                        device: Device {
                            volume_percent: Some(clamped(old(self).volume() + delta) as u32),
                            ..p.device
                        },
                        ..p
                    },
                ),
                None => None,
            }),
            *final(self) == (App { status: final(self).status, playback: final(self).playback, ..*old(self) }),
            old(self).wf() ==> final(self).wf(),
    {
        let cur: i64 = match &self.playback {
            Some(p) => match p.device.volume_percent {
                Some(v) => if v > i32::MAX as u32 {
                    v as i64 - 0x1_0000_0000
                } else {
                    v as i64
                },
                None => 50,
            },
            None => 50,
        };
        let sum: i64 = cur + delta as i64;
        let percent: u8 = if sum < 0 {
            0
        } else if sum > 100 {
            100
        } else {
            sum as u8
        };
        let device = self.resolve_device_id();
        let mut msg = concat("Volume: ", &decimal_of(percent as u64));
        msg.append("%");
        self.set_status(&msg, OK);
        if let Some(p) = &mut self.playback {
            p.device.volume_percent = Some(percent as u32);
        }
        Command::Volume { percent, device }
    }

    /// How far into the item, in milliseconds; zero where it is not known.
    pub open spec fn progress_ms(self) -> int {
        match self.playback {
            Some(p) => match p.progress_ns {
                Some(ns) => whole_ms(ns as int),
                None => 0,
            },
            None => 0,
        }
    }

    /// How long the item is, in milliseconds; zero where nothing plays.
    pub open spec fn length_ms(self) -> int {
        match self.playback {
            Some(p) => signed_total_ms(p.item) as int,
            None => 0,
        }
    }

    /// The nearest place to `ms` inside the item.
    pub open spec fn inside(self, ms: int) -> int {
        let end = if self.length_ms() > 0 {
            self.length_ms()
        } else {
            0
        };
        if ms < 0 {
            0
        } else if ms > end {
            end
        } else {
            ms
        }
    }

    /// Seeks by so many milliseconds, not past either end.
    pub fn seek_relative(&self, delta_ms: i64) -> (r: Command)
        requires
            self.wf(),
            i64::MIN <= self.progress_ms() + delta_ms <= i64::MAX,
        ensures
            r == (Command::Seek { ms: self.inside(self.progress_ms() + delta_ms) as i64, device: self.target() }),
    {
        let cur: i64 = match &self.playback {
            Some(p) => match p.progress_ns {
                Some(ns) => whole_ms_of(ns),
                None => 0,
            },
            None => 0,
        };
        let total: i64 = match &self.playback {
            Some(p) => signed_total_ms_of(&p.item),
            None => 0,
        };
        let end: i64 = if total > 0 {
            total
        } else {
            0
        };
        let sum: i64 = cur + delta_ms;
        let ms: i64 = if sum < 0 {
            0
        } else if sum > end {
            end
        } else {
            sum
        };
        Command::Seek { ms, device: self.resolve_device_id() }
    }

    pub fn toggle_shuffle(&self) -> (r: Command)
        ensures
            r == (Command::Shuffle {
                on: match self.playback {
                    Some(p) => !p.shuffle_state,
                    None => true,
                },
                device: self.target(),
            }),
    {
        let on: bool = match &self.playback {
            Some(p) => !p.shuffle_state,
            None => true,
        };
        Command::Shuffle { on, device: self.resolve_device_id() }
    }

    /// Off, then the context, then the track; off where nothing plays.
    pub fn cycle_repeat(&self) -> (r: Command)
        ensures
            r == (Command::Repeat {
                mode: match self.playback {
                    Some(p) => p.repeat_state.following(),
                    None => RepeatState::Context,
                },
                device: self.target(),
            }),
    {
        let mode: RepeatState = match &self.playback {
            Some(p) => p.repeat_state,
            None => RepeatState::Off,
        };
        let next: RepeatState = match mode {
            RepeatState::Off => RepeatState::Context,
            RepeatState::Context => RepeatState::Track,
            RepeatState::Track => RepeatState::Off,
        };
        Command::Repeat { mode: next, device: self.resolve_device_id() }
    }
}

/// However far a seek goes, it ends inside the item.
pub proof fn law_seek_stays_inside(a: App, ms: int)
    ensures
        0 <= a.inside(ms),
        a.length_ms() > 0 ==> a.inside(ms) <= a.length_ms(),
        0 <= ms <= a.length_ms() ==> a.inside(ms) == ms,
{
}

/// However far the volume is turned, it stays from 0 to 100.
pub proof fn law_volume_stays_in_range(v: int)
    ensures
        0 <= clamped(v) <= 100,
        0 <= v <= 100 ==> clamped(v) == v,
{
}

/// Play / pause and ENTER refuse to send anything exactly where there is no
/// device for it.
pub proof fn law_no_device_no_command(a: App)
    ensures
        a.toggle() is None <==> a.target() is None,
        a.activation() is Stop <==> a.enter_needs_device() && a.target() is None,
{
}

/// What is turned up and down again by as much is as loud as before, unless an
/// end of the range was met.
pub proof fn law_volume_steps_undo(v: int, d: int)
    requires
        0 <= v <= 100,
        0 <= v + d <= 100,
    ensures
        clamped(clamped(v + d) - d) == v,
{
}

/// What ENTER plays is what is under the cursor, and it plays where commands
/// go; a playlist plays from the place of the track under the cursor.
pub proof fn law_enter_plays_what_is_under_the_cursor(a: App)
    requires
        a.wf(),
    ensures
        match a.activation() {
            Activation::Send(Command::PlayTrack { track, device }) => a.track_id_here() == Some(track) && a.target()
                == Some(device),
            Activation::Send(Command::PlayPlaylist { playlist, index, device }) => {
                &&& a.open_playlist is Some
                &&& playlist == (a.open_playlist->0).id
                &&& a.playlist_tracks@.len() > 0 ==> index == a.playlist_places@[a.idx() as int]
                &&& a.playlist_tracks@.len() == 0 ==> index == 0
                &&& a.target() == Some(device)
            },
            Activation::Send(Command::PlayArtist { artist, name, device }) => {
                &&& a.beside()
                &&& (a.releases->0).rows@[a.idx() as int] is Radio
                &&& (a.releases->0).artist == (Artist { id: artist, name })
                &&& a.target() == Some(device)
            },
            Activation::Send(Command::PlayAlbum { album, name, device }) => {
                &&& a.beside()
                &&& a.idx() < (a.releases->0).rows@.len()
                &&& (a.releases->0).rows@[a.idx() as int] matches ReleaseRow::Release(x) && x.id == Some(album) && x.name
                    == name
                &&& a.target() == Some(device)
            },
            Activation::Send(Command::Transfer { device, name }) => {
                &&& a.idx() < a.devices@.len()
                &&& a.devices@[a.idx() as int].id == Some(device)
                &&& a.devices@[a.idx() as int].name == name
            },
            Activation::Send(_) => false,
            Activation::Releases(x) => {
                &&& !a.beside()
                &&& a.idx() < a.search_results@.len()
                &&& a.search_results@[a.idx() as int] == SearchRow::Artist(x)
            },
            Activation::Open(p) => a.idx() < a.playlists@.len() && a.playlists@[a.idx() as int] == p,
            Activation::Folder(i) => i == a.idx() && i < a.files@.len() && a.files@[i as int].is_dir,
            Activation::File(i) => i == a.idx() && i < a.files@.len() && !a.files@[i as int].is_dir,
            Activation::Station(s) => a.idx() < a.stations().len() && a.stations()[a.idx() as int] == s,
            Activation::Nothing | Activation::Stop => true,
        },
{
}

/// The item of the playlist at the place that ENTER sends is the track under
/// the cursor, whatever else the playlist holds.
pub proof fn law_enter_plays_the_track_of_the_playlist(a: App, items: Seq<Loaded<Item>>)
    requires
        a.wf(),
        a.screen == Screen::PlaylistTracks,
        a.playlist_tracks@.len() > 0,
        placed(items, a.playlist_tracks@, a.playlist_places@),
        a.activation() is Send,
    ensures
        match a.activation() {
            Activation::Send(Command::PlayPlaylist { index, .. }) => {
                &&& index < items.len()
                &&& a.track_here() is Some
                &&& items[index as int] == Loaded::Item(Item::Track(a.track_here()->0))
            },
            _ => false,
        },
{
    let k = a.playlist_tracks_idx as int;
    assert(a.playlist_places@[k] < items.len());
}

/// The top row of an artist's releases plays the artist's radio, and every
/// row below it plays its release.
pub proof fn law_releases_play_from_their_rows(a: App, releases: Seq<Release>, device: String)
    requires
        a.wf(),
        a.beside(),
        (a.releases->0).rows@ == release_rows(releases),
        a.target() == Some(device),
    ensures
        a.idx() == 0 ==> a.activation() == Activation::Send(
            Command::PlayArtist {
                artist: (a.releases->0).artist.id,
                name: (a.releases->0).artist.name,
                device,
            },
        ),
        a.idx() > 0 && newest_first(releases)[a.idx() - 1].id is Some ==> a.activation() == Activation::Send(
            Command::PlayAlbum {
                album: newest_first(releases)[a.idx() - 1].id->0,
                name: newest_first(releases)[a.idx() - 1].name,
                device,
            },
        ),
{
}

/// While a device is known to play, play / pause pauses what plays and resumes
/// what is paused, on that device.
pub proof fn law_toggle_goes_back_and_forth(a: App)
    requires
        a.playback is Some,
        playing_on(a.playback) is Some,
    ensures
        ({
            let p = a.playback->0;
            let device = p.device.id->0;
            let on = App { playback: Some(Playback { is_playing: true, ..p }), ..a };
            let off = App { playback: Some(Playback { is_playing: false, ..p }), ..a };
            &&& on.toggle() == Some(Command::Pause { device })
            &&& off.toggle() == Some(Command::Resume { device })
        }),
{
}

// ---- Laws of ENTER and of the queue ---------------------------------

/// The track that `a` adds to the queue is the one of the list on the screen at
/// the cursor of that list.
pub proof fn law_the_track_under_the_cursor(a: App)
    ensures
        a.screen == Screen::Saved && a.saved_idx < a.saved_tracks@.len() ==> a.track_here() == Some(
            a.saved_tracks@[a.saved_idx as int],
        ) && a.track_id_here() == a.saved_tracks@[a.saved_idx as int].id,
        a.screen == Screen::Queue && a.queue_idx < a.queue@.len() ==> a.track_here() == Some(a.queue@[a.queue_idx as int])
            && a.track_id_here() == a.queue@[a.queue_idx as int].id,
        a.screen == Screen::PlaylistTracks && a.playlist_tracks_idx < a.playlist_tracks@.len() ==> a.track_here() == Some(
            a.playlist_tracks@[a.playlist_tracks_idx as int],
        ) && a.track_id_here() == a.playlist_tracks@[a.playlist_tracks_idx as int].id,
        a.screen == Screen::Search && (a.releases is None || !(a.releases->0).focus) && a.search_idx
            < a.search_results@.len() ==> match a.search_results@[a.search_idx as int] {
            SearchRow::Track(t) => a.track_here() == Some(t) && a.track_id_here() == t.id,
            SearchRow::Artist(_) => a.track_here() is None && a.track_id_here() is None,
        },
{
}

/// Where the cursor is on no track there is none to add: past the end of a
/// list, in the releases, and on every screen that lists something else.
pub proof fn law_no_track_under_the_cursor(a: App)
    ensures
        a.screen == Screen::Saved && a.saved_idx >= a.saved_tracks@.len() ==> a.track_id_here() is None,
        a.screen == Screen::Queue && a.queue_idx >= a.queue@.len() ==> a.track_id_here() is None,
        a.screen == Screen::PlaylistTracks && a.playlist_tracks_idx >= a.playlist_tracks@.len() ==> a.track_id_here() is None,
        a.screen == Screen::Search && a.search_idx >= a.search_results@.len() ==> a.track_id_here() is None,
        a.screen == Screen::Search && a.releases is Some && (a.releases->0).focus ==> a.track_id_here() is None,
        a.screen == Screen::Playlists || a.screen == Screen::Devices || a.screen == Screen::Files || a.screen == Screen::Radio
            || a.screen == Screen::Help ==> a.track_id_here() is None,
{
}

/// ENTER on a row plays what the row holds, on the device that commands go to.
pub proof fn law_enter_plays_the_row(a: App, device: String)
    requires
        a.target() == Some(device),
    ensures
        a.screen == Screen::Saved && a.saved_idx < a.saved_tracks@.len() ==> match a.saved_tracks@[a.saved_idx as int].id {
            Some(track) => a.activation() == Activation::Send(Command::PlayTrack { track, device }),
            None => a.activation() == Activation::Nothing,
        },
        a.screen == Screen::Queue && a.queue_idx < a.queue@.len() ==> match a.queue@[a.queue_idx as int].id {
            Some(track) => a.activation() == Activation::Send(Command::PlayTrack { track, device }),
            None => a.activation() == Activation::Nothing,
        },
        a.screen == Screen::Search && (a.releases is None || !(a.releases->0).focus) && a.search_idx
            < a.search_results@.len() ==> match a.search_results@[a.search_idx as int] {
            SearchRow::Track(t) => match t.id {
                Some(track) => a.activation() == Activation::Send(Command::PlayTrack { track, device }),
                None => a.activation() == Activation::Nothing,
            },
            SearchRow::Artist(x) => a.activation() == Activation::Releases(x),
        },
        a.screen == Screen::PlaylistTracks && a.open_playlist is Some && a.playlist_tracks_idx < a.playlist_places@.len()
            ==> a.activation() == Activation::Send(
            Command::PlayPlaylist {
                playlist: (a.open_playlist->0).id,
                index: a.playlist_places@[a.playlist_tracks_idx as int],
                device,
            },
        ),
{
}

/// ENTER on a playlist whose tracks are not there yet plays it from the place
/// of the cursor.
pub proof fn law_enter_plays_a_playlist_without_tracks(a: App, device: String)
    requires
        a.target() == Some(device),
        a.screen == Screen::PlaylistTracks,
        a.open_playlist is Some,
        a.playlist_tracks_idx >= a.playlist_places@.len(),
    ensures
        a.activation() == Activation::Send(
            Command::PlayPlaylist { playlist: (a.open_playlist->0).id, index: a.playlist_tracks_idx, device },
        ),
{
}

/// ENTER on a release plays the release, and on the top row the artist's
/// radio.
pub proof fn law_enter_plays_the_release(a: App, device: String, l: Releases)
    requires
        a.target() == Some(device),
        a.screen == Screen::Search,
        a.releases == Some(l),
        l.focus,
        l.idx < l.rows@.len(),
    ensures
        match l.rows@[l.idx as int] {
            ReleaseRow::Radio => a.activation() == Activation::Send(
                Command::PlayArtist { artist: l.artist.id, name: l.artist.name, device },
            ),
            ReleaseRow::Release(x) => match x.id {
                Some(album) => a.activation() == Activation::Send(Command::PlayAlbum { album, name: x.name, device }),
                None => a.activation() == Activation::Nothing,
            },
        },
{
}

/// ENTER on what needs no device: it opens the playlist or the folder of the
/// row, plays its file or its station, or hands playback to its device.
pub proof fn law_enter_without_a_target(a: App)
    ensures
        a.screen == Screen::Playlists && a.playlists_idx < a.playlists@.len() ==> a.activation() == Activation::Open(
            a.playlists@[a.playlists_idx as int],
        ),
        a.screen == Screen::Devices && a.devices_idx < a.devices@.len() ==> match a.devices@[a.devices_idx as int].id {
            Some(device) => a.activation() == Activation::Send(
                Command::Transfer { device, name: a.devices@[a.devices_idx as int].name },
            ),
            None => a.activation() == Activation::Nothing,
        },
        a.screen == Screen::Files && a.files_idx < a.files@.len() ==> a.activation() == (if a.files@[a.files_idx as int].is_dir {
            Activation::Folder(a.files_idx)
        } else {
            Activation::File(a.files_idx)
        }),
        a.screen == Screen::Radio && a.found_stations is None && a.radio_idx < a.kept@.len() ==> a.activation()
            == Activation::Station(a.kept@[a.radio_idx as int]),
        a.screen == Screen::Radio && a.found_stations is Some && a.radio_idx < (a.found_stations->0)@.len()
            ==> a.activation() == Activation::Station((a.found_stations->0)@[a.radio_idx as int]),
{
}

/// ENTER on no row does nothing; it says that there is no device only where it
/// would have played from Spotify.
pub proof fn law_enter_on_no_row(a: App)
    ensures
        a.screen == Screen::Help ==> a.activation() == Activation::Nothing,
        a.screen == Screen::Playlists && a.playlists_idx >= a.playlists@.len() ==> a.activation() == Activation::Nothing,
        a.screen == Screen::Devices && a.devices_idx >= a.devices@.len() ==> a.activation() == Activation::Nothing,
        a.screen == Screen::Files && a.files_idx >= a.files@.len() ==> a.activation() == Activation::Nothing,
        a.screen == Screen::Saved && a.saved_idx >= a.saved_tracks@.len() ==> a.activation() == Activation::Nothing,
        a.screen == Screen::Queue && a.queue_idx >= a.queue@.len() ==> a.activation() == Activation::Nothing,
        a.screen == Screen::PlaylistTracks && a.open_playlist is None ==> a.activation() == Activation::Nothing,
        a.screen == Screen::Radio && a.radio_idx >= a.stations().len() ==> a.activation() == Activation::Nothing,
        a.screen == Screen::Saved && a.saved_idx < a.saved_tracks@.len() && a.saved_tracks@[a.saved_idx as int].id is None
            ==> a.activation() == Activation::Nothing,
        a.screen == Screen::Queue && a.queue_idx < a.queue@.len() && a.queue@[a.queue_idx as int].id is None
            ==> a.activation() == Activation::Nothing,
        a.screen == Screen::Search && a.target() is Some && !a.beside() && a.search_idx >= a.search_results@.len()
            ==> a.activation() == Activation::Nothing,
        a.target() is None ==> {
            &&& a.screen == Screen::Search ==> a.activation() == Activation::Stop
            &&& a.screen == Screen::PlaylistTracks && a.open_playlist is Some ==> a.activation() == Activation::Stop
            &&& a.screen == Screen::Saved && a.saved_idx < a.saved_tracks@.len() && a.saved_tracks@[a.saved_idx as int].id is Some
                ==> a.activation() == Activation::Stop
            &&& a.screen == Screen::Queue && a.queue_idx < a.queue@.len() && a.queue@[a.queue_idx as int].id is Some
                ==> a.activation() == Activation::Stop
        },
{
}

/// A device is looked for before ENTER plays something from Spotify, and for
/// nothing else.
pub proof fn law_when_enter_looks_for_a_device(a: App)
    ensures
        a.screen == Screen::Search ==> a.enter_needs_device(),
        a.screen == Screen::PlaylistTracks ==> (a.enter_needs_device() <==> a.open_playlist is Some),
        a.screen == Screen::Saved ==> (a.enter_needs_device() <==> a.saved_idx < a.saved_tracks@.len()
            && a.saved_tracks@[a.saved_idx as int].id is Some),
        a.screen == Screen::Queue ==> (a.enter_needs_device() <==> a.queue_idx < a.queue@.len()
            && a.queue@[a.queue_idx as int].id is Some),
        a.screen == Screen::Playlists || a.screen == Screen::Devices || a.screen == Screen::Files || a.screen == Screen::Radio
            || a.screen == Screen::Help ==> !a.enter_needs_device(),
{
}

// ---- Laws of the playback keys --------------------------------------

/// Play / pause sends a pause exactly while something plays; else it resumes
/// on the device that Spotify names, and where it names none it wakes one.
pub proof fn law_play_and_pause(a: App, device: String)
    requires
        a.target() == Some(device),
    ensures
        a.playback is Some && (a.playback->0).is_playing ==> a.toggle() == Some(Command::Pause { device }),
        a.playback is Some && !(a.playback->0).is_playing && (a.playback->0).device.id is Some ==> a.toggle() == Some(
            Command::Resume { device },
        ),
        a.playback is Some && !(a.playback->0).is_playing && (a.playback->0).device.id is None ==> a.toggle() == Some(
            Command::Wake { device },
        ),
        a.playback is None ==> a.toggle() == Some(Command::Wake { device }),
{
}

/// The volume is changed from the one that Spotify reports, or from the middle
/// where it reports none, and ends at the nearest step of the range.
pub proof fn law_volume_goes_on_from_what_is_reported(a: App, v: int)
    ensures
        a.playback is Some && (a.playback->0).device.volume_percent is Some && (a.playback->0).device.volume_percent->0
            <= i32::MAX ==> a.volume() == (a.playback->0).device.volume_percent->0,
        a.playback is Some && (a.playback->0).device.volume_percent is Some && (a.playback->0).device.volume_percent->0
            > i32::MAX ==> a.volume() == (a.playback->0).device.volume_percent->0 - 0x1_0000_0000,
        a.playback is None || (a.playback->0).device.volume_percent is None ==> a.volume() == 50,
        v < 0 ==> clamped(v) == 0,
        v > 100 ==> clamped(v) == 100,
        0 <= v <= 100 ==> clamped(v) == v,
{
}

/// Something plays exactly where Spotify says so.
pub proof fn law_playing(a: App)
    ensures
        a.is_playing() <==> a.playback is Some && (a.playback->0).is_playing,
{
}

/// A seek starts from the whole milliseconds that were played, and its end is
/// the length of the track or the episode that plays: within the item it goes
/// exactly as far as asked, and else to the nearer end.
pub proof fn law_seek_goes_by_the_items_own_length(a: App, p: Playback, cur: int, delta: int, length: int)
    requires
        a.playback == Some(p),
        match p.item {
            Some(Item::Track(t)) => length == t.duration_ms,
            Some(Item::Episode(e)) => length == e.duration_ms,
            Some(Item::Unknown(j)) => match j@.get_whole("duration_ms"@) {
                Some(n) => length == (if n <= i64::MAX {
                    n as int
                } else {
                    n - 0x1_0000_0000_0000_0000
                }),
                None => length == 0,
            },
            None => length == 0,
        },
        match p.progress_ns {
            Some(ns) => (ns >= 0 && cur * 1_000_000 <= ns < (cur + 1) * 1_000_000) || (ns < 0 && cur * 1_000_000 >= ns
                > (cur - 1) * 1_000_000),
            None => cur == 0,
        },
    ensures
        a.progress_ms() == cur,
        length >= 0 && 0 <= cur + delta <= length ==> a.inside(a.progress_ms() + delta) == cur + delta,
        length >= 0 && cur + delta > length ==> a.inside(a.progress_ms() + delta) == length,
        length >= 0 && cur + delta < 0 ==> a.inside(a.progress_ms() + delta) == 0,
        length < 0 ==> a.inside(a.progress_ms() + delta) == 0,
{
    if let Some(ns) = p.progress_ns {
        if ns >= 0 {
            assert(ns as int / 1_000_000 == cur);
        } else {
            assert((-ns) / 1_000_000 == -cur);
        }
    }
}

/// Where nothing plays a seek goes to the start.
pub proof fn law_seek_in_nothing(a: App, ms: int)
    requires
        a.playback is None,
    ensures
        a.progress_ms() == 0,
        a.inside(ms) == 0,
{
}

// ---- Laws of what is said -------------------------------------------

/// What is said of a command that went well names what was asked for.
pub proof fn law_success_is_told(
    before: Option<(String, u8)>,
    after: Option<(String, u8)>,
    c: Command,
)
    requires
        reported(before, after, c, None),
    ensures
        match c {
            Command::PlayTrack { .. } => shows(after, "Playing"@, OK),
            Command::PlayPlaylist { index, .. } => shows(after, "Playing from #"@ + decimal((index + 1) as nat), OK),
            Command::PlayArtist { name, .. } => shows(after, "Playing "@ + name@, OK),
            Command::PlayAlbum { name, .. } => shows(after, "Playing "@ + name@, OK),
            Command::Transfer { name, .. } => shows(after, "Transferred to "@ + name@, OK),
            Command::Enqueue { .. } => shows(after, "Added to queue"@, OK),
            _ => after == before,
        },
{
}

/// A failure is told with what failed and with Spotify's own words, but for
/// the keys that say nothing.
pub proof fn law_failure_is_told(
    before: Option<(String, u8)>,
    after: Option<(String, u8)>,
    c: Command,
    e: String,
)
    requires
        reported(before, after, c, Some(e)),
    ensures
        c is PlayTrack || c is PlayPlaylist || c is PlayArtist || c is PlayAlbum ==> shows(after, "Play failed: "@ + e@, ERR),
        c is Transfer ==> shows(after, "Transfer failed: "@ + e@, ERR),
        c is Enqueue ==> shows(after, "Queue failed: "@ + e@, ERR),
        c is Pause || c is Resume || c is Wake ==> shows(after, "Toggle failed: "@ + e@, ERR),
        c is Next || c is Previous || c is Volume || c is Seek || c is Shuffle || c is Repeat ==> after == before,
        no_devices() == "No Spotify Connect devices online — open Spotify on a phone or desktop first."@,
{
}

}
