//! Local files and internet radio on the screen, and switching between them
//! and Spotify.

use vstd::prelude::*;
use crate::app::{in_range, shows, App, Screen};
use crate::command::Command;
use crate::local::{is_listing, list_dir, Entry, LocalKey, Mpv, Repeat, Report, Source, StateView};
use crate::radio::{is_kept, keep, remove, with_station, without, Station};
use crate::text::{concat, texts, trim, trimmed};
use crate::theme::ERR;

verus! {

// ---- Files ----------------------------------------------------------

/// The rows of a folder that are files, in order.
pub open spec fn file_rows(v: Seq<Entry>) -> Seq<usize>
    decreases v.len(),
{
    if v.len() == 0 {
        Seq::empty()
    } else if v.last().is_dir {
        file_rows(v.drop_last())
    } else {
        file_rows(v.drop_last()).push((v.len() - 1) as usize)
    }
}

/// Of the files of a folder, those before a file stand before it in the list
/// that is played, and the rest after it: the list is in the order of the
/// rows, holds every file, and has row `i` at the place where it starts.
pub proof fn law_a_file_is_played_with_its_folder(v: Seq<Entry>, i: int)
    requires
        v.len() <= usize::MAX,
        0 <= i < v.len(),
        !v[i].is_dir,
    ensures
        file_rows(v.take(i)).len() < file_rows(v).len(),
        file_rows(v)[file_rows(v.take(i)).len() as int] == i,
        forall|k: int| 0 <= k < file_rows(v).len() ==> (#[trigger] file_rows(v)[k]) < v.len() && !v[file_rows(v)[k] as int].is_dir,
        forall|k: int|
            0 <= k < file_rows(v).len() ==> ((#[trigger] file_rows(v)[k]) < i <==> k < file_rows(v.take(i)).len()),
        forall|j: int| 0 <= j < v.len() && !(#[trigger] v[j]).is_dir ==> file_rows(v).contains(j as usize),
{
    lemma_file_rows(v);
    lemma_file_rows_take(v, i + 1);
    lemma_file_rows(v.take(i));
    assert(v.take(i + 1).drop_last() =~= v.take(i));
    let rows = file_rows(v);
    let n = file_rows(v.take(i)).len() as int;
    assert(file_rows(v.take(i + 1)) == file_rows(v.take(i)).push(i as usize));
    assert(rows.take(n + 1) == file_rows(v.take(i + 1)));
    assert(rows[n] == rows.take(n + 1)[n]);
    assert forall|k: int| 0 <= k < rows.len() implies ((#[trigger] rows[k]) < i <==> k < n) by {
        if k < n {
            assert(rows[k] == rows.take(n + 1)[k]);
            assert(file_rows(v.take(i))[k] < v.take(i).len());
        } else if k > n {
            assert(rows[n] < rows[k]);
        }
    }
}

proof fn lemma_file_rows(v: Seq<Entry>)
    requires
        v.len() <= usize::MAX,
    ensures
        file_rows(v).len() <= v.len(),
        forall|k: int| 0 <= k < file_rows(v).len() ==> (#[trigger] file_rows(v)[k]) < v.len() && !v[file_rows(v)[k] as int].is_dir,
        forall|a: int, b: int| 0 <= a < b < file_rows(v).len() ==> (#[trigger] file_rows(v)[a]) < (#[trigger] file_rows(v)[b]),
        forall|j: int| 0 <= j < v.len() && !(#[trigger] v[j]).is_dir ==> file_rows(v).contains(j as usize),
    decreases v.len(),
{
    if v.len() > 0 {
        let w = v.drop_last();
        lemma_file_rows(w);
        assert forall|k: int| 0 <= k < file_rows(v).len() implies (#[trigger] file_rows(v)[k]) < v.len()
            && !v[file_rows(v)[k] as int].is_dir by {
            if k < file_rows(w).len() {
                assert(file_rows(v)[k] == file_rows(w)[k]);
                assert(w[file_rows(w)[k] as int] == v[file_rows(w)[k] as int]);
            }
        }
        assert forall|a: int, b: int| 0 <= a < b < file_rows(v).len() implies (#[trigger] file_rows(v)[a]) < (#[trigger] file_rows(v)[b]) by {
            assert(file_rows(v)[a] == file_rows(w)[a]);
            if b < file_rows(w).len() {
                assert(file_rows(v)[b] == file_rows(w)[b]);
            }
        }
        assert forall|j: int| 0 <= j < v.len() && !(#[trigger] v[j]).is_dir implies file_rows(v).contains(j as usize) by {
            if j < w.len() {
                assert(w[j] == v[j]);
                let k = choose|k: int| 0 <= k < file_rows(w).len() && file_rows(w)[k] == j as usize;
                assert(file_rows(v)[k] == j as usize);
            } else {
                assert(file_rows(v)[file_rows(w).len() as int] == j as usize);
            }
        }
    }
}

proof fn lemma_file_rows_take(v: Seq<Entry>, n: int)
    requires
        0 <= n <= v.len(),
    ensures
        file_rows(v.take(n)).len() <= file_rows(v).len(),
        file_rows(v).take(file_rows(v.take(n)).len() as int) == file_rows(v.take(n)),
    decreases v.len() - n,
{
    if n == v.len() {
        assert(v.take(n) =~= v);
        assert(file_rows(v).take(file_rows(v).len() as int) =~= file_rows(v));
    } else {
        lemma_file_rows_take(v, n + 1);
        assert(v.take(n + 1).drop_last() =~= v.take(n));
        let a = file_rows(v.take(n));
        let b = file_rows(v.take(n + 1));
        assert(file_rows(v).take(a.len() as int) =~= b.take(a.len() as int)) by {
            assert forall|k: int| 0 <= k < a.len() implies file_rows(v)[k] == b[k] by {
                assert(file_rows(v).take(b.len() as int)[k] == b[k]);
            }
        }
        assert(b.take(a.len() as int) =~= a);
    }
}

impl App {
    /// Shows a folder by its name and what was found in it: its sub-folders
    /// and audio files, from the first. Says where each row stands among
    /// `entries`.
    pub fn show_folder(&mut self, name: String, entries: &Vec<Entry>) -> (r: Vec<usize>)
        ensures
            is_listing(entries@, r@),
            final(self).files@.len() == r@.len(),
            forall|k: int| 0 <= k < r@.len() ==> (#[trigger] final(self).files@[k]) == entries@[r@[k] as int],
            *final(self) == (App {
                folder: Some(name),
                files: final(self).files,
                files_idx: 0,
                scroll: 0,
                ..*old(self)
            }),
            old(self).wf() ==> final(self).wf(),
    {
        let places = list_dir(entries);
        let mut rows: Vec<Entry> = Vec::new();
        let mut i: usize = 0;
        while i < places.len()
            invariant
                is_listing(entries@, places@),
                i <= places@.len(),
                rows@.len() == i,
                forall|k: int| 0 <= k < i ==> (#[trigger] rows@[k]) == entries@[places@[k] as int],
            decreases places.len() - i,
        {
            assert(places@[i as int] < entries@.len());
            rows.push(entries[places[i]].copy());
            i = i + 1;
        }
        self.folder = Some(name);
        self.files = rows;
        self.files_idx = 0;
        self.scroll = 0;
        places
    }

    /// The files to play for the file in row `i`: the rows of all the files of
    /// the folder, and where among them row `i` stands.
    pub fn files_from(&self, i: usize) -> (r: (Vec<usize>, usize))
        requires
            i < self.files@.len(),
            !self.files@[i as int].is_dir,
        ensures
            r.0@ == file_rows(self.files@),
            r.1 == file_rows(self.files@.take(i as int)).len(),
            r.1 < r.0@.len(),
            r.0@[r.1 as int] == i,
    {
        let ghost v = self.files@;
        let mut rows: Vec<usize> = Vec::new();
        let mut at: usize = 0;
        let mut k: usize = 0;
        while k < self.files.len()
            invariant
                v == self.files@,
                i < v.len(),
                k <= v.len(),
                rows@ == file_rows(v.take(k as int)),
                k > i ==> at == file_rows(v.take(i as int)).len(),
            decreases self.files.len() - k,
        {
            if k == i {
                at = rows.len();
            }
            assert(v.take(k as int + 1).drop_last() =~= v.take(k as int));
            if !self.files[k].is_dir {
                rows.push(k);
            }
            k = k + 1;
        }
        assert(v.take(v.len() as int) =~= v);
        proof {
            assert(self.files.len() == v.len());
            law_a_file_is_played_with_its_folder(v, i as int);
        }
        (rows, at)
    }

    /// Whether `a` adds the file under the cursor to what plays.
    pub open spec fn can_append(self) -> bool {
        &&& self.mpv is Some
        &&& (self.mpv->0).source is Files
        &&& self.files_idx < self.files@.len()
        &&& !self.files@[self.files_idx as int].is_dir
    }

    /// Adds the file under the cursor, which has this path, to the files that
    /// play: the command for mpv. Nothing where no files play or the row is a
    /// folder.
    pub fn append_file(&mut self, path: &str) -> (r: Option<Vec<String>>)
        requires
            old(self).mpv is Some ==> (old(self).mpv->0).state.count < usize::MAX,
        ensures
            r is Some <==> old(self).can_append(),
            r is None ==> *final(self) == *old(self),
            r is Some ==> {
                let m = old(self).mpv->0;
                let n = final(self).mpv->0;
                &&& texts((r->0)@) == seq!["loadfile"@, path@, "append-play"@]
                &&& final(self).mpv is Some
                &&& n.state@ == (StateView { count: (m.state.count + 1) as usize, ..m.state@ })
                &&& n == (Mpv { state: n.state, ..m })
                &&& *final(self) == (App { mpv: final(self).mpv, ..*old(self) })
            },
            old(self).wf() ==> final(self).wf(),
    {
        if self.files_idx >= self.files.len() || self.files[self.files_idx].is_dir {
            return None;
        }
        match &mut self.mpv {
            Some(m) => match m.source {
                Source::Files => Some(m.append(path)),
                Source::Radio(_) => None,
            },
            None => None,
        }
    }
}

// ---- Radio ----------------------------------------------------------

/// What was typed at a prompt, without the white space around it; nothing
/// where that is all.
pub fn typed_text(typed: &str) -> (r: Option<String>)
    ensures
        match r {
            Some(t) => t@ == trimmed(typed@) && t@.len() > 0,
            None => trimmed(typed@).len() == 0,
        },
{
    let t = trim(typed);
    if t.as_str().is_empty() {
        None
    } else {
        Some(t)
    }
}

impl App {
    /// The station under the cursor.
    pub open spec fn station_here(self) -> Option<Station> {
        if self.radio_idx < self.stations().len() {
            Some(self.stations()[self.radio_idx as int])
        } else {
            None
        }
    }

    pub fn current_station(&self) -> (r: Option<Station>)
        ensures
            r == self.station_here(),
    {
        match &self.found_stations {
            Some(v) => if self.radio_idx < v.len() {
                Some(v[self.radio_idx].copy())
            } else {
                None
            },
            None => if self.radio_idx < self.kept.len() {
                Some(self.kept[self.radio_idx].copy())
            } else {
                None
            },
        }
    }

    /// Takes the stations that were kept before.
    pub fn load_stations(&mut self, kept: Vec<Station>)
        ensures
            *final(self) == (App { kept, radio_idx: 0, ..*old(self) }),
            old(self).wf() ==> final(self).wf(),
    {
        self.kept = kept;
        self.radio_idx = 0;
    }

    /// Lists the stations that were found, from the first. After a failure the
    /// list stays.
    pub fn finish_stations(&mut self, answer: Result<Vec<Station>, String>)
        ensures
            match answer {
                Ok(v) => *final(self) == (App { found_stations: Some(v), radio_idx: 0, scroll: 0, ..*old(self) }),
                Err(e) => {
                    &&& shows(final(self).status, "Search failed: "@ + e@, ERR)
                    &&& *final(self) == (App { status: final(self).status, ..*old(self) })
                },
            },
            old(self).wf() ==> final(self).wf(),
    {
        match answer {
            Ok(v) => {
                self.found_stations = Some(v);
                self.radio_idx = 0;
                self.scroll = 0;
            },
            Err(e) => {
                self.set_status(&concat("Search failed: ", &e), ERR);
            },
        }
    }

    /// Keeps the station under the cursor, and says whether the list of those
    /// kept changed.
    pub fn keep_station(&mut self) -> (r: bool)
        ensures
            match old(self).station_here() {
                Some(s) => {
                    &&& final(self).kept@ == with_station(old(self).kept@, s)
                    &&& r == !is_kept(old(self).kept@, s)
                },
                None => !r && final(self).kept@ == old(self).kept@,
            },
            *final(self) == (App { kept: final(self).kept, ..*old(self) }),
            old(self).wf() ==> final(self).wf(),
    {
        match self.current_station() {
            Some(s) => keep(&mut self.kept, &s),
            None => false,
        }
    }

    /// Removes the station under the cursor from those kept, and says whether
    /// that list changed. A cursor that would stand behind the list stands on
    /// its last row.
    pub fn remove_station(&mut self) -> (r: bool)
        ensures
            match old(self).station_here() {
                Some(s) => {
                    &&& final(self).kept@ == without(old(self).kept@, s)
                    &&& r == is_kept(old(self).kept@, s)
                },
                None => !r && final(self).kept@ == old(self).kept@,
            },
            final(self).radio_idx == (if in_range(old(self).radio_idx, final(self).stations().len()) {
                old(self).radio_idx
            } else if final(self).stations().len() == 0 {
                0
            } else {
                (final(self).stations().len() - 1) as usize
            }),
            *final(self) == (App { kept: final(self).kept, radio_idx: final(self).radio_idx, ..*old(self) }),
            old(self).wf() ==> final(self).wf(),
    {
        let changed: bool = match self.current_station() {
            Some(s) => remove(&mut self.kept, &s),
            None => false,
        };
        let n: usize = match &self.found_stations {
            Some(v) => v.len(),
            None => self.kept.len(),
        };
        if self.radio_idx >= n {
            self.radio_idx = if n == 0 {
                0
            } else {
                n - 1
            };
        }
        changed
    }
}

// ---- Switching ------------------------------------------------------

impl App {
    /// Whether Spotify plays on tune's own device.
    pub open spec fn plays_here(self) -> bool {
        &&& self.own_device@.len() > 0
        &&& match self.playback {
            Some(p) => p.is_playing && match p.device.id {
                Some(id) => id@ == self.own_device@,
                None => false,
            },
            None => false,
        }
    }

    /// mpv plays a list of `count` files from `index`, or a station. The
    /// command for Spotify pauses it where it plays on tune's own device.
    pub fn play_local(&mut self, source: Source, count: usize, index: usize) -> (r: Option<Command>)
        ensures
            final(self).mpv is Some,
            (final(self).mpv->0).source == source,
            (final(self).mpv->0).state@ == (StateView {
                paused: false,
                pos_ms: 0,
                duration_ms: 0,
                title: Seq::empty(),
                artist: Seq::empty(),
                index,
                count: if count > 1 { count } else { 1 },
                path: Seq::empty(),
            }),
            (final(self).mpv->0).volume == 100,
            (final(self).mpv->0).repeat == Repeat::Off,
            *final(self) == (App { mpv: final(self).mpv, ..*old(self) }),
            match r {
                Some(Command::Pause { device }) => old(self).plays_here() && device@ == old(self).own_device@,
                Some(_) => false,
                None => !old(self).plays_here(),
            },
            old(self).wf() ==> final(self).wf(),
    {
        self.mpv = Some(Mpv::start(source, count, index));
        if self.own_device.as_str().is_empty() {
            return None;
        }
        match &self.playback {
            Some(p) => match &p.device.id {
                Some(id) => if p.is_playing && *id == self.own_device {
                    Some(Command::Pause { device: id.clone() })
                } else {
                    None
                },
                None => None,
            },
            None => None,
        }
    }

    /// mpv could not be started.
    pub fn local_failed(&mut self, e: &str)
        ensures
            shows(final(self).status, e@, ERR),
            *final(self) == (App { mpv: None, status: final(self).status, ..*old(self) }),
            old(self).wf() ==> final(self).wf(),
    {
        self.mpv = None;
        self.set_status(e, ERR);
    }

    /// A playback key while mpv is there: the commands for mpv, in order.
    pub fn press_local(&mut self, key: LocalKey) -> (r: Vec<Vec<String>>)
        requires
            old(self).wf(),
            match key {
                LocalKey::Volume(d) => d <= i64::MAX - 100,
                _ => true,
            },
        ensures
            match old(self).mpv {
                Some(m) => {
                    &&& crate::local::word_lists(r@) == m.told(key)
                    &&& final(self).mpv is Some
                    &&& m.pressed(key, final(self).mpv->0)
                },
                None => r@.len() == 0 && final(self).mpv is None,
            },
            *final(self) == (App { mpv: final(self).mpv, ..*old(self) }),
            final(self).wf(),
    {
        match &mut self.mpv {
            Some(m) => m.press(key),
            None => Vec::new(),
        }
    }

    /// Whether mpv is paused.
    pub open spec fn mpv_paused(self) -> bool {
        self.mpv is Some && (self.mpv->0).state.paused
    }

    fn is_mpv_paused(&self) -> (r: bool)
        ensures
            r == self.mpv_paused(),
    {
        match &self.mpv {
            Some(m) => m.state.paused,
            None => false,
        }
    }

    /// Whether mpv is asked where it is, so many nanoseconds after the last
    /// time: once a second while it plays, and not while it is paused.
    pub fn mpv_due(&self, elapsed_ns: u128) -> (r: bool)
        ensures
            r == (self.mpv is Some && !self.mpv_paused() && elapsed_ns >= crate::load::SECOND),
    {
        self.mpv.is_some() && !self.is_mpv_paused() && elapsed_ns >= crate::load::SECOND
    }

    /// Whether Spotify is asked what plays, so many nanoseconds after the last
    /// time. It is not while mpv is paused.
    pub fn spotify_due(&self, elapsed_ns: u128, poll_s: u64) -> (r: bool)
        ensures
            r == (!self.mpv_paused() && elapsed_ns >= crate::load::poll_interval(poll_s) * crate::load::SECOND),
    {
        !self.is_mpv_paused() && crate::load::poll_due(elapsed_ns, poll_s)
    }

    /// Takes over what mpv reported.
    pub fn mpv_reports(&mut self, report: Report)
        ensures
            match old(self).mpv {
                Some(m) => {
                    &&& final(self).mpv is Some
                    &&& (final(self).mpv->0).state@ == crate::local::refreshed(m.source, m.state@, report)
                    &&& final(self).mpv->0 == (Mpv { state: (final(self).mpv->0).state, ..m })
                },
                None => final(self).mpv is None,
            },
            *final(self) == (App { mpv: final(self).mpv, ..*old(self) }),
            old(self).wf() ==> final(self).wf(),
    {
        if let Some(m) = &mut self.mpv {
            m.refresh(report);
        }
    }

    /// mpv has ended, when its list has played out.
    pub fn mpv_ended(&mut self)
        ensures
            *final(self) == (App { mpv: None, ..*old(self) }),
            old(self).wf() ==> final(self).wf(),
    {
        self.mpv = None;
    }
}

// ---- Laws of the sources --------------------------------------------

/// A file is added exactly where files play and the cursor is on a file.
pub proof fn law_when_a_file_is_added(a: App)
    ensures
        a.can_append() <==> a.mpv is Some && (a.mpv->0).source is Files && a.files_idx < a.files@.len()
            && !a.files@[a.files_idx as int].is_dir,
{
}

/// The station under the cursor is the one of the list that is shown: of those
/// found, or else of those kept.
pub proof fn law_the_station_under_the_cursor(a: App)
    ensures
        a.found_stations is None && a.radio_idx < a.kept@.len() ==> a.station_here() == Some(a.kept@[a.radio_idx as int]),
        a.found_stations is None && a.radio_idx >= a.kept@.len() ==> a.station_here() is None,
        a.found_stations is Some && a.radio_idx < (a.found_stations->0)@.len() ==> a.station_here() == Some(
            (a.found_stations->0)@[a.radio_idx as int],
        ),
        a.found_stations is Some && a.radio_idx >= (a.found_stations->0)@.len() ==> a.station_here() is None,
{
}

/// Spotify plays on tune's own device exactly where it plays, and on the device
/// with tune's own id.
pub proof fn law_when_spotify_plays_here(a: App)
    ensures
        a.plays_here() <==> a.own_device@.len() > 0 && a.playback is Some && (a.playback->0).is_playing
            && (a.playback->0).device.id is Some && ((a.playback->0).device.id->0)@ == a.own_device@,
{
}

/// mpv is paused exactly where it is there and says so.
pub proof fn law_when_mpv_is_paused(a: App)
    ensures
        a.mpv_paused() <==> a.mpv is Some && (a.mpv->0).state.paused,
{
}

}
