//! The cover beside what plays, and the part of a list that is in view.

use vstd::prelude::*;
use crate::app::App;
use crate::local::Source;
use crate::playback::{cover, cover_id_and_url, opt_pair};
use crate::player::{hash_of_name, name_hash};
use crate::radio::Station;
use crate::text::{hex, hex_of};

verus! {

// ---- The cover ------------------------------------------------------

/// What is to be done about the cover on the screen.
#[derive(Debug)]
pub enum CoverAction {
    Nothing,
    Erase,
    /// Loads the cover unless it is kept already, and draws it.
    Fetch { id: String, url: String },
    /// Draws the image beside this file; without one [`App::no_cover`].
    Beside { path: String },
}

/// What a station's logo is known by: the station's id, or the hash of its
/// stream.
pub open spec fn logo_id(s: Station) -> Seq<char> {
    if s.uuid@.len() > 0 {
        s.uuid@
    } else {
        hex(name_hash(s.url@) as nat, 16)
    }
}

/// A station's logo, where it has one.
pub open spec fn logo(s: Station) -> Option<(Seq<char>, Seq<char>)> {
    if s.favicon@.len() > 0 {
        Some((logo_id(s), s.favicon@))
    } else {
        None
    }
}

fn logo_of(s: &Station) -> (r: Option<(String, String)>)
    ensures
        opt_pair(r) == logo(*s),
{
    if s.favicon.as_str().is_empty() {
        return None;
    }
    let id: String = if !s.uuid.as_str().is_empty() {
        s.uuid.clone()
    } else {
        hex_of(hash_of_name(&s.url), 16)
    };
    Some((id, s.favicon.clone()))
}

impl App {
    /// The file that mpv plays.
    pub open spec fn file_playing(self) -> Option<Seq<char>> {
        match self.mpv {
            Some(m) => if m.source is Files && m.state.path@.len() > 0 {
                Some(m.state.path@)
            } else {
                None
            },
            None => None,
        }
    }

    /// The cover of what plays: what it is known by and the image's address.
    /// A file's cover has none, but stands beside it.
    pub open spec fn cover_wanted(self) -> Option<(Seq<char>, Seq<char>)> {
        if self.mpv is Some {
            match (self.mpv->0).source {
                Source::Radio(s) => logo(s),
                Source::Files => None,
            }
        } else {
            self.spotify_cover()
        }
    }

    /// The cover of what Spotify plays.
    pub open spec fn spotify_cover(self) -> Option<(Seq<char>, Seq<char>)> {
        match self.playback {
            Some(p) => match p.item {
                Some(i) => cover(i),
                None => None,
            },
            None => None,
        }
    }

    fn cover_to_show(&self) -> (r: Option<(String, String)>)
        ensures
            opt_pair(r) == self.cover_wanted(),
    {
        if let Some(m) = &self.mpv {
            return match &m.source {
                Source::Radio(s) => logo_of(s),
                Source::Files => None,
            };
        }
        match &self.playback {
            Some(p) => match &p.item {
                Some(i) => cover_id_and_url(i),
                None => None,
            },
            None => None,
        }
    }

    /// Whether the cover of this item is on the screen.
    pub open spec fn cover_is(self, id: Seq<char>) -> bool {
        match self.cover_track_id {
            Some(x) => x@ == id,
            None => false,
        }
    }

    /// Compares the cover on the screen with what plays.
    pub fn sync_cover(&mut self) -> (r: CoverAction)
        ensures
            match old(self).file_playing() {
                Some(path) => {
                    &&& *final(self) == *old(self)
                    &&& old(self).cover_is(path) ==> r is Nothing
                    &&& !old(self).cover_is(path) ==> match r {
                        CoverAction::Beside { path: p } => p@ == path,
                        _ => false,
                    }
                },
                None => old(self).synced(*final(self), r),
            },
            old(self).wf() ==> final(self).wf(),
    {
        if let Some(m) = &self.mpv {
            if let Source::Files = &m.source {
                if !m.state.path.as_str().is_empty() {
                    if let Some(x) = &self.cover_track_id {
                        if *x == m.state.path {
                            return CoverAction::Nothing;
                        }
                    }
                    return CoverAction::Beside { path: m.state.path.clone() };
                }
            }
        }
        self.sync_fetched()
    }

    /// Whether `after` and `r` are what comes of a cover that is loaded by its
    /// address.
    pub open spec fn synced(self, after: App, r: CoverAction) -> bool {
        match self.cover_wanted() {
            None => {
                &&& r == (if self.cover_track_id is Some {
                    CoverAction::Erase
                } else {
                    CoverAction::Nothing
                })
                &&& after == (App { cover_track_id: None, ..self })
            },
            Some((id, url)) => {
                &&& after == self
                &&& self.cover_is(id) ==> r is Nothing
                &&& !self.cover_is(id) ==> match r {
                    CoverAction::Fetch { id: i, url: u } => i@ == id && u@ == url,
                    _ => false,
                }
            },
        }
    }

    fn sync_fetched(&mut self) -> (r: CoverAction)
        ensures
            old(self).synced(*final(self), r),
    {
        match self.cover_to_show() {
            None => self.no_cover(),
            Some((id, url)) => {
                if let Some(x) = &self.cover_track_id {
                    if *x == id {
                        return CoverAction::Nothing;
                    }
                }
                CoverAction::Fetch { id, url }
            },
        }
    }

    /// There is no cover to show.
    pub fn no_cover(&mut self) -> (r: CoverAction)
        ensures
            r == (if old(self).cover_track_id is Some {
                CoverAction::Erase
            } else {
                CoverAction::Nothing
            }),
            *final(self) == (App { cover_track_id: None, ..*old(self) }),
            old(self).wf() ==> final(self).wf(),
    {
        if self.cover_track_id.is_none() {
            return CoverAction::Nothing;
        }
        self.cover_track_id = None;
        CoverAction::Erase
    }

    /// The cover of this item is on the screen now.
    pub fn cover_placed(&mut self, id: String)
        ensures
            *final(self) == (App { cover_track_id: Some(id), ..*old(self) }),
            old(self).wf() ==> final(self).wf(),
    {
        self.cover_track_id = Some(id);
    }
}

/// Once the cover of what plays is drawn, it is the one that stays.
pub proof fn law_placed_cover_stays(a: App, id: String)
    requires
        a.cover_wanted() is Some,
        (a.cover_wanted()->0).0 == id@,
    ensures
        (App { cover_track_id: Some(id), ..a }).cover_wanted() == a.cover_wanted(),
        (App { cover_track_id: Some(id), ..a }).cover_is((a.cover_wanted()->0).0),
{
}

// ---- Scrolling ------------------------------------------------------

/// How many lines stand above the first row of a list.
pub const LINES_ABOVE: usize = 3;

/// How many lines stay in view around the row of the cursor.
pub const MARGIN: usize = 3;

/// The first line in view, so that the row of the cursor is in view too:
/// `top` was the first one before, `idx` is the cursor and `h` the height.
pub open spec fn scrolled(top: int, idx: int, h: int) -> int {
    let line = LINES_ABOVE + idx;
    if line < top + MARGIN {
        line - MARGIN
    } else if line + MARGIN > top + h - 1 {
        line + MARGIN + 1 - h
    } else {
        top
    }
}

impl App {
    /// Scrolls the list in a view of height `h`, so that the row of the
    /// cursor stays in view. The help has no cursor and stays.
    pub fn adjust_main_scroll(&mut self, h: u16)
        requires
            h > 0 && old(self).main_len() is Some ==> {
                &&& old(self).scroll + MARGIN <= usize::MAX
                &&& old(self).scroll + h - 1 <= usize::MAX
                &&& old(self).main_idx() + LINES_ABOVE + MARGIN + 1 <= usize::MAX
            },
        ensures
            *final(self) == (App {
                scroll: if h == 0 || old(self).main_len() is None {
                    old(self).scroll
                } else {
                    scrolled(old(self).scroll as int, old(self).main_idx() as int, h as int) as usize
                },
                ..*old(self)
            }),
            old(self).wf() ==> final(self).wf(),
    {
        if h == 0 {
            return;
        }
        let (idx, len) = self.main_indices();
        if len.is_none() {
            return;
        }
        let line: usize = LINES_ABOVE + idx;
        if line < self.scroll + MARGIN {
            self.scroll = line - MARGIN;
        } else if line + MARGIN > self.scroll + (h as usize - 1) {
            self.scroll = line + MARGIN + 1 - h as usize;
        }
    }
}

impl App {
    /// Scrolls the releases beside the search results in the same way.
    pub fn adjust_side_scroll(&mut self, h: u16)
        requires
            match old(self).releases {
                Some(l) => h > 0 ==> {
                    &&& old(self).side_scroll + MARGIN <= usize::MAX
                    &&& old(self).side_scroll + h - 1 <= usize::MAX
                    &&& l.idx + LINES_ABOVE + MARGIN + 1 <= usize::MAX
                },
                None => true,
            },
        ensures
            *final(self) == (App {
                side_scroll: match old(self).releases {
                    Some(l) => if h > 0 {
                        scrolled(old(self).side_scroll as int, l.idx as int, h as int) as usize
                    } else {
                        old(self).side_scroll
                    },
                    None => old(self).side_scroll,
                },
                ..*old(self)
            }),
            old(self).wf() ==> final(self).wf(),
    {
        if h == 0 {
            return;
        }
        let idx: usize = match &self.releases {
            Some(l) => l.idx,
            None => {
                return;
            },
        };
        let line: usize = LINES_ABOVE + idx;
        if line < self.side_scroll + MARGIN {
            self.side_scroll = line - MARGIN;
        } else if line + MARGIN > self.side_scroll + (h as usize - 1) {
            self.side_scroll = line + MARGIN + 1 - h as usize;
        }
    }
}

/// The row of the cursor is in view wherever there is room for a row below
/// the heading; with room for the margin on both sides, the margin is too.
pub proof fn law_cursor_stays_in_view(top: int, idx: int, h: int)
    requires
        0 <= top,
        0 <= idx,
        h > LINES_ABOVE,
    ensures
        0 <= scrolled(top, idx, h),
        scrolled(top, idx, h) <= LINES_ABOVE + idx < scrolled(top, idx, h) + h,
        h > 2 * MARGIN ==> scrolled(top, idx, h) + MARGIN <= LINES_ABOVE + idx && LINES_ABOVE + idx + MARGIN < scrolled(
            top,
            idx,
            h,
        ) + h,
{
}

/// A cursor that did not move scrolls nothing more.
pub proof fn law_scrolling_settles(top: int, idx: int, h: int)
    requires
        0 <= top,
        0 <= idx,
        h > 2 * MARGIN,
    ensures
        scrolled(scrolled(top, idx, h), idx, h) == scrolled(top, idx, h),
{
}

// ---- Laws of covers and scrolling -----------------------------------

/// The cover is that of what plays: of mpv's station while mpv plays one, and
/// of Spotify's item while there is no mpv; a file's stands beside it.
pub proof fn law_whose_cover_is_shown(a: App)
    ensures
        a.mpv is None && a.playback is Some && (a.playback->0).item is Some ==> a.cover_wanted() == cover(
            (a.playback->0).item->0,
        ),
        a.mpv is None && (a.playback is None || (a.playback->0).item is None) ==> a.cover_wanted() is None,
        a.mpv is Some && (a.mpv->0).source is Radio ==> a.cover_wanted() == logo((a.mpv->0).source->Radio_0),
        a.mpv is Some && (a.mpv->0).source is Files ==> a.cover_wanted() is None,
        a.file_playing() is Some <==> a.mpv is Some && (a.mpv->0).source is Files && (a.mpv->0).state.path@.len() > 0,
        a.file_playing() is Some ==> a.file_playing()->0 == (a.mpv->0).state.path@,
{
}

/// A station's logo is the image that it names, kept by the station's id where
/// it has one.
pub proof fn law_logos(s: Station)
    ensures
        s.favicon@.len() == 0 ==> logo(s) is None,
        s.favicon@.len() > 0 ==> logo(s) is Some && (logo(s)->0).1 == s.favicon@,
        s.favicon@.len() > 0 && s.uuid@.len() > 0 ==> (logo(s)->0).0 == s.uuid@,
        s.favicon@.len() > 0 && s.uuid@.len() == 0 ==> (logo(s)->0).0 == hex(name_hash(s.url@) as nat, 16),
{
}

/// A cover is loaded only where another one is wanted than the one on the
/// screen, and erased only where one is on the screen and none is wanted.
pub proof fn law_covers_change_only_when_they_have_to(a: App, b: App, r: CoverAction)
    requires
        a.synced(b, r),
    ensures
        a.cover_wanted() is Some && a.cover_track_id is Some && (a.cover_track_id->0)@ == (a.cover_wanted()->0).0
            ==> r is Nothing && b == a,
        a.cover_wanted() is Some && (a.cover_track_id is None || (a.cover_track_id->0)@ != (a.cover_wanted()->0).0)
            ==> b == a && (r matches CoverAction::Fetch { id, url } && id@ == (a.cover_wanted()->0).0 && url@ == (
        a.cover_wanted()->0).1),
        a.cover_wanted() is None && a.cover_track_id is Some ==> r is Erase,
        a.cover_wanted() is None && a.cover_track_id is None ==> r is Nothing,
        a.cover_wanted() is None ==> b == (App { cover_track_id: None, ..a }),
{
}

/// The list scrolls only when the cursor comes nearer to an edge than the
/// margin, and then no further than it has to.
pub proof fn law_scrolling_goes_no_further(top: int, idx: int, h: int)
    ensures
        top + 3 <= 3 + idx && 3 + idx + 3 <= top + h - 1 ==> scrolled(top, idx, h) == top,
        3 + idx < top + 3 ==> scrolled(top, idx, h) + 3 == 3 + idx,
        3 + idx + 3 > top + h - 1 && 3 + idx >= top + 3 ==> scrolled(top, idx, h) + h - 1 == 3 + idx + 3,
        MARGIN == 3,
        LINES_ABOVE == 3,
{
}

/// A cover is on the screen exactly where it was the last to be placed.
pub proof fn law_which_cover_is_on_the_screen(a: App, id: Seq<char>)
    ensures
        a.cover_is(id) <==> a.cover_track_id is Some && (a.cover_track_id->0)@ == id,
{
}

}
