//! What Spotify sends back: search results, lists, and what plays.

use vstd::prelude::*;
use crate::app::{shows, App, SearchRow};
use crate::playback::{max_time, Artist, Device, Item, Playback, Playlist, Track};
use crate::text::{concat, trim, trimmed};
use crate::theme::ERR;

verus! {

// ---- Search ---------------------------------------------------------

/// How many artists are asked for.
pub const ARTISTS_ASKED: u32 = 5;

/// How many tracks are asked for. Spotify refuses a request for more.
pub const TRACKS_ASKED: u32 = 10;

/// Spotify's answer to a search.
#[derive(Debug)]
pub enum Answer<T> {
    Items(Vec<T>),
    /// An answer of another kind than was asked for.
    Other,
    Failed(String),
}

/// What an answer brought.
pub open spec fn brought<T>(a: Answer<T>) -> Seq<T> {
    match a {
        Answer::Items(v) => v@,
        _ => Seq::empty(),
    }
}

/// The rows for what was found: artists first, then tracks.
pub open spec fn found(artists: Answer<Artist>, tracks: Answer<Track>) -> Seq<SearchRow> {
    brought(artists).map_values(|a: Artist| SearchRow::Artist(a)) + brought(tracks).map_values(
        |t: Track| SearchRow::Track(t),
    )
}

/// Whether a status is what a search leaves: a failure of the tracks comes
/// before one of the artists, and without either the message stays.
pub open spec fn searched(
    before: Option<(String, u8)>,
    after: Option<(String, u8)>,
    artists: Answer<Artist>,
    tracks: Answer<Track>,
) -> bool {
    match (artists, tracks) {
        (_, Answer::Failed(e)) => shows(after, "Search failed: "@ + e@, ERR),
        (_, Answer::Other) => shows(after, "Unexpected response shape"@, ERR),
        (Answer::Failed(e), _) => shows(after, "Search (artists) failed: "@ + e@, ERR),
        _ => after == before,
    }
}

impl App {
    /// Takes what was typed at the prompt, without the white space around it,
    /// and says whether there is something to search for.
    pub fn begin_search(&mut self, typed: &str) -> (r: bool)
        ensures
            r == (trimmed(typed@).len() > 0),
            r ==> final(self).search_query@ == trimmed(typed@),
            r ==> *final(self) == (App { search_query: final(self).search_query, ..*old(self) }),
            !r ==> *final(self) == *old(self),
    {
        let q = trim(typed);
        if q.as_str().is_empty() {
            return false;
        }
        self.search_query = q;
        true
    }

    /// Lists what was found, artists first. The releases of an artist found
    /// before go.
    pub fn finish_search(&mut self, artists: Answer<Artist>, tracks: Answer<Track>)
        ensures
            final(self).search_results@ == found(artists, tracks),
            final(self).search_idx == 0,
            searched(old(self).status, final(self).status, artists, tracks),
            *final(self) == (App {
                search_results: final(self).search_results,
                search_idx: 0,
                releases: None,
                side_scroll: 0,
                status: final(self).status,
                ..*old(self)
            }),
            old(self).wf() ==> final(self).wf(),
    {
        let ghost a0 = brought(artists);
        let ghost t0 = brought(tracks);
        let ghost af = a0.map_values(|a: Artist| SearchRow::Artist(a));
        let ghost tf = t0.map_values(|t: Track| SearchRow::Track(t));
        let mut rows: Vec<SearchRow> = Vec::new();
        match artists {
            Answer::Items(v) => {
                for a in it: v
                    invariant
                        it.seq() == a0,
                        af == a0.map_values(|a: Artist| SearchRow::Artist(a)),
                        rows@ == af.take(it.index() as int),
                {
                    rows.push(SearchRow::Artist(a));
                    assert(rows@ =~= af.take(it.index() as int + 1));
                }
            },
            Answer::Other => {},
            Answer::Failed(e) => {
                self.set_status(&concat("Search (artists) failed: ", &e), ERR);
            },
        }
        assert(rows@ =~= af);
        match tracks {
            Answer::Items(v) => {
                for t in it: v
                    invariant
                        it.seq() == t0,
                        tf == t0.map_values(|t: Track| SearchRow::Track(t)),
                        rows@ == af + tf.take(it.index() as int),
                {
                    rows.push(SearchRow::Track(t));
                    assert(rows@ =~= af + tf.take(it.index() as int + 1));
                }
            },
            Answer::Other => {
                self.set_status("Unexpected response shape", ERR);
            },
            Answer::Failed(e) => {
                self.set_status(&concat("Search failed: ", &e), ERR);
            },
        }
        assert(rows@ =~= af + tf);
        self.search_results = rows;
        self.search_idx = 0;
        self.releases = None;
        self.side_scroll = 0;
    }
}

/// Artists stand before tracks in the search results.
pub proof fn law_artists_stand_first(artists: Answer<Artist>, tracks: Answer<Track>, i: int, j: int)
    requires
        0 <= i < found(artists, tracks).len(),
        0 <= j < found(artists, tracks).len(),
        found(artists, tracks)[i] is Artist,
        found(artists, tracks)[j] is Track,
    ensures
        i < j,
{
}

// ---- Loading --------------------------------------------------------

/// How many playlists, and how many saved tracks, are loaded at most.
pub const LIBRARY_LIMIT: usize = 200;

/// How many tracks of a playlist are loaded at most.
pub const PLAYLIST_LIMIT: usize = 500;

/// One reply while a list is loaded.
#[derive(Debug)]
pub enum Loaded<T> {
    Item(T),
    /// An item that does not belong into the list.
    Other,
    Failed,
}

/// The list after one more reply.
pub open spec fn with_reply<T>(list: Seq<T>, reply: Loaded<T>) -> Seq<T> {
    match reply {
        Loaded::Item(x) => list.push(x),
        _ => list,
    }
}

/// Takes one reply, and says whether to ask for the next.
pub fn take_reply<T>(list: &mut Vec<T>, reply: Loaded<T>, limit: usize) -> (more: bool)
    ensures
        final(list)@ == with_reply(old(list)@, reply),
        more == (!(reply is Failed) && final(list)@.len() < limit),
{
    match reply {
        Loaded::Item(x) => {
            list.push(x);
        },
        Loaded::Other => {},
        Loaded::Failed => {
            return false;
        },
    }
    list.len() < limit
}

/// A reply about an item of a playlist, as one about a track: what is no track
/// does not belong into the list.
pub open spec fn track_reply(reply: Loaded<Item>) -> Loaded<Track> {
    match reply {
        Loaded::Item(Item::Track(t)) => Loaded::Item(t),
        Loaded::Item(_) => Loaded::Other,
        Loaded::Other => Loaded::Other,
        Loaded::Failed => Loaded::Failed,
    }
}

/// Whether each track of a list stands in the playlist `items` at the place
/// that is given for it.
pub open spec fn placed(items: Seq<Loaded<Item>>, tracks: Seq<Track>, places: Seq<usize>) -> bool {
    &&& places.len() == tracks.len()
    &&& forall|k: int|
        0 <= k < tracks.len() ==> (#[trigger] places[k]) < items.len() && items[places[k] as int] == Loaded::Item(
            Item::Track(tracks[k]),
        )
}

/// A playlist while it is loaded: its tracks, where each of them stands in it,
/// and how many items came so far.
#[derive(Debug)]
pub struct PlaylistLoad {
    pub tracks: Vec<Track>,
    pub places: Vec<usize>,
    pub seen: usize,
}

impl PlaylistLoad {
    /// Whether this is what a playlist gives whose first items are `items`.
    pub open spec fn holds(self, items: Seq<Loaded<Item>>) -> bool {
        self.seen == items.len() && placed(items, self.tracks@, self.places@)
    }

    pub fn new() -> (r: PlaylistLoad)
        ensures
            r.tracks@.len() == 0,
            r.places@.len() == 0,
            r.seen == 0,
            r.holds(Seq::empty()),
    {
        PlaylistLoad { tracks: Vec::new(), places: Vec::new(), seen: 0 }
    }

    /// Takes one item of the playlist, and says whether to ask for the next.
    pub fn take(&mut self, reply: Loaded<Item>, limit: usize) -> (more: bool)
        requires
            old(self).seen < usize::MAX,
        ensures
            final(self).tracks@ == with_reply(old(self).tracks@, track_reply(reply)),
            final(self).places@ == (if track_reply(reply) is Item {
                old(self).places@.push(old(self).seen)
            } else {
                old(self).places@
            }),
            final(self).seen == old(self).seen + 1,
            more == (!(reply is Failed) && final(self).tracks@.len() < limit),
            forall|items: Seq<Loaded<Item>>| #[trigger]
                old(self).holds(items) ==> final(self).holds(items.push(reply)),
    {
        let place: usize = self.seen;
        self.seen = place + 1;
        let ghost given = reply;
        let more: bool = match reply {
            Loaded::Item(Item::Track(t)) => {
                self.tracks.push(t);
                self.places.push(place);
                self.tracks.len() < limit
            },
            Loaded::Failed => false,
            _ => self.tracks.len() < limit,
        };
        proof {
            let now = *self;
            assert forall|items: Seq<Loaded<Item>>| #[trigger] old(self).holds(items) implies now.holds(items.push(given)) by {
                let next = items.push(given);
                assert forall|k: int| 0 <= k < now.tracks@.len() implies (#[trigger] now.places@[k]) < next.len()
                    && next[now.places@[k] as int] == Loaded::Item(Item::Track(now.tracks@[k])) by {
                    if k < old(self).tracks@.len() {
                        assert(now.places@[k] == old(self).places@[k]);
                    }
                }
            }
        }
        more
    }
}

/// The list that loading ends with, when replies come in this order.
pub open spec fn loading<T>(list: Seq<T>, replies: Seq<Loaded<T>>, limit: nat) -> Seq<T>
    decreases replies.len(),
{
    if replies.len() == 0 {
        list
    } else {
        let l = with_reply(list, replies[0]);
        if !(replies[0] is Failed) && l.len() < limit {
            loading(l, replies.drop_first(), limit)
        } else {
            l
        }
    }
}

/// The items that come before the first failure.
pub open spec fn before_failure<T>(replies: Seq<Loaded<T>>) -> Seq<T>
    decreases replies.len(),
{
    if replies.len() == 0 {
        Seq::empty()
    } else {
        match replies[0] {
            Loaded::Item(x) => seq![x] + before_failure(replies.drop_first()),
            Loaded::Other => before_failure(replies.drop_first()),
            Loaded::Failed => Seq::empty(),
        }
    }
}

proof fn lemma_loading<T>(list: Seq<T>, replies: Seq<Loaded<T>>, limit: nat)
    requires
        list.len() < limit,
    ensures
        loading(list, replies, limit) == (list + before_failure(replies)).take(
            if list.len() + before_failure(replies).len() < limit {
                (list.len() + before_failure(replies).len()) as int
            } else {
                limit as int
            },
        ),
    decreases replies.len(),
{
    let all = list + before_failure(replies);
    if replies.len() == 0 {
        assert(all.take(all.len() as int) =~= list);
    } else {
        let l = with_reply(list, replies[0]);
        let rest = replies.drop_first();
        match replies[0] {
            Loaded::Item(x) => {
                assert(all =~= l + before_failure(rest));
                if l.len() < limit {
                    lemma_loading(l, rest, limit);
                } else {
                    assert(all.take(limit as int) =~= l);
                }
            },
            Loaded::Other => {
                lemma_loading(l, rest, limit);
            },
            Loaded::Failed => {
                assert(all.take(all.len() as int) =~= list);
            },
        }
    }
}

/// Loading keeps the items in the order in which they came, up to the first
/// failure and up to the limit.
pub proof fn law_loading_keeps_the_first_items<T>(replies: Seq<Loaded<T>>, limit: nat)
    requires
        limit > 0,
    ensures
        loading(Seq::<T>::empty(), replies, limit) == before_failure(replies).take(
            if before_failure(replies).len() < limit {
                before_failure(replies).len() as int
            } else {
                limit as int
            },
        ),
{
    lemma_loading(Seq::<T>::empty(), replies, limit);
    assert(Seq::<T>::empty() + before_failure(replies) =~= before_failure(replies));
}

/// The tracks among what can play.
pub open spec fn tracks_in(items: Seq<Item>) -> Seq<Track>
    decreases items.len(),
{
    if items.len() == 0 {
        Seq::empty()
    } else {
        match items.last() {
            Item::Track(t) => tracks_in(items.drop_last()).push(t),
            _ => tracks_in(items.drop_last()),
        }
    }
}

impl App {
    /// Takes the user's playlists, unless they are there already.
    pub fn ensure_playlists_loaded(&mut self, playlists: Vec<Playlist>)
        ensures
            *final(self) == (if old(self).playlists@.len() == 0 {
                App { playlists, ..*old(self) }
            } else {
                *old(self)
            }),
            old(self).wf() ==> final(self).wf(),
    {
        if self.playlists.len() == 0 {
            self.playlists = playlists;
        }
    }

    /// Takes the saved tracks, unless they are there already.
    pub fn ensure_saved_loaded(&mut self, tracks: Vec<Track>)
        ensures
            *final(self) == (if old(self).saved_tracks@.len() == 0 {
                App { saved_tracks: tracks, ..*old(self) }
            } else {
                *old(self)
            }),
            old(self).wf() ==> final(self).wf(),
    {
        if self.saved_tracks.len() == 0 {
            self.saved_tracks = tracks;
        }
    }

    /// What plays next: the tracks, without anything else that is queued.
    pub fn ensure_queue_loaded(&mut self, items: Vec<Item>)
        ensures
            final(self).queue@ == tracks_in(items@),
            *final(self) == (App { queue: final(self).queue, ..*old(self) }),
            old(self).wf() ==> final(self).wf(),
    {
        let ghost all = items@;
        let mut out: Vec<Track> = Vec::new();
        for x in it: items
            invariant
                it.seq() == all,
                out@ == tracks_in(all.take(it.index() as int)),
        {
            proof {
                let k = it.index() as int;
                assert(all.take(k + 1).drop_last() =~= all.take(k));
                assert(all.take(k + 1).last() == x);
            }
            if let Item::Track(t) = x {
                out.push(t);
            }
        }
        assert(all.take(all.len() as int) =~= all);
        self.queue = out;
    }

    /// Takes the devices that are online.
    pub fn load_devices(&mut self, devices: Vec<Device>)
        ensures
            *final(self) == (App { devices, ..*old(self) }),
            old(self).wf() ==> final(self).wf(),
    {
        self.devices = devices;
    }
}

// ---- Polling --------------------------------------------------------

/// A second, in nanoseconds.
pub const SECOND: u128 = 1_000_000_000;

/// How many seconds lie between two requests for what plays: as configured,
/// but at least one.
pub open spec fn poll_interval(poll_s: u64) -> u64 {
    if poll_s < 1 {
        1
    } else {
        poll_s
    }
}

/// Whether it is time to ask what plays, so many nanoseconds after the last
/// request.
pub fn poll_due(elapsed_ns: u128, poll_s: u64) -> (r: bool)
    ensures
        r == (elapsed_ns >= poll_interval(poll_s) * SECOND),
{
    let s: u64 = if poll_s < 1 {
        1
    } else {
        poll_s
    };
    elapsed_ns >= s as u128 * SECOND
}

/// How the progress moved on by itself.
#[derive(Debug, Clone, Copy, PartialEq, Eq, Structural)]
pub enum Tick {
    /// Less than a second has passed. The time goes on.
    Early,
    /// Nothing plays. The time starts again.
    Idle,
    /// The time starts again, and what plays is drawn again.
    Moved,
}

/// By how much the progress moves; a time that cannot be told moves nothing.
pub open spec fn bump(elapsed_ns: u128) -> int {
    if elapsed_ns <= max_time() {
        elapsed_ns as int
    } else {
        0
    }
}

/// What plays, so many nanoseconds later.
pub open spec fn moved_on(p: Playback, elapsed_ns: u128) -> Playback {
    Playback {
        progress_ns: match p.progress_ns {
            Some(ns) => Some((ns + bump(elapsed_ns)) as i128),
            None => None,
        },
        ..p
    }
}

impl App {
    /// Takes what Spotify says is playing.
    pub fn poll_state(&mut self, playback: Option<Playback>)
        requires
            match playback {
                Some(p) => p.wf(),
                None => true,
            },
        ensures
            *final(self) == (App { playback, ..*old(self) }),
            old(self).wf() ==> final(self).wf(),
    {
        self.playback = playback;
    }

    /// Moves the progress on between two polls, at most once a second and
    /// only while something plays.
    pub fn tick_progress(&mut self, elapsed_ns: u128) -> (r: Tick)
        requires
            old(self).wf(),
            elapsed_ns >= SECOND && old(self).is_playing() ==> moved_on(old(self).playback->0, elapsed_ns).wf(),
        ensures
            r == (if elapsed_ns < SECOND {
                Tick::Early
            } else if !old(self).is_playing() {
                Tick::Idle
            } else {
                Tick::Moved
            }),
            r != Tick::Moved ==> *final(self) == *old(self),
            r == Tick::Moved ==> *final(self) == (App {
                playback: Some(moved_on(old(self).playback->0, elapsed_ns)),
                ..*old(self)
            }),
            final(self).wf(),
    {
        if elapsed_ns < SECOND {
            return Tick::Early;
        }
        let playing: bool = match &self.playback {
            Some(p) => p.is_playing,
            None => false,
        };
        if !playing {
            return Tick::Idle;
        }
        if let Some(p) = &mut self.playback {
            if let Some(ns) = p.progress_ns {
                let d: i128 = if elapsed_ns <= i64::MAX as u128 * 1_000_000 {
                    elapsed_ns as i128
                } else {
                    0
                };
                p.progress_ns = Some(ns + d);
            }
        }
        Tick::Moved
    }
}

// ---- Laws of what is loaded -----------------------------------------

/// The rows of a search are what Spotify answered, every item of it in its
/// order; a request that failed adds no row.
pub proof fn law_every_answer_has_its_rows(artists: Answer<Artist>, tracks: Answer<Track>, i: int)
    ensures
        match (artists, tracks) {
            (Answer::Items(v), Answer::Items(w)) => {
                &&& found(artists, tracks).len() == v@.len() + w@.len()
                &&& 0 <= i < v@.len() ==> found(artists, tracks)[i] == SearchRow::Artist(v@[i])
                &&& 0 <= i < w@.len() ==> found(artists, tracks)[v@.len() + i] == SearchRow::Track(w@[i])
            },
            (_, Answer::Items(w)) => {
                &&& found(artists, tracks).len() == w@.len()
                &&& 0 <= i < w@.len() ==> found(artists, tracks)[i] == SearchRow::Track(w@[i])
            },
            (Answer::Items(v), _) => {
                &&& found(artists, tracks).len() == v@.len()
                &&& 0 <= i < v@.len() ==> found(artists, tracks)[i] == SearchRow::Artist(v@[i])
            },
            _ => found(artists, tracks).len() == 0,
        },
{
}

/// A failed search is told, that of the tracks before that of the artists.
pub proof fn law_failed_searches_are_told(
    before: Option<(String, u8)>,
    after: Option<(String, u8)>,
    artists: Answer<Artist>,
    tracks: Answer<Track>,
)
    requires
        searched(before, after, artists, tracks),
    ensures
        tracks is Failed ==> shows(after, "Search failed: "@ + (tracks->Failed_0)@, ERR),
        tracks is Other ==> shows(after, "Unexpected response shape"@, ERR),
        tracks is Items && artists is Failed ==> shows(after, "Search (artists) failed: "@ + (artists->Failed_0)@, ERR),
        tracks is Items && !(artists is Failed) ==> after == before,
{
}

/// A reply adds its item at the end of the list; any other reply adds nothing.
pub proof fn law_replies_add_their_items<T>(list: Seq<T>, x: T)
    ensures
        with_reply(list, Loaded::Item(x)) == list.push(x),
        with_reply(list, Loaded::Other) == list,
        with_reply(list, Loaded::Failed) == list,
{
}

/// Of a playlist its tracks are listed, and nothing else that it holds.
pub proof fn law_only_tracks_are_listed(item: Item, t: Track)
    ensures
        track_reply(Loaded::Item(Item::Track(t))) == Loaded::Item(t),
        !(item is Track) ==> track_reply(Loaded::Item(item)) is Other,
        track_reply(Loaded::Other) is Other,
        track_reply(Loaded::Failed) is Failed,
{
}

/// Of what plays next the tracks are listed, all of them in their order.
pub proof fn law_tracks_of_both(a: Seq<Item>, b: Seq<Item>)
    ensures
        tracks_in(a + b) == tracks_in(a) + tracks_in(b),
        tracks_in(Seq::empty()) == Seq::<Track>::empty(),
        b.len() == 1 && b[0] is Track ==> tracks_in(b) == seq![b[0]->Track_0],
        b.len() == 1 && !(b[0] is Track) ==> tracks_in(b).len() == 0,
    decreases b.len(),
{
    if b.len() == 0 {
        assert(a + b =~= a);
        assert(tracks_in(a) + tracks_in(b) =~= tracks_in(a));
    } else {
        law_tracks_of_both(a, b.drop_last());
        assert((a + b).drop_last() =~= a + b.drop_last());
        assert((a + b).last() == b.last());
        assert(tracks_in(a + b) =~= tracks_in(a) + tracks_in(b));
        if b.len() == 1 {
            assert(b.drop_last() =~= Seq::<Item>::empty());
        }
    }
}

/// Spotify is asked as often as the settings say, but at most once a second.
pub proof fn law_polls_come_as_often_as_set(poll_s: u64)
    ensures
        poll_s >= 1 ==> poll_interval(poll_s) == poll_s,
        poll_s == 0 ==> poll_interval(poll_s) == 1,
        SECOND == 1_000_000_000,
{
}

/// Between two polls the progress moves on by the time that has passed, as far
/// as that can be told, and nothing else of what plays changes.
pub proof fn law_the_progress_moves_with_the_time(p: Playback, elapsed_ns: u128)
    requires
        p.wf(),
    ensures
        p.progress_ns is Some && elapsed_ns <= 9_223_372_036_854_775_807 * 1_000_000 ==> moved_on(p, elapsed_ns).progress_ns
            == Some((p.progress_ns->0 + elapsed_ns) as i128),
        elapsed_ns > 9_223_372_036_854_775_807 * 1_000_000 ==> moved_on(p, elapsed_ns).progress_ns == p.progress_ns,
        p.progress_ns is None ==> moved_on(p, elapsed_ns).progress_ns is None,
        moved_on(p, elapsed_ns) == (Playback { progress_ns: moved_on(p, elapsed_ns).progress_ns, ..p }),
{
}

/// How much is asked for and loaded.
pub proof fn law_how_much_is_loaded()
    ensures
        ARTISTS_ASKED == 5,
        TRACKS_ASKED == 10,
        LIBRARY_LIMIT == 200,
        PLAYLIST_LIMIT == 500,
{
}

}
