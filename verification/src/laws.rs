//! What calls give, and how two calls relate: each law is about the functions
//! themselves, through what they promise.

use vstd::prelude::*;
use crate::app::{App, Screen, SearchRow};
use crate::auth::{need_reauth, parse_callback, reads_as, refresh_or_reauthorize, Callback, Refresh};
use crate::command::{polls_after, Activation, Command};
use crate::config::Config;
use crate::keys::Step;
use crate::load::{poll_due, take_reply, Answer, Loaded, PlaylistLoad, Tick};
use crate::local::{list_dir, Entry, Mpv, Report, Source};
use crate::pane::CoverAction;
use crate::playback::{Artist, Item, Playback, Playlist, RepeatState, Track};
use crate::player::{device_id_in_order, local_play, LocalPlay};
use crate::radio::{
    count_play, fetch, in_country, keep, keeps, remove, same, search, search_on, Fetch, Request, Search, Station,
};
use crate::releases::{Release, ReleaseRow};
use crate::screen::{layout, Layout, Line};
use crate::text::{lowercase, text_le, texts, trimmed, words};

verus! {

// ---- ENTER and the queue --------------------------------------------

/// ENTER on a liked song plays the song of that row where Spotify plays, and
/// ends mpv.
pub proof fn law_enter_on_a_liked_song(m: &mut App, r: Activation, track: String, device: String)
    requires
        call_ensures(App::list_activate, (m,), r),
        old(m).screen == Screen::Saved,
        old(m).saved_idx < old(m).saved_tracks@.len(),
        old(m).saved_tracks@[old(m).saved_idx as int].id == Some(track),
        old(m).playback is Some,
        (old(m).playback->0).device.id == Some(device),
    ensures
        r == Activation::Send(Command::PlayTrack { track, device }),
        final(m).mpv is None,
        final(m).saved_tracks == old(m).saved_tracks && final(m).saved_idx == old(m).saved_idx,
{
}

/// ENTER on a queued song plays the song of that row.
pub proof fn law_enter_on_a_queued_song(m: &mut App, r: Activation, track: String, device: String)
    requires
        call_ensures(App::list_activate, (m,), r),
        old(m).screen == Screen::Queue,
        old(m).queue_idx < old(m).queue@.len(),
        old(m).queue@[old(m).queue_idx as int].id == Some(track),
        old(m).playback is Some,
        (old(m).playback->0).device.id == Some(device),
    ensures
        r == Activation::Send(Command::PlayTrack { track, device }),
{
}

/// ENTER on a playlist opens it, and on one of its tracks plays it from that
/// track's place.
pub proof fn law_enter_on_a_playlist(m: &mut App, r: Activation, device: String)
    requires
        call_ensures(App::list_activate, (m,), r),
        old(m).playback is Some,
        (old(m).playback->0).device.id == Some(device),
    ensures
        old(m).screen == Screen::Playlists && old(m).playlists_idx < old(m).playlists@.len() ==> r == Activation::Open(
            old(m).playlists@[old(m).playlists_idx as int],
        ) && final(m).screen == Screen::PlaylistTracks,
        old(m).screen == Screen::PlaylistTracks && old(m).open_playlist is Some && old(m).playlist_tracks_idx
            < old(m).playlist_places@.len() ==> r == Activation::Send(
            Command::PlayPlaylist {
                playlist: (old(m).open_playlist->0).id,
                index: old(m).playlist_places@[old(m).playlist_tracks_idx as int],
                device,
            },
        ),
{
}

/// `a` adds the song of the row to the queue of the device where Spotify plays,
/// whichever list it stands in.
pub proof fn law_adding_a_song_to_the_queue(a: App, r: Option<Command>, device: String)
    requires
        call_ensures(App::queue_current, (&a,), r),
        a.playback is Some,
        (a.playback->0).device.id == Some(device),
    ensures
        a.screen == Screen::Saved && a.saved_idx < a.saved_tracks@.len() ==> match a.saved_tracks@[a.saved_idx as int].id {
            Some(track) => r == Some(Command::Enqueue { track, device: Some(device) }),
            None => r is None,
        },
        a.screen == Screen::Queue && a.queue_idx < a.queue@.len() ==> match a.queue@[a.queue_idx as int].id {
            Some(track) => r == Some(Command::Enqueue { track, device: Some(device) }),
            None => r is None,
        },
        a.screen == Screen::PlaylistTracks && a.playlist_tracks_idx < a.playlist_tracks@.len()
            ==> match a.playlist_tracks@[a.playlist_tracks_idx as int].id {
            Some(track) => r == Some(Command::Enqueue { track, device: Some(device) }),
            None => r is None,
        },
        a.screen == Screen::Search && a.releases is None && a.search_idx < a.search_results@.len()
            ==> match a.search_results@[a.search_idx as int] {
            SearchRow::Track(t) => match t.id {
                Some(track) => r == Some(Command::Enqueue { track, device: Some(device) }),
                None => r is None,
            },
            SearchRow::Artist(_) => r is None,
        },
{
}

/// What ENTER plays and what `a` adds is the same song.
pub proof fn law_enter_and_the_queue_agree(m: &mut App, r: Activation, id: Option<String>)
    requires
        call_ensures(App::current_track_uri, (&*old(m),), id),
        call_ensures(App::list_activate, (m,), r),
    ensures
        r matches Activation::Send(Command::PlayTrack { track, .. }) ==> id == Some(track),
{
}

/// The first device of the list is taken where nothing plays, none is
/// preferred and none is active.
pub proof fn law_the_first_device_is_taken(a: App, r: Option<String>)
    requires
        call_ensures(App::resolve_device_id, (&a,), r),
        a.playback is None,
        a.default_device@.len() == 0,
        a.devices@.len() > 0,
        forall|j: int| 0 <= j < a.devices@.len() ==> !(#[trigger] a.devices@[j]).is_active,
    ensures
        r == a.devices@[0].id,
{
    crate::device::law_without_a_preference_the_active_or_the_first(a, -1, -1);
}

/// The devices are asked for while nothing plays, and again after half a
/// minute.
pub proof fn law_when_devices_are_asked_for(a: App, age: u64, never: bool, known: bool)
    requires
        call_ensures(App::wants_devices, (&a, None), never),
        call_ensures(App::wants_devices, (&a, Some(age)), known),
    ensures
        a.playback is Some && (a.playback->0).device.id is Some ==> !never && !known,
        a.playback is None ==> never && (known <==> age > 30),
{
}

/// What plays is asked for after every command but those that set the volume
/// or add to the queue.
pub proof fn law_when_spotify_is_asked(c: Command, r: bool)
    requires
        call_ensures(polls_after, (&c,), r),
    ensures
        r <==> !(c is Volume) && !(c is Enqueue),
{
}

// ---- Playback keys --------------------------------------------------

/// A skip goes forward or back on the device where Spotify plays.
pub proof fn law_skips(a: App, next: Command, prev: Command, device: String)
    requires
        call_ensures(App::skip_next, (&a,), next),
        call_ensures(App::skip_prev, (&a,), prev),
        a.playback is Some,
        (a.playback->0).device.id == Some(device),
    ensures
        next == (Command::Next { device: Some(device) }),
        prev == (Command::Previous { device: Some(device) }),
{
}

/// Shuffle is turned to what it is not, so that twice leads back.
pub proof fn law_shuffling_twice_leads_back(a: App, p: Playback, first: Command, second: Command)
    requires
        a.playback == Some(p),
        call_ensures(App::toggle_shuffle, (&a,), first),
        call_ensures(
            App::toggle_shuffle,
            (&(App { playback: Some(Playback { shuffle_state: !p.shuffle_state, ..p }), ..a }),),
            second,
        ),
    ensures
        first matches Command::Shuffle { on, device } && on == !p.shuffle_state && (p.device.id is Some ==> device
            == p.device.id),
        second matches Command::Shuffle { on, .. } && on == p.shuffle_state,
{
}

/// Repeat goes from off to the context, to the track, and to off again.
pub proof fn law_repeating(a: App, p: Playback, r: Command)
    requires
        a.playback == Some(p),
        call_ensures(App::cycle_repeat, (&a,), r),
    ensures
        r matches Command::Repeat { mode, device } && (p.device.id is Some ==> device == p.device.id) && (p.repeat_state
            == RepeatState::Off ==> mode == RepeatState::Context) && (p.repeat_state == RepeatState::Context ==> mode
            == RepeatState::Track) && (p.repeat_state == RepeatState::Track ==> mode == RepeatState::Off),
{
}

/// A seek within a track or an episode goes exactly as far as asked, one past
/// its end goes to the end, and one before its start to the start.
pub proof fn law_seeking(a: App, p: Playback, length: i64, cur: i64, delta: i64, r: Command)
    requires
        a.wf(),
        a.playback == Some(p),
        match p.item {
            Some(Item::Track(t)) => length == t.duration_ms,
            Some(Item::Episode(e)) => length == e.duration_ms,
            _ => false,
        },
        0 <= length,
        0 <= cur,
        p.progress_ns is Some,
        cur * 1_000_000 <= p.progress_ns->0 < (cur + 1) * 1_000_000,
        i64::MIN <= cur + delta <= i64::MAX,
        call_ensures(App::seek_relative, (&a, delta), r),
    ensures
        r matches Command::Seek { ms, .. } && (0 <= cur + delta <= length ==> ms == cur + delta) && (cur + delta > length
            ==> ms == length) && (cur + delta < 0 ==> ms == 0),
{
    crate::command::law_seek_goes_by_the_items_own_length(a, p, cur as int, delta as int, length as int);
}

/// The volume goes from what the device reports by as much as asked, stays from
/// 0 to 100, and is shown at once.
pub proof fn law_turning_the_volume(m: &mut App, delta: i32, v: u32, r: Command)
    requires
        old(m).playback is Some,
        (old(m).playback->0).device.volume_percent == Some(v),
        v <= 100,
        -100 <= delta <= 100,
        call_ensures(App::bump_volume, (m, delta), r),
    ensures
        r matches Command::Volume { percent, .. } && (0 <= v + delta <= 100 ==> percent == v + delta) && (v + delta > 100
            ==> percent == 100) && (v + delta < 0 ==> percent == 0) && final(m).playback is Some && (
        final(m).playback->0).device.volume_percent == Some(percent as u32),
{
}

/// Play / pause pauses exactly while something plays, and says so where there
/// is no device.
pub proof fn law_pressing_space(m: &mut App, r: Option<Command>, device: String)
    requires
        call_ensures(App::toggle_play, (m,), r),
        old(m).playback is Some,
        (old(m).playback->0).device.id == Some(device),
    ensures
        (old(m).playback->0).is_playing ==> r == Some(Command::Pause { device }),
        !(old(m).playback->0).is_playing ==> r == Some(Command::Resume { device }),
        *final(m) == *old(m),
{
}

// ---- Searching and loading ------------------------------------------

/// A search that is begun is for what was typed, without the blanks around it,
/// and none is begun for blanks.
pub proof fn law_beginning_a_search(m: &mut App, typed: &str, r: bool)
    requires
        call_ensures(App::begin_search, (m, typed), r),
    ensures
        r <==> trimmed(typed@).len() > 0,
        r ==> final(m).search_query@ == trimmed(typed@),
        !r ==> *final(m) == *old(m),
{
}

/// What a search brought is listed from the first row, artists before tracks,
/// and the releases found before go.
pub proof fn law_finishing_a_search(m: &mut App, v: Vec<Artist>, w: Vec<Track>, i: int, u: ())
    requires
        call_ensures(App::finish_search, (m, Answer::Items(v), Answer::Items(w)), u),
    ensures
        final(m).search_results@.len() == v@.len() + w@.len(),
        0 <= i < v@.len() ==> final(m).search_results@[i] == SearchRow::Artist(v@[i]),
        0 <= i < w@.len() ==> final(m).search_results@[v@.len() + i] == SearchRow::Track(w@[i]),
        final(m).search_idx == 0,
        final(m).releases is None,
        final(m).status == old(m).status,
{
    crate::load::law_every_answer_has_its_rows(Answer::Items(v), Answer::Items(w), i);
}

/// A list is loaded once: what is there already stays.
pub proof fn law_lists_are_loaded_once(m: &mut App, n: &mut App, p: Vec<Playlist>, t: Vec<Track>, u: (), w: ())
    requires
        call_ensures(App::ensure_playlists_loaded, (m, p), u),
        call_ensures(App::ensure_saved_loaded, (n, t), w),
    ensures
        old(m).playlists@.len() > 0 ==> *final(m) == *old(m),
        old(m).playlists@.len() == 0 ==> final(m).playlists == p,
        old(n).saved_tracks@.len() > 0 ==> *final(n) == *old(n),
        old(n).saved_tracks@.len() == 0 ==> final(n).saved_tracks == t,
{
}

/// The queue holds the tracks among what comes, and never more than came.
pub proof fn law_loading_the_queue(m: &mut App, items: Vec<Item>, u: ())
    requires
        call_ensures(App::ensure_queue_loaded, (m, items), u),
        forall|i: int| 0 <= i < items@.len() ==> (#[trigger] items@[i]) is Track,
    ensures
        final(m).queue@.len() == items@.len(),
        forall|i: int| 0 <= i < items@.len() ==> Item::Track(#[trigger] final(m).queue@[i]) == items@[i],
{
    lemma_all_tracks(items@);
}

proof fn lemma_all_tracks(items: Seq<Item>)
    requires
        forall|i: int| 0 <= i < items.len() ==> (#[trigger] items[i]) is Track,
    ensures
        crate::load::tracks_in(items).len() == items.len(),
        forall|i: int| 0 <= i < items.len() ==> Item::Track(#[trigger] crate::load::tracks_in(items)[i]) == items[i],
    decreases items.len(),
{
    if items.len() > 0 {
        let t = items.drop_last();
        assert forall|i: int| 0 <= i < t.len() implies (#[trigger] t[i]) is Track by {
            assert(t[i] == items[i]);
        }
        lemma_all_tracks(t);
        assert(items.last() == items[items.len() - 1]);
    }
}

/// A reply is put at the end of what was loaded, and the next is asked for
/// until a failure comes or the limit is met.
pub proof fn law_taking_a_reply(list: &mut Vec<Track>, t: Track, limit: usize, more: bool)
    requires
        call_ensures(take_reply::<Track>, (list, Loaded::Item(t), limit), more),
    ensures
        final(list)@ == old(list)@.push(t),
        more <==> old(list)@.len() + 1 < limit,
{
}

/// Spotify is asked again once as many seconds have passed as are set.
pub proof fn law_when_a_poll_is_due(elapsed_ns: u128, poll_s: u64, r: bool)
    requires
        call_ensures(poll_due, (elapsed_ns, poll_s), r),
        poll_s >= 1,
    ensures
        r <==> elapsed_ns >= poll_s * 1_000_000_000,
{
}

/// The progress moves on by the time that has passed, once a second and only
/// while something plays.
pub proof fn law_a_tick(m: &mut App, elapsed_ns: u128, p: Playback, ns: i128, r: Tick)
    requires
        old(m).wf(),
        old(m).playback == Some(p),
        p.progress_ns == Some(ns),
        elapsed_ns <= 1_000_000_000_000_000,
        0 <= ns <= 1_000_000_000_000_000,
        call_ensures(App::tick_progress, (m, elapsed_ns), r),
    ensures
        elapsed_ns < 1_000_000_000 ==> r == Tick::Early && *final(m) == *old(m),
        elapsed_ns >= 1_000_000_000 && !p.is_playing ==> r == Tick::Idle && *final(m) == *old(m),
        elapsed_ns >= 1_000_000_000 && p.is_playing ==> r == Tick::Moved && final(m).playback is Some && (
        final(m).playback->0).progress_ns == Some((ns + elapsed_ns) as i128),
{
}

// ---- Files, radio and mpv -------------------------------------------

/// A folder lists its sub-folders before its files, each by name in lower case.
pub proof fn law_listing_a_folder(entries: Vec<Entry>, r: Vec<usize>, a: int, b: int)
    requires
        call_ensures(list_dir, (&entries,), r),
        0 <= a < b < r@.len(),
    ensures
        r@[a] < entries@.len() && r@[b] < entries@.len(),
        entries@[r@[a] as int].is_dir || !entries@[r@[b] as int].is_dir,
        entries@[r@[a] as int].is_dir == entries@[r@[b] as int].is_dir ==> text_le(
            lowercase(entries@[r@[a] as int].name@),
            lowercase(entries@[r@[b] as int].name@),
        ),
{
    crate::local::law_names_are_compared_in_lower_case(entries@, r@, r@[a] as int);
    crate::local::law_names_are_compared_in_lower_case(entries@, r@, r@[b] as int);
    assert(r@[a] < entries@.len() && r@[b] < entries@.len());
    crate::local::law_names_go_up(entries@, crate::local::lower_names(entries@), r@, a, b);
}

/// A station is asked for by name first and by tag only where no name matches;
/// a country's stations by the country alone.
pub proof fn law_asking_for_stations(
    query: &str,
    country: &str,
    first: Request,
    none: Vec<Station>,
    some: Vec<Station>,
    after_none: Search,
    after_some: Search,
    listed: Request,
)
    requires
        call_ensures(search, (query,), first),
        none@.len() == 0,
        some@.len() > 0,
        call_ensures(search_on, (query, Ok(none)), after_none),
        call_ensures(search_on, (query, Ok(some)), after_some),
        call_ensures(in_country, (country,), listed),
        forall|i: int| 0 <= i < query@.len() ==> query@[i] != '@',
    ensures
        first@.filter == seq![("name"@, query@)] && first@.limit == 100,
        after_none matches Search::Ask(q) && q@.filter == seq![("tag"@, query@)] && q@.limit == 100,
        after_some == Search::Done(Ok(some)),
        listed@.limit == 500 && listed@.filter.len() == 1,
{
    crate::radio::law_an_at_sign_inside_a_word_names_no_country("name"@, query@);
    crate::radio::law_an_at_sign_inside_a_word_names_no_country("tag"@, query@);
}

/// The second server is asked exactly where the first failed, and its failure
/// is the end.
pub proof fn law_asking_the_servers(body: String, e: String, first: Fetch, second: Fetch, read: Fetch)
    requires
        call_ensures(fetch, (0usize, Err(e)), first),
        call_ensures(fetch, (1usize, Err(e)), second),
        call_ensures(fetch, (0usize, Ok(body)), read),
    ensures
        first == Fetch::Ask(1),
        second matches Fetch::Done(done) && done matches Err(m) && m@ == e@,
        read is Done,
{
}

/// A play is told to the directory by the station's id, where it has one.
pub proof fn law_telling_a_play(uuid: &str, r: Option<String>)
    requires
        call_ensures(count_play, (uuid,), r),
    ensures
        r is Some <==> uuid@.len() > 0,
        r is Some ==> (r->0)@ == "https://all.api.radio-browser.info"@ + "/json/url/"@ + uuid@,
{
}

/// A station that was kept is in the list, behind the others; one that was
/// removed is not, and the others stay.
pub proof fn law_keeping_and_removing(
    list: &mut Vec<Station>,
    s: Station,
    t: Station,
    r: bool,
    after: &mut Vec<Station>,
    gone: bool,
    there: bool,
)
    requires
        call_ensures(keep, (list, &s), r),
        call_ensures(remove, (after, &s), gone),
        call_ensures(keeps, (&*final(after), &s), there),
    ensures
        r ==> final(list)@ == old(list)@.push(s),
        !r ==> final(list)@ == old(list)@,
        r <==> forall|k: int| 0 <= k < old(list)@.len() ==> !same((#[trigger] old(list)@[k])@, s@),
        !there,
        old(after)@.contains(t) && !same(t@, s@) ==> final(after)@.contains(t),
        !gone ==> final(after)@ == old(after)@,
{
    crate::radio::law_removed_station_is_gone(old(after)@, s, t);
    if !gone {
        crate::radio::law_removing_a_stranger_changes_nothing(old(after)@, s);
    }
}

/// `a` keeps and `D` removes the station of the row.
pub proof fn law_keeping_the_row(m: &mut App, n: &mut App, r: bool, gone: bool)
    requires
        call_ensures(App::keep_station, (m,), r),
        old(m).found_stations is Some,
        old(m).radio_idx < (old(m).found_stations->0)@.len(),
        call_ensures(App::remove_station, (n,), gone),
        old(n).found_stations is None,
        old(n).radio_idx < old(n).kept@.len(),
    ensures
        r ==> final(m).kept@ == old(m).kept@.push((old(m).found_stations->0)@[old(m).radio_idx as int]),
        !r ==> final(m).kept@ == old(m).kept@,
        gone,
        !final(n).kept@.contains(old(n).kept@[old(n).radio_idx as int]),
        final(n).radio_idx < final(n).kept@.len() || final(n).radio_idx == 0,
{
    let s = old(n).kept@[old(n).radio_idx as int];
    crate::radio::law_same_is_reflexive(s@);
    crate::radio::law_removed_station_is_gone(old(n).kept@, s, s);
    assert(crate::radio::is_kept(old(n).kept@, s)) by {
        assert(same(old(n).kept@[old(n).radio_idx as int]@, s@));
    }
    if final(n).kept@.contains(s) {
        let k = choose|k: int| 0 <= k < final(n).kept@.len() && final(n).kept@[k] == s;
        assert(same(final(n).kept@[k]@, s@));
    }
}

/// Playing files or a station pauses Spotify exactly where it plays on tune's
/// own device.
pub proof fn law_playing_something_local(m: &mut App, source: Source, count: usize, index: usize, r: Option<Command>)
    requires
        call_ensures(App::play_local, (m, source, count, index), r),
    ensures
        final(m).mpv is Some && (final(m).mpv->0).source == source && !(final(m).mpv->0).state.paused,
        (final(m).mpv->0).state.index == index,
        r is Some <==> old(m).own_device@.len() > 0 && old(m).playback is Some && (old(m).playback->0).is_playing && (
        old(m).playback->0).device.id is Some && ((old(m).playback->0).device.id->0)@ == old(m).own_device@,
        r is Some ==> (r->0 matches Command::Pause { device } && device@ == old(m).own_device@),
{
}

/// While mpv is paused neither it nor Spotify is asked; while it plays it is
/// asked once a second.
pub proof fn law_asking_mpv(a: App, elapsed_ns: u128, poll_s: u64, due: bool, spotify: bool)
    requires
        call_ensures(App::mpv_due, (&a, elapsed_ns), due),
        call_ensures(App::spotify_due, (&a, elapsed_ns, poll_s), spotify),
    ensures
        a.mpv is Some && (a.mpv->0).state.paused ==> !due && !spotify,
        a.mpv is Some && !(a.mpv->0).state.paused ==> (due <==> elapsed_ns >= 1_000_000_000),
        a.mpv is None ==> !due,
        !(a.mpv is Some && (a.mpv->0).state.paused) && poll_s >= 1 ==> (spotify <==> elapsed_ns >= poll_s * 1_000_000_000),
{
}

/// A station's song is shown whenever it sends one, whatever else it sends.
pub proof fn law_a_song_is_shown(m: &mut Mpv, report: Report, u: ())
    requires
        call_ensures(Mpv::refresh, (m, report), u),
        old(m).source is Radio,
        report.paused is Some,
        report.metadata is Some,
    ensures
        ({
            let song = crate::local::tag(Some((report.metadata->0)@), "icy-title"@);
            &&& song.len() > 0 ==> final(m).state.title@ == song
            &&& song.len() == 0 ==> final(m).state.title@ == final(m).state.artist@
        }),
        final(m).state.paused == report.paused->0,
{
    crate::local::law_a_station_shows_its_song(
        old(m).source->Radio_0,
        old(m).state@,
        report,
        (report.metadata->0)@,
    );
}

/// mpv starts at the file that was chosen, at full volume and not repeating.
pub proof fn law_starting_mpv(source: Source, count: usize, index: usize, r: Mpv)
    requires
        call_ensures(Mpv::start, (source, count, index), r),
    ensures
        r.source == source && r.state.index == index && r.volume == 100 && !r.state.paused,
        count > 0 ==> r.state.count == count,
        count == 0 ==> r.state.count == 1,
{
}

// ---- Settings and the sign-in ---------------------------------------

/// Browsing starts where the settings say, and else in the music folder or the
/// home folder.
pub proof fn law_where_browsing_starts(c: Config, home: String, present: bool, r: String)
    requires
        call_ensures(Config::music_root, (&c, &Some(home), present), r),
    ensures
        c.music_dir@.len() > 0 ==> r@ == c.music_dir@,
        c.music_dir@.len() == 0 && !present ==> r@ == home@,
        c.music_dir@.len() == 0 && present && home@.len() > 0 && home@.last() != '/' ==> r@ == home@ + seq!['/'] + "Music"@,
{
    reveal_strlit("Music");
    assert("Music"@[0] == 'M');
}

/// A client id that was taken is not asked for again, and blanks are none.
pub proof fn law_entering_a_client_id(c: &mut Config, typed: &str, r: bool, before: bool, after: bool)
    requires
        call_ensures(Config::enter_client_id, (c, typed), r),
        call_ensures(Config::needs_client_id, (&*old(c),), before),
        call_ensures(Config::needs_client_id, (&*final(c),), after),
    ensures
        r <==> trimmed(typed@).len() > 0,
        r ==> !after,
        !r ==> *final(c) == *old(c) && (after <==> before),
{
    crate::text::law_trimming_takes_the_ends(typed@);
    let t = trimmed(typed@);
    if t.len() > 0 {
        lemma_trimmed_stays(t);
    }
}

proof fn lemma_trimmed_stays(t: Seq<char>)
    requires
        t.len() > 0,
        !crate::text::is_white(t[0]),
        !crate::text::is_white(t.last()),
    ensures
        trimmed(t) == t,
{
}

/// The user signs in without a token, or where a scope was not granted.
pub proof fn law_when_the_user_signs_in(granted: Vec<String>, without: bool, with: bool)
    requires
        call_ensures(need_reauth, (&None,), without),
        call_ensures(need_reauth, (&Some(granted),), with),
    ensures
        without,
        !with ==> texts(granted@).contains("streaming"@) && texts(granted@).contains("user-modify-playback-state"@)
            && texts(granted@).contains("user-library-read"@),
        texts(granted@) == crate::auth::scopes() ==> !with,
{
    crate::auth::law_what_a_token_has_to_cover(texts(granted@));
    crate::auth::law_granting_what_is_asked_is_enough();
}

/// A refresh that went well is fresh; a failure never is, and one that passes
/// keeps the token and the message.
pub proof fn law_after_a_refresh(e: String, fine: Refresh, failed: Refresh)
    requires
        call_ensures(refresh_or_reauthorize, (&None,), fine),
        call_ensures(refresh_or_reauthorize, (&Some(e),), failed),
    ensures
        fine == Refresh::Fresh,
        !(failed is Fresh),
        failed is SignIn <==> crate::auth::says_dead(lowercase(e@)),
        failed matches Refresh::Keep(m) ==> m@ == "refresh_token: "@ + e@,
{
}

/// The sign-in ends with the code, unless Spotify sent an error.
pub proof fn law_finishing_the_sign_in(c: Callback, r: Result<String, String>)
    requires
        call_ensures(Callback::finish, (c,), r),
    ensures
        r is Ok <==> c.error is None && c.code is Some,
        r is Ok ==> c.code == Some(r->Ok_0),
        c.error is Some ==> (r matches Err(m) && m@ == "spotify: "@ + (c.error->0)@),
{
}

/// In one byte order a name has one id, whenever it is asked for.
pub proof fn law_a_name_has_one_id(a: &str, b: &str, little: bool, r: String, s: String)
    requires
        call_ensures(device_id_in_order, (a, little), r),
        call_ensures(device_id_in_order, (b, little), s),
        a@ == b@,
    ensures
        r@ == s@,
        r@.len() == 32,
{
    crate::player::law_id_is_32_hex_digits(a@, little);
}

/// tune plays on this computer where it is wanted and can sign in.
pub proof fn law_playing_on_this_computer(token: String, off: LocalPlay, none: LocalPlay, on: LocalPlay)
    requires
        call_ensures(local_play, (false, Some(token)), off),
        call_ensures(local_play, (true, None), none),
        call_ensures(local_play, (true, Some(token)), on),
    ensures
        off is Off,
        none is NoToken,
        token@.len() > 0 ==> on == LocalPlay::SignIn(token),
        token@.len() == 0 ==> on is NoToken,
{
}

// ---- The screen -----------------------------------------------------

/// A row down and a row up again leads back.
pub proof fn law_down_and_up(m: &mut App, n: &mut App, u: (), w: ())
    requires
        call_ensures(App::list_down, (m,), u),
        *old(n) == *final(m),
        call_ensures(App::list_up, (n,), w),
        *final(m) != *old(m),
    ensures
        *final(n) == *old(m),
{
    crate::app::law_down_then_up_leads_back(*old(m));
}

/// `q` quits everywhere but in the help, and takes only the message away.
pub proof fn law_quitting(m: &mut App, r: Step)
    requires
        call_ensures(App::handle, (m, "q"), r),
    ensures
        r == Step::Quit <==> old(m).screen != Screen::Help,
        r == Step::Quit ==> *final(m) == (App { status: None, ..*old(m) }),
{
}

/// A cover that was placed is not asked for again while the same item plays.
pub proof fn law_a_placed_cover_stays(m: &mut App, n: &mut App, k: &mut App, r: CoverAction, u: (), again: CoverAction)
    requires
        call_ensures(App::sync_cover, (m,), r),
        r is Fetch,
        *old(n) == *final(m),
        call_ensures(App::cover_placed, (n, r->id), u),
        *old(k) == *final(n),
        call_ensures(App::sync_cover, (k,), again),
    ensures
        again is Nothing,
{
}

/// A resize is told exactly where the size changed, and nothing else changes
/// the screen.
pub proof fn law_resizing(m: &mut App, cols: u16, rows: u16, r: bool)
    requires
        call_ensures(App::handle_resize_if_needed, (m, cols, rows), r),
    ensures
        r <==> cols != old(m).cols || rows != old(m).rows,
        final(m).cols == cols && final(m).rows == rows,
        !r ==> *final(m) == *old(m),
        r ==> final(m).cover_track_id is None && final(m).scroll == 0,
{
}

// ---- Lists and rows -------------------------------------------------

/// An artist's releases come with the radio on top, the cursor on it, and the
/// dates going down.
pub proof fn law_listing_releases(m: &mut App, artist: Artist, releases: Vec<Release>, i: int, j: int, u: ())
    requires
        call_ensures(App::load_releases, (m, artist, releases), u),
    ensures
        final(m).releases is Some,
        ({
            let l = final(m).releases->0;
            &&& l.artist == artist && l.idx == 0 && l.focus
            &&& l.rows@.len() == releases@.len() + 1
            &&& l.rows@[0] is Radio
            &&& 0 < i < j < l.rows@.len() ==> (l.rows@[i] matches ReleaseRow::Release(x) && l.rows@[j] matches ReleaseRow::Release(
                y,
            ) && text_le(y.date@, x.date@))
        }),
{
    crate::releases::law_the_radio_stands_on_top(releases@, i - 1);
    crate::releases::law_the_radio_stands_on_top(releases@, j - 1);
    if 0 < i < j < releases@.len() + 1 {
        crate::releases::law_every_release_is_listed(releases@);
        crate::releases::newest_first(releases@).to_multiset_ensures();
        releases@.to_multiset_ensures();
        crate::releases::law_dates_never_go_up(releases@, i - 1, j - 1);
    }
}

/// The items of a playlist are counted one by one, and each of its tracks keeps
/// the place that it has among them.
pub proof fn law_taking_an_item(p: &mut PlaylistLoad, q: &mut PlaylistLoad, t: Track, other: Item, limit: usize, more: bool, on: bool)
    requires
        call_ensures(PlaylistLoad::take, (p, Loaded::Item(Item::Track(t)), limit), more),
        !(other is Track),
        call_ensures(PlaylistLoad::take, (q, Loaded::Item(other), limit), on),
    ensures
        final(p).tracks@ == old(p).tracks@.push(t),
        final(p).places@ == old(p).places@.push(old(p).seen),
        final(p).seen == old(p).seen + 1,
        final(q).tracks@ == old(q).tracks@ && final(q).places@ == old(q).places@,
        final(q).seen == old(q).seen + 1,
{
}

/// The tracks of a playlist come on the screen from the first, with the places
/// that they have in it.
pub proof fn law_opening_a_playlist(m: &mut App, p: Playlist, tracks: Vec<Track>, places: Vec<usize>, u: ())
    requires
        places@.len() == tracks@.len(),
        call_ensures(App::load_playlist_tracks, (m, p, tracks, places), u),
    ensures
        final(m).open_playlist == Some(p),
        final(m).playlist_tracks == tracks && final(m).playlist_places == places,
        final(m).playlist_tracks_idx == 0,
{
}

/// A folder that is shown has one row for each place that is told, from the
/// first.
pub proof fn law_showing_a_folder(m: &mut App, name: String, entries: Vec<Entry>, r: Vec<usize>, k: int)
    requires
        call_ensures(App::show_folder, (m, name, &entries), r),
    ensures
        final(m).folder == Some(name),
        final(m).files@.len() == r@.len(),
        0 <= k < r@.len() ==> r@[k] < entries@.len() && final(m).files@[k] == entries@[r@[k] as int],
        final(m).files_idx == 0 && final(m).scroll == 0,
{
}

/// A file is added to the files that play, and to nothing else.
pub proof fn law_adding_a_file(m: &mut App, path: &str, r: Option<Vec<String>>)
    requires
        old(m).mpv is Some ==> (old(m).mpv->0).state.count < usize::MAX,
        call_ensures(App::append_file, (m, path), r),
    ensures
        r is Some <==> old(m).mpv is Some && (old(m).mpv->0).source is Files && old(m).files_idx < old(m).files@.len()
            && !old(m).files@[old(m).files_idx as int].is_dir,
        r is Some ==> texts((r->0)@) == seq!["loadfile"@, path@, "append-play"@] && final(m).mpv is Some && (
        final(m).mpv->0).state.count == (old(m).mpv->0).state.count + 1,
        r is None ==> *final(m) == *old(m),
{
}

/// Stations that were found are listed from the first; after a failure the list
/// stays.
pub proof fn law_finding_stations(m: &mut App, n: &mut App, v: Vec<Station>, e: String, u: (), w: ())
    requires
        call_ensures(App::finish_stations, (m, Ok(v)), u),
        call_ensures(App::finish_stations, (n, Err(e)), w),
    ensures
        final(m).found_stations == Some(v) && final(m).radio_idx == 0 && final(m).kept == old(m).kept,
        final(n).found_stations == old(n).found_stations && final(n).radio_idx == old(n).radio_idx && final(n).kept
            == old(n).kept,
        final(n).status is Some,
{
}

/// A country of two letters is asked for by its code, in capitals.
pub proof fn law_asking_by_code(country: &str, x: char, y: char, r: Request)
    requires
        call_ensures(in_country, (country,), r),
        trimmed(country@) == seq![x, y],
        'a' <= x <= 'z' || 'A' <= x <= 'Z',
        'a' <= y <= 'z' || 'A' <= y <= 'Z',
    ensures
        r@.filter == seq![
            ("countrycode"@, seq![crate::text::ascii_upper(x), crate::text::ascii_upper(y)]),
        ],
{
    crate::radio::law_codes_and_names_of_countries(country@, x, y);
}

/// A redirect with one part gives the code that it names, or the error.
pub proof fn law_reading_the_redirect(line: &str, r: Result<Callback, String>, path: Seq<char>, key: Seq<char>, value: Seq<char>)
    requires
        call_ensures(parse_callback, (line,), r),
        words(line@).len() > 1,
        words(line@)[1] == path + seq!['?'] + (key + seq!['='] + value),
        !path.contains('?'),
        !key.contains('='),
        !(key + seq!['='] + value).contains('&'),
    ensures
        r is Ok,
        key == "code"@ ==> (r->Ok_0).code is Some && reads_as(value, ((r->Ok_0).code->0)@),
        key == "error"@ ==> (r->Ok_0).error is Some && reads_as(value, ((r->Ok_0).error->0)@),
{
    let part = key + seq!['='] + value;
    crate::auth::law_the_parts_of_a_redirect(line@, path, part);
    lemma_one_piece(part);
    let parts = crate::auth::query_parts(line@);
    assert(Seq::<Seq<char>>::empty() + seq![part] + Seq::<Seq<char>>::empty() =~= parts);
    crate::auth::law_the_last_value_counts(Seq::empty(), key, value, Seq::empty());
}

proof fn lemma_one_piece(s: Seq<char>)
    requires
        !s.contains('&'),
    ensures
        crate::text::split(s, '&') == seq![s],
    decreases s.len(),
{
    if s.len() == 0 {
        assert(s =~= Seq::empty());
    } else {
        let t = s.drop_last();
        assert(s.contains(s.last()));
        assert forall|c: char| t.contains(c) implies s.contains(c) by {
            let k = choose|k: int| 0 <= k < t.len() && t[k] == c;
            assert(s[k] == c);
        }
        lemma_one_piece(t);
        assert(seq![t].drop_last() =~= Seq::<Seq<char>>::empty());
        assert(t.push(s.last()) =~= s);
        assert(crate::text::split(s, '&') =~= seq![s]);
    }
}

/// What plays is shown: mpv while it is there, else what Spotify plays, and
/// else that nothing does.
pub proof fn law_showing_what_plays(a: App, filled: usize, r: Vec<Line>)
    requires
        a.wf(),
        call_ensures(App::now_lines, (&a, filled), r),
    ensures
        r@.len() == 3,
        a.mpv is Some ==> r@[1]@.spans[3].text == (a.mpv->0).state.title@,
        a.mpv is None && a.playback is Some ==> r@[1]@.spans[3].text == crate::playback::heading((a.playback->0).item).0,
        a.mpv is None && a.playback is None ==> r@[1]@.spans[1].text == "Nothing playing."@,
{
    let v = crate::screen::line_views(r@);
    assert(v.len() == r@.len());
    assert(v[1] == r@[1]@);
}

/// The footer shows the message, in its color.
pub proof fn law_showing_the_message(a: App, r: Line)
    requires
        a.status is Some,
        call_ensures(App::footer_line, (&a,), r),
    ensures
        r@.spans.len() == 1,
        r@.spans[0].text == (a.status->0).0@ && r@.spans[0].color == Some((a.status->0).1),
{
}

/// The list is drawn with one row for each item below the heading, and only the
/// row of the cursor is bold.
pub proof fn law_drawing_a_list(a: App, r: Vec<Line>, i: int)
    requires
        call_ensures(App::main_lines, (&a,), r),
        a.main_len() is Some,
        0 <= i < a.main_len()->0,
    ensures
        3 + i < r@.len(),
        r@[3 + i]@.bold == (i == a.main_idx()),
{
    crate::screen::law_rows_stand_below_the_heading(a, i);
    assert(crate::screen::line_views(r@)[3 + i] == r@[3 + i]@);
}

/// The panes fill the screen from top to bottom, none over another.
pub proof fn law_laying_out(cols: u16, rows: u16, r: Layout)
    requires
        rows >= 13,
        call_ensures(layout, (cols, rows), r),
    ensures
        r.header.y == 1 && r.header.h == 1,
        r.main.y == 2 && r.main.y + r.main.h < r.now.y,
        r.now.y + r.now.h == r.footer.y,
        r.footer.y == rows && r.footer.h == 1,
        r.header.w == cols && r.main.w == cols && r.now.w == cols && r.footer.w == cols,
{
}

/// The cursor comes to the first row or to the last.
pub proof fn law_going_to_the_ends(m: &mut App, n: &mut App, u: (), w: ())
    requires
        call_ensures(App::list_top, (m,), u),
        call_ensures(App::list_bottom, (n,), w),
        old(m).list_len() is Some,
        old(n).list_len() is Some,
        old(n).list_len()->0 > 0,
    ensures
        final(m).idx() == 0,
        final(n).idx() == old(n).list_len()->0 - 1,
{
    crate::app::law_moves_by_one_row(*old(m));
    crate::app::law_moves_by_one_row(*old(n));
}

/// The row of the cursor is in view after scrolling.
pub proof fn law_scrolling_into_view(m: &mut App, h: u16, u: ())
    requires
        h > 6,
        old(m).main_len() is Some,
        old(m).scroll < 1_000_000,
        old(m).main_idx() < 1_000_000,
        call_ensures(App::adjust_main_scroll, (m, h), u),
    ensures
        final(m).scroll + 3 <= 3 + old(m).main_idx(),
        3 + old(m).main_idx() + 3 < final(m).scroll + h,
{
    crate::pane::law_cursor_stays_in_view(old(m).scroll as int, old(m).main_idx() as int, h as int);
    crate::pane::law_scrolling_goes_no_further(old(m).scroll as int, old(m).main_idx() as int, h as int);
}

}
