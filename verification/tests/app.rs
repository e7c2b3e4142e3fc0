use tune::app::{App, Screen, SearchRow};
use tune::command::{Activation, Command};
use tune::keys::Step;
use tune::load::{poll_due, take_reply, Answer, Loaded, PlaylistLoad, Tick, LIBRARY_LIMIT, PLAYLIST_LIMIT};
use tune::pane::CoverAction;
use tune::json::parse;
use tune::releases::{order_releases, Release, ReleaseRow};
use tune::playback::{Artist, Device, Image, Item, Playback, Playlist, RepeatState, Track};
use tune::theme::{AMBER, ERR, OK};

fn track(name: &str, id: Option<&str>) -> Track {
    Track {
        id: id.map(|s| s.to_string()),
        name: name.to_string(),
        artists: vec!["Band".to_string()],
        duration_ms: 200_000,
        images: Vec::new(),
    }
}

fn tracks(n: usize) -> Vec<Track> {
    (0..n).map(|i| track(&format!("t{}", i), Some(&format!("id{}", i)))).collect()
}

fn device(id: Option<&str>, name: &str, is_active: bool) -> Device {
    Device {
        id: id.map(|s| s.to_string()),
        name: name.to_string(),
        kind: "Speaker".to_string(),
        is_active,
        volume_percent: Some(40),
    }
}

fn playback(id: Option<&str>, is_playing: bool) -> Playback {
    Playback {
        device: device(id, "Kitchen", true),
        repeat_state: RepeatState::Off,
        shuffle_state: false,
        progress_ns: Some(10_000_000_000),
        item: Some(Item::Track(track("now", Some("now")))),
        is_playing,
    }
}

fn playlist(name: &str) -> Playlist {
    Playlist { id: format!("pl-{}", name), name: name.to_string(), total: 3 }
}

fn artist(name: &str) -> Artist {
    Artist { id: format!("ar-{}", name), name: name.to_string() }
}

fn app() -> App {
    App::new("me".to_string(), 80, 40, String::new())
}

fn status(a: &App) -> Option<(&str, u8)> {
    a.status.as_ref().map(|(m, c)| (m.as_str(), *c))
}

const NO_DEVICES: &str = " No Spotify Connect devices online — open Spotify on a phone or desktop first.";

#[test]
fn tune_starts_with_an_empty_search() {
    let a = app();
    assert_eq!(a.screen, Screen::Search);
    assert_eq!((a.user.as_str(), a.cols, a.rows, a.scroll), ("me", 80, 40, 0));
    assert!(a.playback.is_none() && a.status.is_none() && a.search_results.is_empty());
}

#[test]
fn the_cursor_stays_on_the_list() {
    let mut a = app();
    a.screen = Screen::Saved;
    a.ensure_saved_loaded(tracks(3));
    a.list_up();
    assert_eq!(a.saved_idx, 0);
    a.list_down();
    a.list_down();
    a.list_down();
    assert_eq!(a.current_list_indices(), (2, Some(3)));
    a.list_up();
    assert_eq!(a.saved_idx, 1);
    a.list_bottom();
    assert_eq!(a.saved_idx, 2);
    a.list_top();
    assert_eq!(a.saved_idx, 0);
    a.screen = Screen::Help;
    a.list_down();
    a.list_bottom();
    assert_eq!(a.current_list_indices(), (0, None));
    a.screen = Screen::Queue;
    a.list_bottom();
    assert_eq!(a.queue_idx, 0);
}

#[test]
fn a_page_is_ten_rows() {
    let mut a = app();
    a.screen = Screen::Saved;
    a.ensure_saved_loaded(tracks(25));
    assert_eq!(a.handle("PgDOWN"), Step::Stay);
    assert_eq!(a.saved_idx, 10);
    a.handle("PgDOWN");
    a.handle("PgDOWN");
    assert_eq!(a.saved_idx, 24);
    a.handle("PgUP");
    assert_eq!(a.saved_idx, 14);
    a.handle("PgUP");
    a.handle("PgUP");
    assert_eq!(a.saved_idx, 0);
}

#[test]
fn a_row_down_and_up_leads_back() {
    let mut a = app();
    a.screen = Screen::Queue;
    a.ensure_queue_loaded(tracks(4).into_iter().map(Item::Track).collect());
    a.queue_idx = 2;
    a.handle("j");
    assert_eq!(a.queue_idx, 3);
    a.handle("k");
    assert_eq!(a.queue_idx, 2);
}

#[test]
fn q_quits_but_leaves_the_help() {
    let mut a = app();
    assert_eq!(a.handle("q"), Step::Quit);
    assert_eq!(a.handle("?"), Step::Stay);
    assert_eq!(a.screen, Screen::Help);
    assert_eq!(a.handle("q"), Step::Stay);
    assert_eq!(a.screen, Screen::Search);
    a.handle("?");
    assert_eq!(a.handle("Q"), Step::Stay);
    assert_eq!(a.screen, Screen::Search);
}

#[test]
fn each_key_opens_its_screen_from_the_top() {
    let mut a = app();
    for (key, screen, step) in [
        ("/", Screen::Search, Step::Prompt),
        ("P", Screen::Playlists, Step::LoadPlaylists),
        ("L", Screen::Saved, Step::LoadSaved),
        ("Q", Screen::Queue, Step::LoadQueue),
        ("d", Screen::Devices, Step::LoadDevices),
        ("?", Screen::Help, Step::Stay),
    ] {
        a.scroll = 7;
        assert_eq!(a.handle(key), step);
        assert_eq!((a.screen, a.scroll), (screen, 0));
    }
}

#[test]
fn lists_that_are_there_are_not_loaded_again() {
    let mut a = app();
    a.ensure_playlists_loaded(vec![playlist("a")]);
    a.ensure_saved_loaded(tracks(1));
    assert_eq!(a.handle("P"), Step::Stay);
    assert_eq!(a.handle("L"), Step::Stay);
    assert_eq!(a.handle("Q"), Step::LoadQueue);
}

#[test]
fn h_leads_back_to_the_playlists_only() {
    let mut a = app();
    a.screen = Screen::PlaylistTracks;
    assert_eq!(a.handle("h"), Step::Stay);
    assert_eq!(a.screen, Screen::Playlists);
    a.screen = Screen::Saved;
    a.handle("h");
    assert_eq!(a.screen, Screen::Saved);
}

#[test]
fn keys_drive_playback() {
    let mut a = app();
    for (key, step) in [
        ("ENTER", Step::Activate),
        ("a", Step::Enqueue),
        (" ", Step::Toggle),
        ("SPACE", Step::Toggle),
        ("n", Step::Next),
        ("b", Step::Previous),
        ("+", Step::Volume(5)),
        ("-", Step::Volume(-5)),
        ("]", Step::Seek(5_000)),
        ("[", Step::Seek(-5_000)),
        ("s", Step::Shuffle),
        ("r", Step::Repeat),
        ("R", Step::Poll),
    ] {
        assert_eq!(a.handle(key), step, "{}", key);
    }
}

#[test]
fn a_key_takes_the_message_away() {
    let mut a = app();
    a.set_status("Playing", OK);
    assert_eq!(status(&a), Some((" Playing", OK)));
    a.handle("z");
    assert_eq!(status(&a), None);
    assert_eq!(a.screen, Screen::Search);
}

#[test]
fn a_command_goes_to_the_device_that_plays() {
    let mut a = app();
    a.poll_state(Some(playback(Some("k1"), true)));
    a.load_devices(vec![device(Some("d1"), "Desk", true)]);
    a.default_device = "Desk".to_string();
    assert_eq!(a.resolve_device_id(), Some("k1".to_string()));
    assert!(!a.wants_devices(None));
}

#[test]
fn the_preferred_device_is_found_by_name_then_by_id() {
    let mut a = app();
    a.default_device = "two".to_string();
    a.load_devices(vec![device(Some("two"), "other", false), device(Some("d2"), "two", false), device(Some("d3"), "x", true)]);
    assert_eq!(a.resolve_device_id(), Some("d2".to_string()));
    a.load_devices(vec![device(Some("d1"), "one", true), device(Some("two"), "other", false)]);
    assert_eq!(a.resolve_device_id(), Some("two".to_string()));
}

#[test]
fn without_a_preference_the_active_device_or_the_first_is_taken() {
    let mut a = app();
    assert!(a.wants_devices(None));
    assert!(a.wants_devices(Some(31)));
    assert!(!a.wants_devices(Some(30)));
    assert_eq!(a.resolve_device_id(), None);
    a.load_devices(vec![device(Some("d1"), "one", false), device(Some("d2"), "two", true)]);
    assert_eq!(a.resolve_device_id(), Some("d2".to_string()));
    a.load_devices(vec![device(Some("d1"), "one", false), device(None, "two", true)]);
    assert_eq!(a.resolve_device_id(), Some("d1".to_string()));
    a.default_device = "gone".to_string();
    assert_eq!(a.resolve_device_id(), Some("d1".to_string()));
}

#[test]
fn enter_opens_a_playlist_and_plays_from_a_track() {
    let mut a = app();
    a.screen = Screen::Playlists;
    a.ensure_playlists_loaded(vec![playlist("a"), playlist("b")]);
    a.playlists_idx = 1;
    let p = match a.list_activate() {
        Activation::Open(p) => p,
        other => panic!("{:?}", other),
    };
    assert_eq!(p.name, "b");
    assert_eq!(a.screen, Screen::PlaylistTracks);
    a.load_playlist_tracks(p, tracks(3), vec![0, 1, 2]);
    assert_eq!(a.playlist_tracks_idx, 0);
    a.list_down();
    assert!(a.activate_needs_device());
    assert!(matches!(a.list_activate(), Activation::Stop));
    assert_eq!(status(&a), Some((NO_DEVICES, AMBER)));
    a.load_devices(vec![device(Some("d1"), "one", false)]);
    match a.list_activate() {
        Activation::Send(c) => {
            assert!(matches!(&c, Command::PlayPlaylist { playlist, index: 1, device } if playlist == "pl-b" && device == "d1"));
            a.report(&c, &None);
        }
        other => panic!("{:?}", other),
    }
    assert_eq!(status(&a), Some((" Playing from #2", OK)));
}

#[test]
fn enter_hands_playback_to_a_device() {
    let mut a = app();
    a.screen = Screen::Devices;
    assert!(matches!(a.list_activate(), Activation::Nothing));
    a.load_devices(vec![device(None, "none", false), device(Some("d2"), "Desk", false)]);
    assert!(matches!(a.list_activate(), Activation::Nothing));
    a.list_down();
    assert!(!a.activate_needs_device());
    match a.list_activate() {
        Activation::Send(c) => {
            assert!(matches!(&c, Command::Transfer { device, name } if device == "d2" && name == "Desk"));
            a.report(&c, &None);
            assert_eq!(status(&a), Some((" Transferred to Desk", OK)));
            a.report(&c, &Some("no".to_string()));
            assert_eq!(status(&a), Some((" Transfer failed: no", ERR)));
        }
        other => panic!("{:?}", other),
    }
}

#[test]
fn enter_plays_a_search_result() {
    let mut a = app();
    a.finish_search(Answer::Items(vec![artist("A")]), Answer::Items(vec![track("T", Some("t1")), track("U", None)]));
    assert!(matches!(a.list_activate(), Activation::Stop));
    a.load_devices(vec![device(Some("d1"), "one", false)]);
    a.list_down();
    match a.list_activate() {
        Activation::Send(c) => {
            assert!(matches!(&c, Command::PlayTrack { track, device } if track == "t1" && device == "d1"));
            a.report(&c, &Some("403".to_string()));
        }
        other => panic!("{:?}", other),
    }
    assert_eq!(status(&a), Some((" Play failed: 403", ERR)));
    a.list_down();
    assert!(matches!(a.list_activate(), Activation::Nothing));
}

fn release(name: &str, date: &str) -> Release {
    Release { id: Some(format!("al-{}", name)), name: name.to_string(), date: date.to_string() }
}

#[test]
fn releases_come_newest_first() {
    let list = order_releases(vec![
        release("b", "1981-12"),
        release("none", ""),
        release("c", "1999-01-02"),
        release("d", "1981-12"),
        release("a", "1981"),
        release("e", "2001"),
    ]);
    let names: Vec<&str> = list.iter().map(|r| r.name.as_str()).collect();
    assert_eq!(names, ["e", "c", "b", "d", "a", "none"]);
    assert!(order_releases(Vec::new()).is_empty());
}

#[test]
fn enter_on_an_artist_lists_their_releases() {
    let mut a = app();
    a.finish_search(Answer::Items(vec![artist("A")]), Answer::Items(vec![track("T", Some("t1"))]));
    a.load_devices(vec![device(Some("d1"), "one", false)]);
    let who = match a.list_activate() {
        Activation::Releases(who) => who,
        other => panic!("{:?}", other),
    };
    assert_eq!((who.id.as_str(), status(&a)), ("ar-A", None));
    let mut nameless = release("old", "1970");
    nameless.id = None;
    a.load_releases(who, vec![nameless, release("new", "2020")]);
    assert!(matches!(a.releases.as_ref().unwrap().rows[0], ReleaseRow::Radio));
    assert_eq!(a.current_list_indices(), (0, Some(3)));
    match a.list_activate() {
        Activation::Send(c) => {
            assert!(matches!(&c, Command::PlayArtist { artist, device, .. } if artist == "ar-A" && device == "d1"));
            a.report(&c, &None);
        }
        other => panic!("{:?}", other),
    }
    assert_eq!(status(&a), Some((" Playing A", OK)));
    a.handle("j");
    match a.list_activate() {
        Activation::Send(c) => {
            assert!(matches!(&c, Command::PlayAlbum { album, .. } if album == "al-new"));
            a.report(&c, &None);
        }
        other => panic!("{:?}", other),
    }
    assert_eq!(status(&a), Some((" Playing new", OK)));
    a.handle("G");
    assert!(matches!(a.list_activate(), Activation::Nothing));
    assert!(a.queue_current().is_none());
}

#[test]
fn h_and_l_move_between_the_two_lists() {
    let mut a = app();
    a.finish_search(Answer::Items(vec![artist("A")]), Answer::Items(vec![track("T", Some("t1"))]));
    assert_eq!(a.handle("l"), Step::Stay);
    assert_eq!(a.current_list_indices(), (0, Some(2)));
    a.load_releases(artist("A"), vec![release("x", "2020"), release("y", "2021")]);
    a.handle("j");
    assert_eq!((a.current_list_indices(), a.search_idx), ((1, Some(3)), 0));
    a.handle("h");
    a.handle("j");
    assert_eq!((a.current_list_indices(), a.search_idx), ((1, Some(2)), 1));
    assert_eq!(a.current_track_uri(), Some("t1".to_string()));
    a.handle("l");
    assert_eq!(a.current_list_indices(), (1, Some(3)));
    a.handle("P");
    assert_eq!(a.current_list_indices(), (0, Some(0)));
    a.handle("/");
    a.finish_search(Answer::Items(Vec::new()), Answer::Items(Vec::new()));
    assert!(a.releases.is_none());
}

#[test]
fn enter_plays_the_track_at_its_place_in_the_playlist() {
    let mut a = app();
    a.load_devices(vec![device(Some("d1"), "one", false)]);
    a.screen = Screen::PlaylistTracks;
    let mut load = PlaylistLoad::new();
    let episode = Item::Unknown(parse("{\"name\": \"E\"}").unwrap());
    assert!(load.take(Loaded::Item(episode), PLAYLIST_LIMIT));
    assert!(load.take(Loaded::Item(Item::Track(track("T1", Some("t1")))), PLAYLIST_LIMIT));
    assert!(load.take(Loaded::Other, PLAYLIST_LIMIT));
    assert!(load.take(Loaded::Item(Item::Track(track("T2", Some("t2")))), PLAYLIST_LIMIT));
    assert!(!load.take(Loaded::Failed, PLAYLIST_LIMIT));
    assert_eq!(load.places, [1, 3]);
    a.load_playlist_tracks(playlist("p"), load.tracks, load.places);
    assert!(matches!(a.list_activate(), Activation::Send(Command::PlayPlaylist { index: 1, .. })));
    a.list_down();
    assert!(matches!(a.list_activate(), Activation::Send(Command::PlayPlaylist { index: 3, .. })));
    a.load_playlist_tracks(playlist("p"), Vec::new(), Vec::new());
    assert!(matches!(a.list_activate(), Activation::Send(Command::PlayPlaylist { index: 0, .. })));
}

#[test]
fn the_releases_scroll_on_their_own() {
    let mut a = app();
    a.adjust_side_scroll(10);
    a.load_releases(artist("A"), (0..30).map(|i| release("x", &format!("{}", 2000 - i))).collect());
    a.handle("G");
    a.adjust_side_scroll(10);
    assert_eq!((a.side_scroll, a.scroll), (27, 0));
    a.adjust_main_scroll(10);
    assert_eq!(a.scroll, 0);
}

#[test]
fn enter_plays_a_saved_or_queued_track() {
    let mut a = app();
    a.load_devices(vec![device(Some("d1"), "one", false)]);
    a.ensure_saved_loaded(vec![track("S", Some("s1"))]);
    a.screen = Screen::Saved;
    assert!(matches!(a.list_activate(), Activation::Send(Command::PlayTrack { track, .. }) if track == "s1"));
    a.screen = Screen::Queue;
    assert!(!a.activate_needs_device());
    assert!(matches!(a.list_activate(), Activation::Nothing));
    a.screen = Screen::Help;
    assert!(matches!(a.list_activate(), Activation::Nothing));
}

#[test]
fn a_cursor_past_a_shorter_queue_plays_nothing() {
    let mut a = app();
    a.screen = Screen::Queue;
    a.ensure_queue_loaded(tracks(3).into_iter().map(Item::Track).collect());
    a.list_bottom();
    a.ensure_queue_loaded(tracks(1).into_iter().map(Item::Track).collect());
    assert_eq!(a.queue_idx, 2);
    assert_eq!(a.current_track_uri(), None);
    assert!(matches!(a.list_activate(), Activation::Nothing));
    a.list_down();
    assert_eq!(a.queue_idx, 2);
    a.list_up();
    a.list_up();
    assert_eq!(a.current_track_uri(), Some("id0".to_string()));
}

#[test]
fn a_track_is_added_to_the_queue() {
    let mut a = app();
    assert!(a.queue_current().is_none());
    a.finish_search(Answer::Items(vec![artist("A")]), Answer::Items(vec![track("T", Some("t1"))]));
    assert!(a.queue_current().is_none());
    a.list_down();
    let c = a.queue_current().unwrap();
    assert!(matches!(&c, Command::Enqueue { track, device: None } if track == "t1"));
    a.report(&c, &None);
    assert_eq!(status(&a), Some((" Added to queue", OK)));
    a.report(&c, &Some("x".to_string()));
    assert_eq!(status(&a), Some((" Queue failed: x", ERR)));
}

#[test]
fn space_pauses_resumes_or_wakes_a_device() {
    let mut a = app();
    assert!(a.toggle_play().is_none());
    assert_eq!(status(&a), Some((NO_DEVICES, AMBER)));
    a.load_devices(vec![device(Some("d1"), "one", false)]);
    assert!(matches!(a.toggle_play(), Some(Command::Wake { device }) if device == "d1"));
    a.poll_state(Some(playback(Some("k1"), false)));
    assert!(matches!(a.toggle_play(), Some(Command::Resume { device }) if device == "k1"));
    a.poll_state(Some(playback(Some("k1"), true)));
    let c = a.toggle_play().unwrap();
    assert!(matches!(&c, Command::Pause { device } if device == "k1"));
    a.report(&c, &Some("gone".to_string()));
    assert_eq!(status(&a), Some((" Toggle failed: gone", ERR)));
}

#[test]
fn a_skip_says_nothing_however_it_ends() {
    let mut a = app();
    a.set_status("before", OK);
    let next = a.skip_next();
    assert!(matches!(&next, Command::Next { device: None }));
    a.report(&next, &Some("x".to_string()));
    a.report(&a.skip_prev(), &None);
    assert_eq!(status(&a), Some((" before", OK)));
}

#[test]
fn the_volume_stays_in_range_and_shows_at_once() {
    let mut a = app();
    assert!(matches!(a.bump_volume(5), Command::Volume { percent: 55, device: None }));
    assert_eq!(status(&a), Some((" Volume: 55%", OK)));
    assert!(a.playback.is_none());
    a.poll_state(Some(playback(Some("k1"), true)));
    assert!(matches!(a.bump_volume(-5), Command::Volume { percent: 35, .. }));
    assert_eq!(a.playback.as_ref().unwrap().device.volume_percent, Some(35));
    assert!(matches!(a.bump_volume(-500), Command::Volume { percent: 0, .. }));
    assert!(matches!(a.bump_volume(500), Command::Volume { percent: 100, .. }));
    assert_eq!(status(&a), Some((" Volume: 100%", OK)));
}

#[test]
fn a_seek_stays_inside_the_item() {
    let mut a = app();
    assert!(matches!(a.seek_relative(5_000), Command::Seek { ms: 0, .. }));
    a.poll_state(Some(playback(Some("k1"), true)));
    assert!(matches!(a.seek_relative(5_000), Command::Seek { ms: 15_000, .. }));
    assert!(matches!(a.seek_relative(-50_000), Command::Seek { ms: 0, .. }));
    assert!(matches!(a.seek_relative(500_000), Command::Seek { ms: 200_000, .. }));
    a.playback.as_mut().unwrap().item = Some(Item::Unknown(parse("{\"duration_ms\": 12000}").unwrap()));
    assert!(matches!(a.seek_relative(5_000), Command::Seek { ms: 12_000, .. }));
}

#[test]
fn shuffle_and_repeat_go_on_from_what_plays() {
    let mut a = app();
    assert!(matches!(a.toggle_shuffle(), Command::Shuffle { on: true, .. }));
    assert!(matches!(a.cycle_repeat(), Command::Repeat { mode: RepeatState::Context, .. }));
    let mut p = playback(Some("k1"), true);
    p.shuffle_state = true;
    p.repeat_state = RepeatState::Context;
    a.poll_state(Some(p));
    assert!(matches!(a.toggle_shuffle(), Command::Shuffle { on: false, .. }));
    assert!(matches!(a.cycle_repeat(), Command::Repeat { mode: RepeatState::Track, .. }));
    a.playback.as_mut().unwrap().repeat_state = RepeatState::Track;
    assert!(matches!(a.cycle_repeat(), Command::Repeat { mode: RepeatState::Off, .. }));
}

#[test]
fn an_empty_search_is_not_made() {
    let mut a = app();
    assert!(!a.begin_search("  "));
    assert_eq!(a.search_query, "");
    assert!(a.begin_search(" miles davis "));
    assert_eq!(a.search_query, "miles davis");
}

#[test]
fn artists_stand_before_tracks() {
    let mut a = app();
    a.search_idx = 0;
    a.finish_search(Answer::Items(vec![artist("A"), artist("B")]), Answer::Items(vec![track("T", None)]));
    let kinds: Vec<bool> = a.search_results.iter().map(|r| matches!(r, SearchRow::Artist(_))).collect();
    assert_eq!(kinds, [true, true, false]);
    assert_eq!(status(&a), None);
}

#[test]
fn a_failed_search_is_told() {
    let mut a = app();
    a.finish_search(Answer::Failed("x".into()), Answer::Items(vec![track("T", None)]));
    assert_eq!(status(&a), Some((" Search (artists) failed: x", ERR)));
    assert_eq!(a.search_results.len(), 1);
    a.finish_search(Answer::Other, Answer::Other);
    assert_eq!(status(&a), Some((" Unexpected response shape", ERR)));
    a.finish_search(Answer::Failed("x".into()), Answer::Failed("y".into()));
    assert_eq!(status(&a), Some((" Search failed: y", ERR)));
    assert!(a.search_results.is_empty());
}

#[test]
fn loading_stops_at_a_failure_and_at_the_limit() {
    let mut list = Vec::new();
    assert!(take_reply(&mut list, Loaded::Item(1), 3));
    assert!(take_reply(&mut list, Loaded::Other, 3));
    assert!(take_reply(&mut list, Loaded::Item(2), 3));
    assert!(!take_reply(&mut list, Loaded::Item(3), 3));
    assert_eq!(list, [1, 2, 3]);
    assert!(!take_reply(&mut list, Loaded::Failed, LIBRARY_LIMIT));
    assert_eq!(list, [1, 2, 3]);
}

#[test]
fn the_queue_holds_tracks_only() {
    let mut a = app();
    a.ensure_queue_loaded(vec![
        Item::Track(track("a", None)),
        Item::Unknown(parse("{}").unwrap()),
        Item::Track(track("b", None)),
    ]);
    assert_eq!(a.queue.iter().map(|t| t.name.as_str()).collect::<Vec<_>>(), ["a", "b"]);
}

#[test]
fn a_poll_is_due_after_the_interval() {
    assert!(!poll_due(1_999_999_999, 2));
    assert!(poll_due(2_000_000_000, 2));
    assert!(!poll_due(999_999_999, 0));
    assert!(poll_due(1_000_000_000, 0));
}

#[test]
fn the_progress_moves_once_a_second_while_something_plays() {
    let mut a = app();
    assert_eq!(a.tick_progress(2_000_000_000), Tick::Idle);
    a.poll_state(Some(playback(Some("k1"), true)));
    assert_eq!(a.tick_progress(999_999_999), Tick::Early);
    assert_eq!(a.playback.as_ref().unwrap().progress_ns, Some(10_000_000_000));
    assert_eq!(a.tick_progress(1_500_000_000), Tick::Moved);
    assert_eq!(a.playback.as_ref().unwrap().progress_ns, Some(11_500_000_000));
    assert_eq!(a.tick_progress(u128::MAX), Tick::Moved);
    assert_eq!(a.playback.as_ref().unwrap().progress_ns, Some(11_500_000_000));
    a.playback.as_mut().unwrap().is_playing = false;
    assert_eq!(a.tick_progress(1_500_000_000), Tick::Idle);
    assert_eq!(a.playback.as_ref().unwrap().progress_ns, Some(11_500_000_000));
}

#[test]
fn the_cover_follows_what_plays() {
    let mut a = app();
    assert!(matches!(a.sync_cover(), CoverAction::Nothing));
    let mut p = playback(Some("k1"), true);
    let mut t = track("now", Some("now"));
    t.images = vec![Image { width: Some(64), url: "u".to_string() }];
    p.item = Some(Item::Track(t));
    a.poll_state(Some(p));
    assert!(matches!(a.sync_cover(), CoverAction::Fetch { id, url } if id == "now" && url == "u"));
    a.cover_placed("now".to_string());
    assert!(matches!(a.sync_cover(), CoverAction::Nothing));
    a.poll_state(None);
    assert!(matches!(a.sync_cover(), CoverAction::Erase));
    assert!(a.cover_track_id.is_none());
    assert!(matches!(a.sync_cover(), CoverAction::Nothing));
}

#[test]
fn the_cursor_scrolls_into_view_with_a_margin() {
    let mut a = app();
    a.screen = Screen::Saved;
    a.ensure_saved_loaded(tracks(50));
    a.adjust_main_scroll(10);
    assert_eq!(a.scroll, 0);
    a.saved_idx = 20;
    a.adjust_main_scroll(10);
    assert_eq!(a.scroll, 17);
    a.adjust_main_scroll(10);
    assert_eq!(a.scroll, 17);
    a.saved_idx = 10;
    a.adjust_main_scroll(10);
    assert_eq!(a.scroll, 10);
    a.adjust_main_scroll(0);
    a.screen = Screen::Help;
    a.adjust_main_scroll(10);
    assert_eq!(a.scroll, 10);
}

#[test]
fn a_new_size_starts_the_screen_again() {
    let mut a = app();
    a.scroll = 5;
    a.cover_placed("x".to_string());
    assert!(!a.handle_resize_if_needed(80, 40));
    assert_eq!(a.scroll, 5);
    assert!(a.handle_resize_if_needed(80, 50));
    assert_eq!((a.cols, a.rows, a.scroll, a.cover_track_id.clone()), (80, 50, 0, None));
}

#[test]
fn turning_the_volume_up_and_down_leads_back() {
    let mut a = app();
    a.poll_state(Some(playback(Some("k1"), true)));
    a.bump_volume(5);
    assert!(matches!(a.bump_volume(-5), Command::Volume { percent: 40, .. }));
    a.bump_volume(58);
    a.bump_volume(5);
    assert!(matches!(a.bump_volume(-5), Command::Volume { percent: 95, .. }));
}

#[test]
fn any_keys_keep_the_cursors_on_their_lists() {
    let mut a = app();
    a.ensure_saved_loaded(tracks(13));
    a.ensure_playlists_loaded(vec![playlist("a"), playlist("b")]);
    let keys = ["L", "PgDOWN", "j", "j", "j", "P", "G", "DOWN", "L", "PgDOWN", "k", "?", "G", "q", "j", "L", "END", "PgUP", "UP"];
    for (i, _) in keys.iter().enumerate() {
        for key in &keys[i..] {
            a.handle(key);
            assert!(a.saved_idx < 13 && a.playlists_idx < 2 && a.search_idx == 0);
        }
    }
}

#[test]
fn lists_that_are_there_are_kept() {
    let mut a = app();
    a.ensure_saved_loaded(tracks(2));
    a.ensure_saved_loaded(tracks(5));
    assert_eq!(a.saved_tracks.len(), 2);
    a.ensure_playlists_loaded(vec![playlist("a")]);
    a.ensure_playlists_loaded(Vec::new());
    assert_eq!(a.playlists.len(), 1);
}
